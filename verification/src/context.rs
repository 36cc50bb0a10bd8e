//! The state of one render pass: it is handed down the tree walk and
//! changed on the way.
use vstd::prelude::*;

use crate::config::AppConfig;
use crate::utils::shared::{distinct_keys, FootnoteTable, LinkTable};

verus! {

/// The state of one render pass.
#[derive(Clone, PartialEq, Eq, Debug)]
pub struct RenderContext {
    /// The options of this pass; rendering reads them and never changes them.
    pub config: AppConfig,
    /// Depth of the heading rendered last.
    pub heading_level: usize,
    /// Number of indentation levels that content is written at.
    pub indent_level: usize,
    /// One counter for each list that is open, the innermost last.
    pub list_stack: Vec<usize>,
    /// For each open list, whether it is ordered.
    pub ordered_flags: Vec<bool>,
    /// The link definitions of the document.
    pub links: LinkTable,
    /// The footnotes of the document.
    pub footnotes: FootnoteTable,
}

/// The state of a render pass, as plain values.
#[verifier::ext_equal]
pub struct RenderState {
    pub heading_level: usize,
    pub indent_level: usize,
    pub list_stack: Seq<usize>,
    pub ordered_flags: Seq<bool>,
    pub links: Seq<(Seq<char>, (Seq<char>, Option<Seq<char>>))>,
    pub footnotes: Seq<(Seq<char>, Seq<char>)>,
}

impl RenderState {
    /// The two list stacks are as long as each other, and no table holds an
    /// identifier twice.
    pub open spec fn wf(self) -> bool {
        &&& self.list_stack.len() == self.ordered_flags.len()
        &&& distinct_keys(self.links)
        &&& distinct_keys(self.footnotes)
    }
}

impl View for RenderContext {
    type V = RenderState;

    open spec fn view(&self) -> RenderState {
        RenderState {
            heading_level: self.heading_level,
            indent_level: self.indent_level,
            list_stack: self.list_stack@,
            ordered_flags: self.ordered_flags@,
            links: self.links@,
            footnotes: self.footnotes@,
        }
    }
}

/// `n + 1`, or `n` where that is the largest number there is.
pub open spec fn bump(n: usize) -> usize {
    if n < usize::MAX {
        (n + 1) as usize
    } else {
        n
    }
}

/// `n - 1`, or zero where `n` is zero.
pub open spec fn drop_one(n: usize) -> usize {
    if n > 0 {
        (n - 1) as usize
    } else {
        n
    }
}

/// `n + 1`, or `n` where that is the largest number there is.
pub fn bump_exec(n: usize) -> (r: usize)
    ensures
        r == bump(n),
{
    if n < usize::MAX {
        n + 1
    } else {
        n
    }
}

/// `n - 1`, or zero where `n` is zero.
pub fn drop_one_exec(n: usize) -> (r: usize)
    ensures
        r == drop_one(n),
{
    if n > 0 {
        n - 1
    } else {
        n
    }
}

impl RenderContext {
    /// The state at the start of a pass: no heading seen, no indentation, no
    /// list open, both tables empty.
    pub fn new(config: AppConfig) -> (ctx: RenderContext)
        ensures
            ctx.config == config,
            ctx@.heading_level == 0,
            ctx@.indent_level == 0,
            ctx@.list_stack == Seq::<usize>::empty(),
            ctx@.ordered_flags == Seq::<bool>::empty(),
            ctx@.links == Seq::<(Seq<char>, (Seq<char>, Option<Seq<char>>))>::empty(),
            ctx@.footnotes == Seq::<(Seq<char>, Seq<char>)>::empty(),
            ctx@.wf(),
    {
        RenderContext {
            config,
            heading_level: 0,
            indent_level: 0,
            list_stack: Vec::new(),
            ordered_flags: Vec::new(),
            links: LinkTable::new(),
            footnotes: FootnoteTable::new(),
        }
    }
}

} // verus!
