//! The plain command line: a file to show and two switches, or the request
//! for help, for the version or for a configuration file.
use vstd::prelude::*;

use crate::node::opt_view;
use crate::text::str_is;

verus! {

/// What the command line asks to be shown, and how.
#[derive(Clone, PartialEq, Eq, Debug)]
pub struct CliOptions {
    pub debug_mode: bool,
    pub file_path: Option<String>,
    pub show_line_numbers: bool,
}

/// `CliOptions` as plain values.
pub struct CliOptionsView {
    pub debug_mode: bool,
    pub file_path: Option<Seq<char>>,
    pub show_line_numbers: bool,
}

impl View for CliOptions {
    type V = CliOptionsView;

    open spec fn view(&self) -> CliOptionsView {
        CliOptionsView {
            debug_mode: self.debug_mode,
            file_path: opt_view(self.file_path),
            show_line_numbers: self.show_line_numbers,
        }
    }
}

/// What a command line comes to.
#[derive(Clone, PartialEq, Eq, Debug)]
pub enum ParseResult {
    Options(CliOptions),
    Help,
    Version,
    Config,
}

/// `ParseResult` as plain values.
pub enum ParseResultView {
    Options(CliOptionsView),
    Help,
    Version,
    Config,
}

impl View for ParseResult {
    type V = ParseResultView;

    open spec fn view(&self) -> ParseResultView {
        match self {
            ParseResult::Options(options) => ParseResultView::Options(options@),
            ParseResult::Help => ParseResultView::Help,
            ParseResult::Version => ParseResultView::Version,
            ParseResult::Config => ParseResultView::Config,
        }
    }
}

/// What the caller is asked to do in place of showing a file.
#[derive(Clone, Copy, PartialEq, Eq, Debug, Structural)]
pub enum CliRequest {
    Help,
    Version,
    Config,
}

/// What the arguments from position `i` on come to, when those before them
/// have come to `options`: `--help`, `--version` and `--generate-config` end
/// the reading at once, `--debug` and `--line-numbers` set their switch, and
/// any other argument names the file, the last one being the one that counts.
pub open spec fn parsed_from(args: Seq<String>, i: nat, options: CliOptionsView) -> ParseResultView
    decreases args.len() - i,
{
    if i >= args.len() {
        ParseResultView::Options(options)
    } else {
        let arg = args[i as int]@;
        if arg == "--debug"@ {
            parsed_from(args, i + 1, CliOptionsView { debug_mode: true, ..options })
        } else if arg == "--line-numbers"@ {
            parsed_from(args, i + 1, CliOptionsView { show_line_numbers: true, ..options })
        } else if arg == "--help"@ {
            ParseResultView::Help
        } else if arg == "--version"@ {
            ParseResultView::Version
        } else if arg == "--generate-config"@ {
            ParseResultView::Config
        } else {
            parsed_from(args, i + 1, CliOptionsView { file_path: Some(arg), ..options })
        }
    }
}

/// What a command line comes to. Its first argument, the name of the
/// program, is passed over.
pub open spec fn parsed_args(args: Seq<String>) -> ParseResultView {
    parsed_from(
        args,
        1,
        CliOptionsView { debug_mode: false, file_path: None, show_line_numbers: false },
    )
}

/// Reads the command line.
pub fn parse_args(args: &[String]) -> (result: ParseResult)
    ensures
        result@ == parsed_args(args@),
{
    let mut options = CliOptions { debug_mode: false, file_path: None, show_line_numbers: false };
    let mut i: usize = 1;
    while i < args.len()
        invariant
            1 <= i,
            parsed_args(args@) == parsed_from(args@, i as nat, options@),
        decreases args.len() - i,
    {
        let arg = &args[i];
        if str_is(arg.as_str(), "--debug") {
            options.debug_mode = true;
        } else if str_is(arg.as_str(), "--line-numbers") {
            options.show_line_numbers = true;
        } else if str_is(arg.as_str(), "--help") {
            return ParseResult::Help;
        } else if str_is(arg.as_str(), "--version") {
            return ParseResult::Version;
        } else if str_is(arg.as_str(), "--generate-config") {
            return ParseResult::Config;
        } else {
            options.file_path = Some(arg.clone());
        }
        i = i + 1;
    }
    ParseResult::Options(options)
}

/// What is to be done with what the command line came to: the options of a
/// file to show are handed on, anything else is a request to the caller.
pub fn handle_cli_result(result: ParseResult) -> (r: (Option<CliOptions>, Option<CliRequest>))
    ensures
        r == match result {
            ParseResult::Options(options) => (Some(options), None::<CliRequest>),
            ParseResult::Help => (None::<CliOptions>, Some(CliRequest::Help)),
            ParseResult::Version => (None::<CliOptions>, Some(CliRequest::Version)),
            ParseResult::Config => (None::<CliOptions>, Some(CliRequest::Config)),
        },
{
    match result {
        ParseResult::Options(options) => (Some(options), None),
        ParseResult::Help => (None, Some(CliRequest::Help)),
        ParseResult::Version => (None, Some(CliRequest::Version)),
        ParseResult::Config => (None, Some(CliRequest::Config)),
    }
}

} // verus!
