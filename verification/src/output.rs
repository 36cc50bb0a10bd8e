//! What the renderer produces: a sequence of terminal operations. The
//! library decides which operations are issued and in which order; writing
//! them to a terminal is left to the caller.
use vstd::prelude::*;

use crate::text::string_of;

verus! {

/// A terminal colour.
#[derive(Clone, Copy, PartialEq, Eq, Debug)]
pub enum Color {
    Black,
    Blue,
    Green,
    Red,
    Cyan,
    Magenta,
    Yellow,
    White,
    Rgb(u8, u8, u8),
}

/// The attributes that text is written with.
#[derive(Clone, Copy, PartialEq, Eq, Debug)]
pub struct Style {
    pub fg: Option<Color>,
    pub bg: Option<Color>,
    pub bold: bool,
    pub italic: bool,
    pub underline: bool,
}

impl Style {
    /// A foreground colour and nothing else.
    pub open spec fn fg(color: Color) -> Style {
        Style { fg: Some(color), bg: None, bold: false, italic: false, underline: false }
    }

    /// A foreground colour, bold.
    pub open spec fn fg_bold(color: Color) -> Style {
        Style { fg: Some(color), bg: None, bold: true, italic: false, underline: false }
    }

    /// A foreground colour, italic.
    pub open spec fn fg_italic(color: Color) -> Style {
        Style { fg: Some(color), bg: None, bold: false, italic: true, underline: false }
    }

    /// A foreground colour, underlined.
    pub open spec fn fg_underline(color: Color) -> Style {
        Style { fg: Some(color), bg: None, bold: false, italic: false, underline: true }
    }

    /// Bold, in the terminal's own colour.
    pub open spec fn bold() -> Style {
        Style { fg: None, bg: None, bold: true, italic: false, underline: false }
    }

    /// Italic, in the terminal's own colour.
    pub open spec fn italic() -> Style {
        Style { fg: None, bg: None, bold: false, italic: true, underline: false }
    }

    /// A foreground colour and nothing else.
    pub fn with_fg(color: Color) -> (s: Style)
        ensures
            s == Style::fg(color),
    {
        Style { fg: Some(color), bg: None, bold: false, italic: false, underline: false }
    }

    /// A foreground colour, bold.
    pub fn with_fg_bold(color: Color) -> (s: Style)
        ensures
            s == Style::fg_bold(color),
    {
        Style { fg: Some(color), bg: None, bold: true, italic: false, underline: false }
    }

    /// A foreground colour, italic.
    pub fn with_fg_italic(color: Color) -> (s: Style)
        ensures
            s == Style::fg_italic(color),
    {
        Style { fg: Some(color), bg: None, bold: false, italic: true, underline: false }
    }

    /// A foreground colour, underlined.
    pub fn with_fg_underline(color: Color) -> (s: Style)
        ensures
            s == Style::fg_underline(color),
    {
        Style { fg: Some(color), bg: None, bold: false, italic: false, underline: true }
    }

    /// Bold, in the terminal's own colour.
    pub fn only_bold() -> (s: Style)
        ensures
            s == Style::bold(),
    {
        Style { fg: None, bg: None, bold: true, italic: false, underline: false }
    }

    /// Italic, in the terminal's own colour.
    pub fn only_italic() -> (s: Style)
        ensures
            s == Style::italic(),
    {
        Style { fg: None, bg: None, bold: false, italic: true, underline: false }
    }
}

/// Where the pixels of an image come from.
#[derive(Clone, PartialEq, Eq, Debug)]
pub enum ImageSource {
    /// The image itself, decoded from a `data:` URI.
    Inline(Vec<u8>),
    /// An address to fetch the image from.
    Remote(String),
    /// A path in the local file system.
    Local(String),
}

/// `ImageSource` as plain values.
pub enum ImageSourceView {
    Inline(Seq<u8>),
    Remote(Seq<char>),
    Local(Seq<char>),
}

impl View for ImageSource {
    type V = ImageSourceView;

    open spec fn view(&self) -> ImageSourceView {
        match self {
            ImageSource::Inline(bytes) => ImageSourceView::Inline(bytes@),
            ImageSource::Remote(url) => ImageSourceView::Remote(url@),
            ImageSource::Local(path) => ImageSourceView::Local(path@),
        }
    }
}

/// One step of terminal output.
#[derive(Clone, PartialEq, Eq, Debug)]
pub enum RenderOp {
    /// Write the text as it is.
    Text(String),
    /// Switch to the given style.
    SetStyle(Style),
    /// Switch back to the terminal's default style.
    Reset,
    /// Write one line of source code, highlighted for the language.
    Code { line: String, language: String },
    /// Draw an image, no larger than the given bounds.
    Image { source: ImageSource, max_width: Option<u32>, max_height: Option<u32> },
    /// Report something on the diagnostic stream.
    Diagnostic(String),
}

/// `RenderOp` as plain values.
pub enum OpView {
    Text(Seq<char>),
    SetStyle(Style),
    Reset,
    Code { line: Seq<char>, language: Seq<char> },
    Image { source: ImageSourceView, max_width: Option<u32>, max_height: Option<u32> },
    Diagnostic(Seq<char>),
}

impl View for RenderOp {
    type V = OpView;

    open spec fn view(&self) -> OpView {
        match self {
            RenderOp::Text(s) => OpView::Text(s@),
            RenderOp::SetStyle(style) => OpView::SetStyle(*style),
            RenderOp::Reset => OpView::Reset,
            RenderOp::Code { line, language } => OpView::Code { line: line@, language: language@ },
            RenderOp::Image { source, max_width, max_height } => OpView::Image {
                source: source@,
                max_width: *max_width,
                max_height: *max_height,
            },
            RenderOp::Diagnostic(s) => OpView::Diagnostic(s@),
        }
    }
}

/// The operations issued so far, oldest first.
pub struct Output {
    pub ops: Vec<RenderOp>,
}

impl View for Output {
    type V = Seq<OpView>;

    open spec fn view(&self) -> Seq<OpView> {
        Seq::new(self.ops@.len(), |i: int| self.ops@[i]@)
    }
}

impl Output {
    /// An output with no operation in it.
    pub fn new() -> (out: Output)
        ensures
            out@ == Seq::<OpView>::empty(),
    {
        Output { ops: Vec::new() }
    }

    /// Number of operations issued.
    pub fn len(&self) -> (n: usize)
        ensures
            n == self@.len(),
    {
        self.ops.len()
    }

    /// Issues `op`.
    pub fn push(&mut self, op: RenderOp)
        ensures
            final(self)@ == old(self)@.push(op@),
    {
        self.ops.push(op);
        assert(self@ =~= old(self)@.push(op@));
    }

    /// Issues the writing of `s`.
    pub fn text(&mut self, s: &str)
        ensures
            final(self)@ == old(self)@.push(OpView::Text(s@)),
    {
        self.push(RenderOp::Text(String::from_str(s)));
    }

    /// Issues the writing of `chars`.
    pub fn text_chars(&mut self, chars: &Vec<char>)
        ensures
            final(self)@ == old(self)@.push(OpView::Text(chars@)),
    {
        self.push(RenderOp::Text(string_of(chars)));
    }

    /// Issues a change of style.
    pub fn style(&mut self, style: Style)
        ensures
            final(self)@ == old(self)@.push(OpView::SetStyle(style)),
    {
        self.push(RenderOp::SetStyle(style));
    }

    /// Issues the return to the default style.
    pub fn reset(&mut self)
        ensures
            final(self)@ == old(self)@.push(OpView::Reset),
    {
        self.push(RenderOp::Reset);
    }

    /// Issues a report on the diagnostic stream.
    pub fn diagnostic(&mut self, chars: &Vec<char>)
        ensures
            final(self)@ == old(self)@.push(OpView::Diagnostic(chars@)),
    {
        self.push(RenderOp::Diagnostic(string_of(chars)));
    }

    /// Everything that the `Text` operations write, in order.
    pub fn plain_text(&self) -> (s: String)
        ensures
            s@ == plain_text(self@),
    {
        let mut v: Vec<char> = Vec::new();
        let mut i: usize = 0;
        proof {
            assert(self@.take(0) =~= Seq::<OpView>::empty());
        }
        while i < self.ops.len()
            invariant
                i <= self.ops.len(),
                v@ == plain_text(self@.take(i as int)),
            decreases self.ops.len() - i,
        {
            proof {
                assert(self@.take(i + 1).drop_last() =~= self@.take(i as int));
                assert(self@.take(i + 1).last() == self.ops@[i as int]@);
            }
            match &self.ops[i] {
                RenderOp::Text(s) => {
                    crate::text::push_str(&mut v, s.as_str());
                },
                _ => {},
            }
            i = i + 1;
        }
        proof {
            assert(self@.take(self.ops.len() as int) =~= self@);
        }
        string_of(&v)
    }
}

/// Everything that the `Text` operations among `ops` write, in order.
pub open spec fn plain_text(ops: Seq<OpView>) -> Seq<char>
    decreases ops.len(),
{
    if ops.len() == 0 {
        Seq::empty()
    } else {
        plain_text(ops.drop_last()) + match ops.last() {
            OpView::Text(s) => s,
            _ => Seq::empty(),
        }
    }
}

} // verus!
