//! Highlighted source code: the colours of a theme are written as `#rrggbb`,
//! and a highlighted line is a run of texts between changes of colour.
use vstd::prelude::*;
use vstd::string::StringSliceAdditionalSpecFns;

use vstd::utf8::encode_utf8;

use crate::output::{Color, OpView, Output, Style};
use crate::text::push_str;
use crate::utils::theme::{style_of, Theme, ThemeView};

verus! {

/// The value of the hexadecimal digit `b`, a byte of ASCII.
pub open spec fn hex_value(b: u8) -> Option<u8> {
    if 0x30 <= b <= 0x39 {
        Some((b - 0x30) as u8)
    } else if 0x61 <= b <= 0x66 {
        Some((b - 0x61 + 10) as u8)
    } else if 0x41 <= b <= 0x46 {
        Some((b - 0x41 + 10) as u8)
    } else {
        None
    }
}

/// The number below 256 that two bytes write in base sixteen: two digits, or
/// a plus sign and one digit.
pub open spec fn hex_pair(high: u8, low: u8) -> Option<u8> {
    match hex_value(low) {
        Some(l) => if high == 0x2b {
            Some(l)
        } else {
            match hex_value(high) {
                Some(h) => Some((h * 16 + l) as u8),
                None => None,
            }
        },
        None => None,
    }
}

/// The red, green and blue that the bytes of `#rrggbb` write.
pub open spec fn rgb_of(bytes: Seq<u8>) -> Option<(u8, u8, u8)> {
    if bytes.len() == 7 && bytes[0] == 0x23 {
        match (
            hex_pair(bytes[1], bytes[2]),
            hex_pair(bytes[3], bytes[4]),
            hex_pair(bytes[5], bytes[6]),
        ) {
            (Some(r), Some(g), Some(b)) => Some((r, g, b)),
            _ => None,
        }
    } else {
        None
    }
}

fn hex_digit(b: u8) -> (r: Option<u8>)
    ensures
        r == hex_value(b),
{
    if 0x30 <= b && b <= 0x39 {
        Some(b - 0x30)
    } else if 0x61 <= b && b <= 0x66 {
        Some(b - 0x61 + 10)
    } else if 0x41 <= b && b <= 0x46 {
        Some(b - 0x41 + 10)
    } else {
        None
    }
}

fn hex_byte(high: u8, low: u8) -> (r: Option<u8>)
    ensures
        r == hex_pair(high, low),
{
    match hex_digit(low) {
        Some(l) => {
            if high == 0x2b {
                Some(l)
            } else {
                match hex_digit(high) {
                    Some(h) => Some(h * 16 + l),
                    None => None,
                }
            }
        },
        None => None,
    }
}

/// The red, green and blue of a colour written as `#rrggbb`: `hex` is seven
/// bytes long, begins with `#`, and each of the three pairs behind it is a
/// number in base sixteen.
pub fn color_from_hex(hex: &str) -> (r: Option<(u8, u8, u8)>)
    ensures
        r == rgb_of(hex.spec_bytes()),
{
    let bytes = hex.as_bytes();
    if bytes.len() != 7 || bytes[0] != 0x23 {
        return None;
    }
    match (hex_byte(bytes[1], bytes[2]), hex_byte(bytes[3], bytes[4]), hex_byte(bytes[5], bytes[6])) {
        (Some(r), Some(g), Some(b)) => Some((r, g, b)),
        _ => None,
    }
}

/// The colour written as `hex`, or white where `hex` writes none.
pub open spec fn theme_color(bytes: Seq<u8>) -> Color {
    match rgb_of(bytes) {
        Some((r, g, b)) => Color::Rgb(r, g, b),
        None => Color::Rgb(255, 255, 255),
    }
}

/// One event of a highlighted line.
#[derive(Clone, PartialEq, Eq, Debug)]
pub enum HighlightStep {
    /// A piece of the source.
    Source(String),
    /// From here on the source is a token of the kind named.
    Start(String),
    /// The token has ended.
    End,
}

/// What writes highlighted source code to a terminal, in the colours of a
/// theme.
#[derive(Clone, PartialEq, Eq, Debug)]
pub struct TerminalFormatter {
    pub theme: Theme,
}

/// The operation that one event of a highlighted line comes to: a piece of
/// the source is written, the start of a token switches to the colour that
/// the theme has for its kind, and its end switches back.
pub open spec fn step_op(theme: ThemeView, step: HighlightStep) -> OpView {
    match step {
        HighlightStep::Source(text) => OpView::Text(text@),
        HighlightStep::Start(name) => OpView::SetStyle(
            Style::fg(theme_color(encode_utf8(style_of(theme, name@).0))),
        ),
        HighlightStep::End => OpView::Reset,
    }
}

/// The operations that the first `k` events of a highlighted line come to.
pub open spec fn steps_ops(theme: ThemeView, steps: Seq<HighlightStep>, k: nat) -> Seq<OpView>
    decreases k,
{
    if k == 0 || k > steps.len() {
        Seq::empty()
    } else {
        steps_ops(theme, steps, (k - 1) as nat).push(step_op(theme, steps[k - 1]))
    }
}

/// What is issued for a line of source code: the events of its highlighting
/// where there are any, else the line as it stands and a line feed.
pub open spec fn code_line_ops(
    theme: ThemeView,
    line: Seq<char>,
    steps: Option<Seq<HighlightStep>>,
) -> Seq<OpView> {
    match steps {
        Some(s) => steps_ops(theme, s, s.len()),
        None => seq![OpView::Text(line + "\n"@)],
    }
}

impl TerminalFormatter {
    /// A formatter that writes in the colours of `theme`.
    pub fn new(theme: Theme) -> (formatter: TerminalFormatter)
        ensures
            formatter.theme == theme,
    {
        TerminalFormatter { theme }
    }

    /// The colour written as `hex`, or white where `hex` writes none.
    pub fn color_from_hex(&self, hex: &str) -> (c: Color)
        ensures
            c == theme_color(hex.spec_bytes()),
    {
        match color_from_hex(hex) {
            Some((r, g, b)) => Color::Rgb(r, g, b),
            None => Color::Rgb(255, 255, 255),
        }
    }

    /// Writes one event of a highlighted line.
    pub fn write(&self, step: &HighlightStep, out: &mut Output)
        ensures
            final(out)@ == old(out)@.push(step_op(self.theme@, *step)),
    {
        match step {
            HighlightStep::Source(text) => {
                out.text(text.as_str());
            },
            HighlightStep::Start(name) => {
                let style = self.theme.get_style(name.as_str());
                out.style(Style::with_fg(self.color_from_hex(style.primary_color.as_str())));
            },
            HighlightStep::End => {
                out.reset();
            },
        }
    }
}

/// Writes a line of source code: highlighted as `highlighted` says where the
/// highlighter gave a result, else as plain text followed by a line feed.
pub fn highlight_code(
    line: &str,
    highlighted: Option<Vec<HighlightStep>>,
    formatter: &TerminalFormatter,
    out: &mut Output,
)
    ensures
        final(out)@ == old(out)@ + code_line_ops(
            formatter.theme@,
            line@,
            match highlighted {
                Some(steps) => Some(steps@),
                None => None,
            },
        ),
{
    match highlighted {
        Some(steps) => {
            let mut i: usize = 0;
            while i < steps.len()
                invariant
                    i <= steps.len(),
                    out@ == old(out)@ + steps_ops(formatter.theme@, steps@, i as nat),
                decreases steps.len() - i,
            {
                formatter.write(&steps[i], out);
                i = i + 1;
            }
        },
        None => {
            let mut text: Vec<char> = Vec::new();
            push_str(&mut text, line);
            push_str(&mut text, "\n");
            out.text_chars(&text);
        },
    }
}

} // verus!
