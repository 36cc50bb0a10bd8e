//! A diff shown side by side: what was removed on the left, what was added
//! on the right, unchanged lines on both sides, each line behind its number.
use vstd::prelude::*;

use crate::context::{bump, bump_exec};
use crate::output::{Color, OpView, Output, RenderOp, Style};
use crate::text::{
    chars_of, decimal, fill, find, find_char, find_from, indent, indent_chars, lines, texts_view,
    pad_left, parse_decimal, parsed_usize, push_chars, push_decimal, push_fill, push_padded_left,
    push_str, slice_chars, split_lines, starts_with, string_of,
};

verus! {

/// Width of one side of the display, in columns.
pub const HALF_WIDTH: usize = 58;

/// Width of the content of a line, in columns.
pub const CONTENT_WIDTH: usize = 53;

/// A line of one side, with its number.
pub struct NumberedLine {
    pub number: usize,
    pub content: Vec<char>,
}

impl View for NumberedLine {
    type V = (usize, Seq<char>);

    open spec fn view(&self) -> (usize, Seq<char>) {
        (self.number, self.content@)
    }
}

/// The views of the lines of `side`.
pub open spec fn side_view(side: Seq<NumberedLine>) -> Seq<(usize, Seq<char>)> {
    Seq::new(side.len(), |i: int| side[i]@)
}

/// The two sides of a block of a diff, and the numbers that the next lines
/// would get.
#[verifier::ext_equal]
pub struct Sides {
    pub old: Seq<(usize, Seq<char>)>,
    pub new: Seq<(usize, Seq<char>)>,
    pub old_next: usize,
    pub new_next: usize,
}

/// The two sides that the first `k` lines of `block` make: a line that
/// begins with `-` stands on the left, one that begins with `+` on the right,
/// any other on both; each side numbers its lines from its start.
pub open spec fn sides_of(block: Seq<Seq<char>>, k: nat, old_start: usize, new_start: usize) -> Sides
    decreases k,
{
    if k == 0 || k > block.len() {
        Sides { old: Seq::empty(), new: Seq::empty(), old_next: old_start, new_next: new_start }
    } else {
        let before = sides_of(block, (k - 1) as nat, old_start, new_start);
        let line = block[k - 1];
        let content = if line.len() > 0 {
            line.skip(1)
        } else {
            line
        };
        if line.len() > 0 && line[0] == '-' {
            Sides {
                old: before.old.push((before.old_next, content)),
                old_next: bump(before.old_next),
                ..before
            }
        } else if line.len() > 0 && line[0] == '+' {
            Sides {
                new: before.new.push((before.new_next, content)),
                new_next: bump(before.new_next),
                ..before
            }
        } else {
            Sides {
                old: before.old.push((before.old_next, content)),
                new: before.new.push((before.new_next, content)),
                old_next: bump(before.old_next),
                new_next: bump(before.new_next),
            }
        }
    }
}

/// Number of columns that `c` takes: four for a tab, one for anything else.
pub open spec fn columns_of(c: char) -> nat {
    if c == '\t' {
        4
    } else {
        1
    }
}

/// What is shown of `content` from position `from` on when `used` columns
/// are taken already: its characters as long as fewer than `limit` columns
/// are taken, then an ellipsis in place of what is left. With it, the number
/// of columns taken in the end.
pub open spec fn clipped(content: Seq<char>, from: int, used: nat, limit: nat) -> (Seq<char>, nat)
    decreases content.len() - from,
{
    if from < 0 || from >= content.len() {
        (Seq::empty(), used)
    } else if used >= limit {
        (seq!['\u{2026}'], used)
    } else {
        let rest = clipped(content, from + 1, used + columns_of(content[from]), limit);
        (seq![content[from]] + rest.0, rest.1)
    }
}

/// The colour behind a line: dark red behind what was removed, dark green
/// behind what was added.
pub open spec fn side_background(added: bool) -> Color {
    if added {
        Color::Rgb(0, 50, 0)
    } else {
        Color::Rgb(50, 0, 0)
    }
}

/// The style of a line number.
pub open spec fn number_style(added: bool) -> Style {
    Style {
        fg: Some(Color::Rgb(128, 128, 128)),
        bg: Some(side_background(added)),
        bold: false,
        italic: false,
        underline: false,
    }
}

/// The style of the content of a line.
pub open spec fn content_style(added: bool) -> Style {
    Style {
        fg: None,
        bg: Some(side_background(added)),
        bold: false,
        italic: false,
        underline: false,
    }
}

/// What is issued for one line of one side: its number, right-aligned in
/// four columns, then its content, highlighted, clipped to the width of the
/// side and filled up to it.
pub open spec fn diff_line_ops(line: (usize, Seq<char>), added: bool, language: Seq<char>) -> Seq<
    OpView,
> {
    let shown = clipped(line.1, 0, 0, CONTENT_WIDTH as nat);
    seq![
        OpView::SetStyle(number_style(added)),
        OpView::Text(pad_left(decimal(line.0 as nat), 4) + " "@),
        OpView::Reset,
        OpView::SetStyle(content_style(added)),
        OpView::Code { line: shown.0, language },
    ] + (if shown.1 < CONTENT_WIDTH {
        seq![OpView::Text(fill(' ', (CONTENT_WIDTH - shown.1) as nat))]
    } else {
        Seq::empty()
    }) + seq![OpView::Reset]
}

/// What stands between the two sides.
pub open spec fn separator_ops() -> Seq<OpView> {
    seq![
        OpView::SetStyle(Style::fg(Color::Rgb(128, 128, 128))),
        OpView::Text(" \u{2502} "@),
        OpView::Reset,
    ]
}

/// What is issued for row `i` of a block: the line of the left side, or
/// spaces where it has none, the separator, the line of the right side if it
/// has one, a line feed.
pub open spec fn diff_row_ops(sides: Sides, i: int, language: Seq<char>) -> Seq<OpView> {
    (if i < sides.old.len() {
        diff_line_ops(sides.old[i], false, language)
    } else {
        seq![OpView::Text(fill(' ', HALF_WIDTH as nat))]
    }) + separator_ops() + (if i < sides.new.len() {
        diff_line_ops(sides.new[i], true, language)
    } else {
        Seq::empty()
    }) + seq![OpView::Text("\n"@)]
}

/// What is issued for the first `k` rows of a block.
pub open spec fn diff_rows_ops(sides: Sides, k: nat, language: Seq<char>) -> Seq<OpView>
    decreases k,
{
    if k == 0 {
        Seq::empty()
    } else {
        diff_rows_ops(sides, (k - 1) as nat, language) + diff_row_ops(sides, k - 1, language)
    }
}

/// Number of rows of a block: as many as its longer side has lines.
pub open spec fn row_count(sides: Sides) -> nat {
    if sides.old.len() >= sides.new.len() {
        sides.old.len()
    } else {
        sides.new.len()
    }
}

/// What is issued for a block of a diff whose sides start at the given line
/// numbers.
pub open spec fn diff_block_ops(
    block: Seq<Seq<char>>,
    language: Seq<char>,
    old_start: usize,
    new_start: usize,
) -> Seq<OpView> {
    let sides = sides_of(block, block.len(), old_start, new_start);
    diff_rows_ops(sides, row_count(sides), language)
}

/// Writes one line of one side of a diff.
pub fn render_diff_line(
    line_num: usize,
    content: &Vec<char>,
    added: bool,
    language: &str,
    out: &mut Output,
)
    ensures
        final(out)@ == old(out)@ + diff_line_ops((line_num, content@), added, language@),
{
    let background = if added {
        Color::Rgb(0, 50, 0)
    } else {
        Color::Rgb(50, 0, 0)
    };
    out.style(
        Style {
            fg: Some(Color::Rgb(128, 128, 128)),
            bg: Some(background),
            bold: false,
            italic: false,
            underline: false,
        },
    );
    let mut digits: Vec<char> = Vec::new();
    push_decimal(&mut digits, line_num);
    let mut number: Vec<char> = Vec::new();
    push_padded_left(&mut number, &digits, 4);
    push_str(&mut number, " ");
    out.text_chars(&number);
    out.reset();
    out.style(Style { fg: None, bg: Some(background), bold: false, italic: false, underline: false });
    let mut shown: Vec<char> = Vec::new();
    let mut used: usize = 0;
    let mut i: usize = 0;
    let ghost whole = clipped(content@, 0, 0, CONTENT_WIDTH as nat);
    let mut done = false;
    while i < content.len() && !done
        invariant
            i <= content.len(),
            used <= CONTENT_WIDTH + 3,
            whole == clipped(content@, 0, 0, CONTENT_WIDTH as nat),
            !done ==> whole.0 == shown@ + clipped(
                content@,
                i as int,
                used as nat,
                CONTENT_WIDTH as nat,
            ).0,
            !done ==> whole.1 == clipped(content@, i as int, used as nat, CONTENT_WIDTH as nat).1,
            done ==> whole.0 == shown@ && whole.1 == used,
        decreases content.len() - i, if done { 0int } else { 1int },
    {
        if used >= CONTENT_WIDTH {
            shown.push('\u{2026}');
            done = true;
        } else {
            let c = content[i];
            let ghost before = shown@;
            shown.push(c);
            used = used + if c == '\t' {
                4
            } else {
                1
            };
            proof {
                let rest = clipped(content@, i + 1, used as nat, CONTENT_WIDTH as nat);
                assert(shown@ + rest.0 =~= before + (seq![c] + rest.0));
            }
            i = i + 1;
        }
    }
    proof {
        if !done {
            assert(shown@ + Seq::<char>::empty() =~= shown@);
        }
    }
    out.push(RenderOp::Code { line: string_of(&shown), language: String::from_str(language) });
    if used < CONTENT_WIDTH {
        let mut rest: Vec<char> = Vec::new();
        push_fill(&mut rest, ' ', CONTENT_WIDTH - used);
        out.text_chars(&rest);
    }
    out.reset();
}

/// Writes a block of a diff, the two sides next to each other.
pub fn render_diff_block(
    block: &Vec<Vec<char>>,
    language: &str,
    old_line_num: usize,
    new_line_num: usize,
    out: &mut Output,
)
    ensures
        final(out)@ == old(out)@ + diff_block_ops(
            texts_view(block@),
            language@,
            old_line_num,
            new_line_num,
        ),
{
    let mut old_lines: Vec<NumberedLine> = Vec::new();
    let mut new_lines: Vec<NumberedLine> = Vec::new();
    let mut old_next = old_line_num;
    let mut new_next = new_line_num;
    let ghost all = texts_view(block@);
    let mut k: usize = 0;
    proof {
        assert(side_view(old_lines@) =~= Seq::empty());
        assert(side_view(new_lines@) =~= Seq::empty());
    }
    while k < block.len()
        invariant
            k <= block.len(),
            all == texts_view(block@),
            (Sides {
                old: side_view(old_lines@),
                new: side_view(new_lines@),
                old_next,
                new_next,
            }) == sides_of(all, k as nat, old_line_num, new_line_num),
        decreases block.len() - k,
    {
        let line = &block[k];
        let ghost old_before = side_view(old_lines@);
        let ghost new_before = side_view(new_lines@);
        let content = if line.len() > 0 {
            slice_chars(line, 1, line.len())
        } else {
            Vec::new()
        };
        proof {
            assert(all[k as int] == line@);
            if line.len() == 0 {
                assert(content@ =~= line@);
            }
        }
        if line.len() > 0 && line[0] == '-' {
            old_lines.push(NumberedLine { number: old_next, content });
            proof {
                assert(side_view(old_lines@) =~= old_before.push((old_next, content@)));
            }
            old_next = bump_exec(old_next);
        } else if line.len() > 0 && line[0] == '+' {
            new_lines.push(NumberedLine { number: new_next, content });
            proof {
                assert(side_view(new_lines@) =~= new_before.push((new_next, content@)));
            }
            new_next = bump_exec(new_next);
        } else {
            let copy = slice_chars(&content, 0, content.len());
            proof {
                assert(copy@ =~= content@);
            }
            old_lines.push(NumberedLine { number: old_next, content });
            new_lines.push(NumberedLine { number: new_next, content: copy });
            proof {
                assert(side_view(old_lines@) =~= old_before.push((old_next, content@)));
                assert(side_view(new_lines@) =~= new_before.push((new_next, content@)));
            }
            old_next = bump_exec(old_next);
            new_next = bump_exec(new_next);
        }
        k = k + 1;
    }
    let ghost sides = sides_of(all, block.len() as nat, old_line_num, new_line_num);
    let rows = if old_lines.len() >= new_lines.len() {
        old_lines.len()
    } else {
        new_lines.len()
    };
    let mut i: usize = 0;
    while i < rows
        invariant
            i <= rows,
            rows == row_count(sides),
            sides.old == side_view(old_lines@),
            sides.new == side_view(new_lines@),
            out@ == old(out)@ + diff_rows_ops(sides, i as nat, language@),
        decreases rows - i,
    {
        if i < old_lines.len() {
            render_diff_line(old_lines[i].number, &old_lines[i].content, false, language, out);
        } else {
            let mut blank: Vec<char> = Vec::new();
            push_fill(&mut blank, ' ', HALF_WIDTH);
            out.text_chars(&blank);
        }
        out.style(Style::with_fg(Color::Rgb(128, 128, 128)));
        out.text(" \u{2502} ");
        out.reset();
        if i < new_lines.len() {
            render_diff_line(new_lines[i].number, &new_lines[i].content, true, language, out);
        }
        out.text("\n");
        i = i + 1;
    }
}

/// The number that a range of a hunk header starts at: what stands behind
/// its sign, up to its first comma, read as a number, or one where that is no
/// number.
pub open spec fn range_start(part: Seq<char>) -> usize {
    let body = if part.len() > 0 {
        part.skip(1)
    } else {
        part
    };
    let first = match find(body, ',') {
        Some(i) => body.take(i),
        None => body,
    };
    match parsed_usize(first) {
        Some(n) => n,
        None => 1,
    }
}

/// The two ranges of a hunk header: what stands between its first space and
/// its second, and between its second and its third or the end. A header with
/// fewer than two spaces has none.
pub open spec fn header_ranges(line: Seq<char>) -> Option<(Seq<char>, Seq<char>)> {
    match find(line, ' ') {
        Some(i) => match find_from(line, ' ', i + 1) {
            Some(j) => Some(
                (
                    line.subrange(i + 1, j),
                    match find_from(line, ' ', j + 1) {
                        Some(k) => line.subrange(j + 1, k),
                        None => line.skip(j + 1),
                    },
                ),
            ),
            None => None,
        },
        None => None,
    }
}

/// The number that a range of a hunk header starts at.
pub fn parse_range_start(part: &Vec<char>) -> (n: usize)
    ensures
        n == range_start(part@),
{
    let body = if part.len() > 0 {
        slice_chars(part, 1, part.len())
    } else {
        Vec::new()
    };
    proof {
        if part.len() == 0 {
            assert(body@ =~= part@);
        }
    }
    let first = match find_char(&body, ',', 0) {
        Some(i) => slice_chars(&body, 0, i),
        None => slice_chars(&body, 0, body.len()),
    };
    proof {
        assert(body@.subrange(0, body@.len() as int) =~= body@);
    }
    match parse_decimal(&first, usize::MAX as u64) {
        Some(n) => n as usize,
        None => 1,
    }
}

/// The two ranges of a hunk header.
pub fn split_header(line: &Vec<char>) -> (r: Option<(Vec<char>, Vec<char>)>)
    ensures
        match r {
            Some((old_range, new_range)) => header_ranges(line@) == Some(
                (old_range@, new_range@),
            ),
            None => header_ranges(line@).is_none(),
        },
{
    match find_char(line, ' ', 0) {
        Some(i) => match find_char(line, ' ', i + 1) {
            Some(j) => {
                let old_range = slice_chars(line, i + 1, j);
                let new_range = match find_char(line, ' ', j + 1) {
                    Some(k) => slice_chars(line, j + 1, k),
                    None => slice_chars(line, j + 1, line.len()),
                };
                Some((old_range, new_range))
            },
            None => None,
        },
        None => None,
    }
}

/// What a diff has come to after some of its lines: what was issued, whether
/// a block is open, the lines of that block, and the numbers that the sides
/// of the block start at.
#[verifier::ext_equal]
pub struct DiffProgress {
    pub ops: Seq<OpView>,
    pub in_block: bool,
    pub block: Seq<Seq<char>>,
    pub old_start: usize,
    pub new_start: usize,
}

/// What is issued when a block that is open is closed.
pub open spec fn flushed(p: DiffProgress, language: Seq<char>) -> Seq<OpView> {
    if p.in_block {
        diff_block_ops(p.block, language, p.old_start, p.new_start)
    } else {
        Seq::empty()
    }
}

/// The lines that are kept for the next block when a line closes the block
/// that is open: none of that block, and those that came when no block was
/// open.
pub open spec fn kept_block(p: DiffProgress) -> Seq<Seq<char>> {
    if p.in_block {
        Seq::empty()
    } else {
        p.block
    }
}

/// Whether a line belongs to a block: it begins with `+`, `-` or a space.
pub open spec fn is_block_line(line: Seq<char>) -> bool {
    line.len() > 0 && (line[0] == '+' || line[0] == '-' || line[0] == ' ')
}

/// What a diff has come to after one more line: a hunk header closes the
/// block that is open, is written out and opens a block at the line numbers
/// that it gives; a line that begins with `+`, `-` or a space is kept for the
/// block, also where none is open yet; any other line closes the block that
/// is open and is written out as it is.
pub open spec fn diff_step(
    p: DiffProgress,
    line: Seq<char>,
    language: Seq<char>,
    indent_level: usize,
) -> DiffProgress {
    if "@@"@.is_prefix_of(line) {
        let ranges = header_ranges(line);
        DiffProgress {
            ops: p.ops + flushed(p, language) + seq![
                OpView::SetStyle(Style::fg_bold(Color::Cyan)),
                OpView::Text(indent(indent_level as nat) + line + "\n"@),
                OpView::Reset,
            ],
            in_block: true,
            block: kept_block(p),
            old_start: match ranges {
                Some((old_range, _)) => range_start(old_range),
                None => p.old_start,
            },
            new_start: match ranges {
                Some((_, new_range)) => range_start(new_range),
                None => p.new_start,
            },
        }
    } else if is_block_line(line) {
        DiffProgress { block: p.block.push(line), ..p }
    } else {
        DiffProgress {
            ops: p.ops + flushed(p, language) + seq![
                OpView::Text(indent(indent_level as nat) + line + "\n"@),
            ],
            in_block: false,
            block: kept_block(p),
            ..p
        }
    }
}

/// What a diff has come to after its first `k` lines.
pub open spec fn diff_progress(
    all: Seq<Seq<char>>,
    k: nat,
    language: Seq<char>,
    indent_level: usize,
) -> DiffProgress
    decreases k,
{
    if k == 0 || k > all.len() {
        DiffProgress {
            ops: Seq::empty(),
            in_block: false,
            block: Seq::empty(),
            old_start: 0,
            new_start: 0,
        }
    } else {
        diff_step(
            diff_progress(all, (k - 1) as nat, language, indent_level),
            all[k - 1],
            language,
            indent_level,
        )
    }
}

/// What is issued for a diff: each of its lines in turn, and at the end the
/// block that is still open.
pub open spec fn styled_diff_ops(diff: Seq<char>, language: Seq<char>, indent_level: usize) -> Seq<
    OpView,
> {
    let end = diff_progress(lines(diff), lines(diff).len(), language, indent_level);
    end.ops + flushed(end, language)
}

/// Writes a diff with its blocks side by side, highlighted for `language`
/// and indented by `indent_level` levels.
pub fn print_styled_diff(diff: &str, language: &str, indent_level: usize, out: &mut Output)
    ensures
        final(out)@ == old(out)@ + styled_diff_ops(diff@, language@, indent_level),
{
    let all = split_lines(&chars_of(diff));
    let marker = chars_of("@@");
    let mut in_diff_block = false;
    let mut diff_block: Vec<Vec<char>> = Vec::new();
    let mut old_line_num: usize = 0;
    let mut new_line_num: usize = 0;
    let mut i: usize = 0;
    proof {
        assert(texts_view(diff_block@) =~= Seq::empty());
    }
    while i < all.len()
        invariant
            i <= all.len(),
            texts_view(all@) == lines(diff@),
            marker@ == "@@"@,
            (DiffProgress {
                ops: out@.skip(old(out)@.len() as int),
                in_block: in_diff_block,
                block: texts_view(diff_block@),
                old_start: old_line_num,
                new_start: new_line_num,
            }) == diff_progress(texts_view(all@), i as nat, language@, indent_level),
            out@.len() >= old(out)@.len(),
            out@.take(old(out)@.len() as int) == old(out)@,
        decreases all.len() - i,
    {
        let line = &all[i];
        let ghost before = DiffProgress {
            ops: out@.skip(old(out)@.len() as int),
            in_block: in_diff_block,
            block: texts_view(diff_block@),
            old_start: old_line_num,
            new_start: new_line_num,
        };
        let ghost out_before = out@;
        let ghost block_before = texts_view(diff_block@);
        proof {
            assert(texts_view(all@)[i as int] == line@);
        }
        if starts_with(line, &marker) {
            if in_diff_block {
                render_diff_block(&diff_block, language, old_line_num, new_line_num, out);
                diff_block = Vec::new();
            }
            out.style(Style::with_fg_bold(Color::Cyan));
            let mut text = indent_chars(indent_level);
            push_chars(&mut text, line);
            push_str(&mut text, "\n");
            out.text_chars(&text);
            out.reset();
            in_diff_block = true;
            match split_header(line) {
                Some((old_range, new_range)) => {
                    old_line_num = parse_range_start(&old_range);
                    new_line_num = parse_range_start(&new_range);
                },
                None => {},
            }
            proof {
                assert(texts_view(diff_block@) =~= kept_block(before));
                let after = diff_step(before, line@, language@, indent_level);
                assert(out@ =~= out_before + flushed(before, language@) + seq![
                    OpView::SetStyle(Style::fg_bold(Color::Cyan)),
                    OpView::Text(indent(indent_level as nat) + line@ + "\n"@),
                    OpView::Reset,
                ]);
                assert(out@.skip(old(out)@.len() as int) =~= after.ops);
                assert(out@.take(old(out)@.len() as int) =~= old(out)@);
            }
        } else if line.len() > 0 && (line[0] == '+' || line[0] == '-' || line[0] == ' ') {
            diff_block.push(slice_chars(line, 0, line.len()));
            proof {
                assert(line@.subrange(0, line@.len() as int) =~= line@);
                assert(texts_view(diff_block@) =~= block_before.push(line@));
            }
        } else {
            if in_diff_block {
                render_diff_block(&diff_block, language, old_line_num, new_line_num, out);
                diff_block = Vec::new();
                in_diff_block = false;
            }
            let mut text = indent_chars(indent_level);
            push_chars(&mut text, line);
            push_str(&mut text, "\n");
            out.text_chars(&text);
            proof {
                assert(texts_view(diff_block@) =~= kept_block(before));
                let after = diff_step(before, line@, language@, indent_level);
                assert(out@ =~= out_before + flushed(before, language@) + seq![
                    OpView::Text(indent(indent_level as nat) + line@ + "\n"@),
                ]);
                assert(out@.skip(old(out)@.len() as int) =~= after.ops);
                assert(out@.take(old(out)@.len() as int) =~= old(out)@);
            }
        }
        i = i + 1;
    }
    let ghost end = diff_progress(lines(diff@), lines(diff@).len(), language@, indent_level);
    let ghost out_before = out@;
    if in_diff_block {
        render_diff_block(&diff_block, language, old_line_num, new_line_num, out);
    }
    proof {
        assert(out_before =~= old(out)@ + end.ops);
    }
}

/// Why a diff cannot be shown: the command that was to make it failed, with
/// this report.
#[derive(Clone, PartialEq, Eq, Debug)]
pub struct GitError {
    pub message: String,
}

/// Shows the diff that a run of `git diff` made, where it succeeded; where
/// it failed, nothing is written and its report is handed back as the error.
pub fn show_git_diff(
    succeeded: bool,
    diff: &str,
    report: &str,
    language: &str,
    indent_level: usize,
    out: &mut Output,
) -> (r: Result<(), GitError>)
    ensures
        succeeded ==> r.is_ok() && final(out)@ == old(out)@ + styled_diff_ops(
            diff@,
            language@,
            indent_level,
        ),
        !succeeded ==> final(out)@ == old(out)@ && (r matches Err(e) && e.message@ == report@),
{
    if !succeeded {
        return Err(GitError { message: String::from_str(report) });
    }
    print_styled_diff(diff, language, indent_level, out);
    Ok(())
}

} // verus!
