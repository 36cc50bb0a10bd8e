//! The listing of a directory: its name, then its entries as the branches of
//! a tree, directories first and each group in the order of its names.
use vstd::prelude::*;
use vstd::seq_lib::{to_multiset_build, to_multiset_insert};

use crate::output::{Color, OpView, Output, Style};
use crate::text::{chars_of, push_str};

verus! {

/// An entry of a directory: its name, whether it is a directory itself, and
/// the icon that stands for its kind of file.
#[derive(Clone, PartialEq, Eq, Debug)]
pub struct DirEntry {
    pub name: String,
    pub is_dir: bool,
    pub icon: String,
}

/// `DirEntry` as plain values.
pub struct DirEntryView {
    pub name: Seq<char>,
    pub is_dir: bool,
    pub icon: Seq<char>,
}

impl View for DirEntry {
    type V = DirEntryView;

    open spec fn view(&self) -> DirEntryView {
        DirEntryView { name: self.name@, is_dir: self.is_dir, icon: self.icon@ }
    }
}

/// The views of the entries of `entries`.
pub open spec fn entries_view(entries: Seq<DirEntry>) -> Seq<DirEntryView> {
    Seq::new(entries.len(), |i: int| entries[i]@)
}

/// Whether `a` comes before `b` in the order of the dictionary, or is equal
/// to it; characters are ordered by their code points.
pub open spec fn lex_le(a: Seq<char>, b: Seq<char>) -> bool
    decreases a.len(),
{
    if a.len() == 0 {
        true
    } else if b.len() == 0 {
        false
    } else if a[0] != b[0] {
        a[0] < b[0]
    } else {
        lex_le(a.drop_first(), b.drop_first())
    }
}

/// Whether `a` is listed before `b`, or may stand in its place: a directory
/// before a file, and of two alike the one whose name comes first.
pub open spec fn entry_le(a: DirEntryView, b: DirEntryView) -> bool {
    if a.is_dir != b.is_dir {
        a.is_dir
    } else {
        lex_le(a.name, b.name)
    }
}

/// Whether `entries` is in the order of the listing.
pub open spec fn sorted(entries: Seq<DirEntryView>) -> bool {
    forall|i: int, j: int|
        0 <= i < j < entries.len() ==> entry_le(#[trigger] entries[i], #[trigger] entries[j])
}

/// Of two names one comes before the other, or they are equal.
pub proof fn lemma_lex_total(a: Seq<char>, b: Seq<char>)
    ensures
        lex_le(a, b) || lex_le(b, a),
    decreases a.len(),
{
    if a.len() > 0 && b.len() > 0 && a[0] == b[0] {
        lemma_lex_total(a.drop_first(), b.drop_first());
    }
}

/// What comes before a name comes before everything that this name comes
/// before.
pub proof fn lemma_lex_transitive(a: Seq<char>, b: Seq<char>, c: Seq<char>)
    requires
        lex_le(a, b),
        lex_le(b, c),
    ensures
        lex_le(a, c),
    decreases a.len(),
{
    if a.len() > 0 && b.len() > 0 && c.len() > 0 {
        if a[0] == b[0] && b[0] == c[0] {
            lemma_lex_transitive(a.drop_first(), b.drop_first(), c.drop_first());
        }
    }
}

/// Of two entries one is listed before the other, or either may stand in
/// the place of the other.
pub proof fn lemma_entry_total(a: DirEntryView, b: DirEntryView)
    ensures
        entry_le(a, b) || entry_le(b, a),
{
    lemma_lex_total(a.name, b.name);
}

/// The order of the listing is transitive.
pub proof fn lemma_entry_transitive(a: DirEntryView, b: DirEntryView, c: DirEntryView)
    requires
        entry_le(a, b),
        entry_le(b, c),
    ensures
        entry_le(a, c),
{
    if a.is_dir == b.is_dir && b.is_dir == c.is_dir {
        lemma_lex_transitive(a.name, b.name, c.name);
    }
}

/// Whether `a` comes before `b` in the order of the dictionary, or is equal
/// to it.
pub fn chars_le(a: &Vec<char>, b: &Vec<char>) -> (r: bool)
    ensures
        r == lex_le(a@, b@),
{
    let mut i: usize = 0;
    proof {
        assert(a@.skip(0) =~= a@);
        assert(b@.skip(0) =~= b@);
    }
    while i < a.len() && i < b.len()
        invariant
            i <= a.len(),
            i <= b.len(),
            lex_le(a@, b@) == lex_le(a@.skip(i as int), b@.skip(i as int)),
        decreases a.len() - i,
    {
        proof {
            assert(a@.skip(i as int)[0] == a@[i as int]);
            assert(b@.skip(i as int)[0] == b@[i as int]);
            assert(a@.skip(i as int).drop_first() =~= a@.skip(i + 1));
            assert(b@.skip(i as int).drop_first() =~= b@.skip(i + 1));
        }
        if a[i] != b[i] {
            return a[i] < b[i];
        }
        i = i + 1;
    }
    i == a.len()
}

/// Whether `a` is listed before `b`, or may stand in its place.
pub fn entry_before(a: &DirEntry, b: &DirEntry) -> (r: bool)
    ensures
        r == entry_le(a@, b@),
{
    if a.is_dir != b.is_dir {
        a.is_dir
    } else {
        chars_le(&chars_of(a.name.as_str()), &chars_of(b.name.as_str()))
    }
}

/// Number of entries at the start of `listed` that are listed before
/// `entry` or may stand in its place.
pub open spec fn place_of(listed: Seq<DirEntryView>, entry: DirEntryView) -> nat
    decreases listed.len(),
{
    if listed.len() > 0 && entry_le(listed[0], entry) {
        1 + place_of(listed.drop_first(), entry)
    } else {
        0
    }
}

/// The first `k` entries of `entries` in the order of the listing: each entry
/// in turn is put behind the entries that came before it and are listed
/// before it or may stand in its place.
pub open spec fn listing_of(entries: Seq<DirEntryView>, k: nat) -> Seq<DirEntryView>
    decreases k,
{
    if k == 0 || k > entries.len() {
        Seq::empty()
    } else {
        let before = listing_of(entries, (k - 1) as nat);
        before.insert(place_of(before, entries[k - 1]) as int, entries[k - 1])
    }
}

/// The entries in the order of the listing: directories first, and
/// directories and files each in the order of their names; an entry stands
/// behind those that came before it and may stand in its place. The result
/// holds the same entries as `entries`, each as often.
pub fn sort_entries(entries: &Vec<DirEntry>) -> (result: Vec<DirEntry>)
    ensures
        entries_view(result@) == listing_of(entries_view(entries@), entries@.len()),
        sorted(entries_view(result@)),
        entries_view(result@).to_multiset() == entries_view(entries@).to_multiset(),
        result@.len() == entries@.len(),
{
    let mut result: Vec<DirEntry> = Vec::new();
    let ghost all = entries_view(entries@);
    let mut i: usize = 0;
    proof {
        assert(entries_view(result@) =~= Seq::<DirEntryView>::empty());
        assert(all.take(0) =~= Seq::<DirEntryView>::empty());
    }
    while i < entries.len()
        invariant
            i <= entries.len(),
            all == entries_view(entries@),
            result@.len() == i,
            entries_view(result@) == listing_of(all, i as nat),
            sorted(entries_view(result@)),
            entries_view(result@).to_multiset() == all.take(i as int).to_multiset(),
        decreases entries.len() - i,
    {
        let entry = DirEntry {
            name: entries[i].name.clone(),
            is_dir: entries[i].is_dir,
            icon: entries[i].icon.clone(),
        };
        assert(entry@ == all[i as int]);
        let ghost before = entries_view(result@);
        let mut pos: usize = 0;
        proof {
            assert(before.skip(0) =~= before);
        }
        while pos < result.len() && entry_before(&result[pos], &entry)
            invariant
                pos <= result.len(),
                before == entries_view(result@),
                forall|k: int| 0 <= k < pos ==> entry_le(#[trigger] before[k], entry@),
                place_of(before, entry@) == pos + place_of(before.skip(pos as int), entry@),
            decreases result.len() - pos,
        {
            proof {
                assert(before.skip(pos as int)[0] == before[pos as int]);
                assert(before.skip(pos as int).drop_first() =~= before.skip(pos + 1));
            }
            pos = pos + 1;
        }
        proof {
            if pos < result.len() {
                assert(before.skip(pos as int)[0] == before[pos as int]);
            }
            assert(place_of(before, entry@) == pos);
        }
        result.insert(pos, entry);
        proof {
            let after = entries_view(result@);
            before.insert_ensures(pos as int, entry@);
            assert(after =~= before.insert(pos as int, entry@));
            to_multiset_insert(before, pos as int, entry@);
            to_multiset_build(all.take(i as int), entry@);
            assert(all.take(i + 1) =~= all.take(i as int).push(entry@));
            assert forall|x: int, y: int| 0 <= x < y < after.len() implies entry_le(
                #[trigger] after[x],
                #[trigger] after[y],
            ) by {
                if y == pos {
                    assert(after[x] == before[x]);
                } else if x == pos {
                    assert(after[y] == before[y - 1]);
                    lemma_entry_total(before[pos as int], entry@);
                    if y - 1 > pos {
                        lemma_entry_transitive(entry@, before[pos as int], before[y - 1]);
                    }
                } else if y < pos {
                    assert(after[x] == before[x] && after[y] == before[y]);
                } else if x < pos {
                    assert(after[x] == before[x] && after[y] == before[y - 1]);
                } else {
                    assert(after[x] == before[x - 1] && after[y] == before[y - 1]);
                }
            }
        }
        i = i + 1;
    }
    proof {
        assert(all.take(entries.len() as int) =~= all);
    }
    result
}

/// The line that names the directory listed.
pub open spec fn root_ops(path: Seq<char>) -> Seq<OpView> {
    seq![
        OpView::SetStyle(Style::fg_bold(Color::Blue)),
        OpView::Text("\u{f115}  "@ + path + "\n"@),
        OpView::Reset,
    ]
}

/// The line of entry `i` of the listing: its branch, the last entry closing
/// the tree, then its icon and its name.
pub open spec fn entry_ops(entries: Seq<DirEntryView>, i: int) -> Seq<OpView> {
    let entry = entries[i];
    seq![
        OpView::Text(
            if i == entries.len() - 1 {
                "\u{2514}\u{2500}\u{2500} "@
            } else {
                "\u{251c}\u{2500}\u{2500} "@
            },
        ),
    ] + if entry.is_dir {
        seq![
            OpView::SetStyle(Style::fg_bold(Color::Blue)),
            OpView::Text("\u{f115}  "@ + entry.name + "\n"@),
            OpView::Reset,
        ]
    } else {
        seq![
            OpView::SetStyle(Style::fg(Color::White)),
            OpView::Text(entry.icon + "  "@ + entry.name + "\n"@),
            OpView::Reset,
        ]
    }
}

/// The lines of the first `k` entries of the listing.
pub open spec fn entries_ops(entries: Seq<DirEntryView>, k: nat) -> Seq<OpView>
    decreases k,
{
    if k == 0 {
        Seq::empty()
    } else {
        entries_ops(entries, (k - 1) as nat) + entry_ops(entries, k - 1)
    }
}

/// Writes the line that names the directory listed.
pub fn print_root_directory(dir: &str, out: &mut Output)
    ensures
        final(out)@ == old(out)@ + root_ops(dir@),
{
    out.style(Style::with_fg_bold(Color::Blue));
    let mut line: Vec<char> = Vec::new();
    push_str(&mut line, "\u{f115}  ");
    push_str(&mut line, dir);
    push_str(&mut line, "\n");
    out.text_chars(&line);
    out.reset();
}

/// Writes the entries of a directory as the branches of a tree, in the order
/// of the listing.
pub fn print_directory_contents(entries: &Vec<DirEntry>, out: &mut Output) -> (listed: Vec<DirEntry>)
    ensures
        entries_view(listed@) == listing_of(entries_view(entries@), entries@.len()),
        sorted(entries_view(listed@)),
        entries_view(listed@).to_multiset() == entries_view(entries@).to_multiset(),
        final(out)@ == old(out)@ + entries_ops(entries_view(listed@), listed@.len()),
{
    let listed = sort_entries(entries);
    let mut i: usize = 0;
    while i < listed.len()
        invariant
            i <= listed.len(),
            out@ == old(out)@ + entries_ops(entries_view(listed@), i as nat),
        decreases listed.len() - i,
    {
        if i == listed.len() - 1 {
            out.text("\u{2514}\u{2500}\u{2500} ");
        } else {
            out.text("\u{251c}\u{2500}\u{2500} ");
        }
        let mut line: Vec<char> = Vec::new();
        if listed[i].is_dir {
            out.style(Style::with_fg_bold(Color::Blue));
            push_str(&mut line, "\u{f115}  ");
        } else {
            out.style(Style::with_fg(Color::White));
            push_str(&mut line, listed[i].icon.as_str());
            push_str(&mut line, "  ");
        }
        push_str(&mut line, listed[i].name.as_str());
        push_str(&mut line, "\n");
        out.text_chars(&line);
        out.reset();
        i = i + 1;
    }
    listed
}

/// Lists a directory: its name, then its entries, directories first and each
/// group in the order of its names. Hands back the entries in the order in
/// which they were listed.
pub fn handle_directory(path: &str, entries: &Vec<DirEntry>, out: &mut Output) -> (listed: Vec<
    DirEntry,
>)
    ensures
        entries_view(listed@) == listing_of(entries_view(entries@), entries@.len()),
        sorted(entries_view(listed@)),
        entries_view(listed@).to_multiset() == entries_view(entries@).to_multiset(),
        final(out)@ == old(out)@ + root_ops(path@) + entries_ops(
            entries_view(listed@),
            listed@.len(),
        ),
{
    print_root_directory(path, out);
    print_directory_contents(entries, out)
}

} // verus!
