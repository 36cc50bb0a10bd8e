//! Character-level building blocks shared by the renderer: whitespace
//! handling, splitting and joining, padding and decimal formatting.
//!
//! Every function works on sequences of `char` so that the contracts can be
//! stated over `Seq<char>`, the view of `str` and `String`.
use vstd::prelude::*;

verus! {

/// The characters of `s`, in order.
pub fn chars_of(s: &str) -> (v: Vec<char>)
    ensures
        v@ == s@,
{
    let mut v: Vec<char> = Vec::new();
    for c in it: s.chars()
        invariant
            v@ == it.seq().take(it.index() as int),
            it.seq() == s@,
    {
        v.push(c);
    }
    v
}

/// Collects characters into a `String` with `String::from_iter`. The
/// contract claims that the string holds exactly the given characters, in the
/// given order.
#[verifier::external_body]
pub(crate) fn string_of(chars: &Vec<char>) -> (s: String)
    ensures
        s@ == chars@,
{
    String::from_iter(chars.iter())
}

/// Appends the characters of `s` to `v`.
pub fn push_str(v: &mut Vec<char>, s: &str)
    ensures
        final(v)@ == old(v)@ + s@,
{
    for c in it: s.chars()
        invariant
            v@ == old(v)@ + it.seq().take(it.index() as int),
            it.seq() == s@,
    {
        v.push(c);
    }
}

/// Appends the characters of `s` to `v`.
pub fn push_chars(v: &mut Vec<char>, s: &Vec<char>)
    ensures
        final(v)@ == old(v)@ + s@,
{
    let mut i: usize = 0;
    while i < s.len()
        invariant
            i <= s.len(),
            v@ == old(v)@ + s@.take(i as int),
        decreases s.len() - i,
    {
        v.push(s[i]);
        i = i + 1;
    }
}

/// `n` copies of `c`.
pub open spec fn fill(c: char, n: nat) -> Seq<char> {
    Seq::new(n, |i: int| c)
}

/// Appends `n` copies of `c` to `v`.
pub fn push_fill(v: &mut Vec<char>, c: char, n: usize)
    ensures
        final(v)@ == old(v)@ + fill(c, n as nat),
{
    let mut i: usize = 0;
    while i < n
        invariant
            i <= n,
            v@ == old(v)@ + fill(c, i as nat),
        decreases n - i,
    {
        v.push(c);
        i = i + 1;
    }
}

/// The indentation that `level` nested levels produce: two spaces for each.
pub open spec fn indent(level: nat) -> Seq<char> {
    fill(' ', 2 * level)
}

/// Builds `indent(level)`.
pub fn indent_chars(level: usize) -> (v: Vec<char>)
    ensures
        v@ == indent(level as nat),
{
    let mut v: Vec<char> = Vec::new();
    let mut i: usize = 0;
    while i < level
        invariant
            i <= level,
            v@ == indent(i as nat),
        decreases level - i,
    {
        v.push(' ');
        v.push(' ');
        i = i + 1;
    }
    v
}

/// Whether `c` has the Unicode `White_Space` property.
pub open spec fn is_whitespace(c: char) -> bool {
    ||| ('\u{9}' <= c && c <= '\u{d}')
    ||| c == ' '
    ||| c == '\u{85}'
    ||| c == '\u{a0}'
    ||| c == '\u{1680}'
    ||| ('\u{2000}' <= c && c <= '\u{200a}')
    ||| c == '\u{2028}'
    ||| c == '\u{2029}'
    ||| c == '\u{202f}'
    ||| c == '\u{205f}'
    ||| c == '\u{3000}'
}

/// Whether `c` has the Unicode `White_Space` property.
pub fn char_is_whitespace(c: char) -> (b: bool)
    ensures
        b == is_whitespace(c),
{
    ('\u{9}' <= c && c <= '\u{d}') || c == ' ' || c == '\u{85}' || c == '\u{a0}' || c
        == '\u{1680}' || ('\u{2000}' <= c && c <= '\u{200a}') || c == '\u{2028}' || c
        == '\u{2029}' || c == '\u{202f}' || c == '\u{205f}' || c == '\u{3000}'
}

/// Number of whitespace characters at the start of `s`.
pub open spec fn leading_spaces(s: Seq<char>) -> nat
    decreases s.len(),
{
    if s.len() > 0 && is_whitespace(s[0]) {
        1 + leading_spaces(s.drop_first())
    } else {
        0
    }
}

/// Number of non-whitespace characters at the start of `s`.
pub open spec fn leading_word(s: Seq<char>) -> nat
    decreases s.len(),
{
    if s.len() > 0 && !is_whitespace(s[0]) {
        1 + leading_word(s.drop_first())
    } else {
        0
    }
}

/// Number of whitespace characters at the end of `s`.
pub open spec fn trailing_spaces(s: Seq<char>) -> nat
    decreases s.len(),
{
    if s.len() > 0 && is_whitespace(s.last()) {
        1 + trailing_spaces(s.drop_last())
    } else {
        0
    }
}

/// The leading run of whitespace lies within `s`, holds whitespace only,
/// and ends where `s` ends or at a character that is no whitespace.
pub proof fn lemma_leading_spaces_bound(s: Seq<char>)
    ensures
        leading_spaces(s) <= s.len(),
        forall|i: int| 0 <= i < leading_spaces(s) ==> is_whitespace(#[trigger] s[i]),
        leading_spaces(s) < s.len() ==> !is_whitespace(s[leading_spaces(s) as int]),
    decreases s.len(),
{
    if s.len() > 0 && is_whitespace(s[0]) {
        let t = s.drop_first();
        lemma_leading_spaces_bound(t);
        assert forall|i: int| 0 <= i < leading_spaces(s) implies is_whitespace(#[trigger] s[i]) by {
            if i > 0 {
                assert(s[i] == t[i - 1]);
            }
        }
        if leading_spaces(s) < s.len() {
            assert(s[leading_spaces(s) as int] == t[leading_spaces(t) as int]);
        }
    }
}

/// The leading word lies within `s`, holds no whitespace, and ends where
/// `s` ends or at whitespace.
pub proof fn lemma_leading_word_bound(s: Seq<char>)
    ensures
        leading_word(s) <= s.len(),
        forall|i: int| 0 <= i < leading_word(s) ==> !is_whitespace(#[trigger] s[i]),
        leading_word(s) < s.len() ==> is_whitespace(s[leading_word(s) as int]),
    decreases s.len(),
{
    if s.len() > 0 && !is_whitespace(s[0]) {
        let t = s.drop_first();
        lemma_leading_word_bound(t);
        assert forall|i: int| 0 <= i < leading_word(s) implies !is_whitespace(#[trigger] s[i]) by {
            if i > 0 {
                assert(s[i] == t[i - 1]);
            }
        }
        if leading_word(s) < s.len() {
            assert(s[leading_word(s) as int] == t[leading_word(t) as int]);
        }
    }
}

/// A prefix of whitespace followed by a non-whitespace character (or by the
/// end) is the whole leading run.
pub proof fn lemma_leading_spaces_is(s: Seq<char>, n: nat)
    requires
        n <= s.len(),
        forall|i: int| 0 <= i < n ==> is_whitespace(#[trigger] s[i]),
        n < s.len() ==> !is_whitespace(s[n as int]),
    ensures
        leading_spaces(s) == n,
    decreases n,
{
    if n > 0 {
        let t = s.drop_first();
        assert forall|i: int| 0 <= i < n - 1 implies is_whitespace(#[trigger] t[i]) by {
            assert(t[i] == s[i + 1]);
        }
        lemma_leading_spaces_is(t, (n - 1) as nat);
    }
}

/// A prefix without whitespace that is followed by whitespace (or by the
/// end) is the whole leading word.
pub proof fn lemma_leading_word_is(s: Seq<char>, n: nat)
    requires
        n <= s.len(),
        forall|i: int| 0 <= i < n ==> !is_whitespace(#[trigger] s[i]),
        n < s.len() ==> is_whitespace(s[n as int]),
    ensures
        leading_word(s) == n,
    decreases n,
{
    if n > 0 {
        let t = s.drop_first();
        assert forall|i: int| 0 <= i < n - 1 implies !is_whitespace(#[trigger] t[i]) by {
            assert(t[i] == s[i + 1]);
        }
        lemma_leading_word_is(t, (n - 1) as nat);
    }
}

/// A suffix of whitespace behind a character that is no whitespace (or
/// behind nothing) is the whole trailing run.
pub proof fn lemma_trailing_spaces_is(s: Seq<char>, n: nat)
    requires
        n <= s.len(),
        forall|i: int| s.len() - n <= i < s.len() ==> is_whitespace(#[trigger] s[i]),
        n < s.len() ==> !is_whitespace(s[s.len() - n - 1]),
    ensures
        trailing_spaces(s) == n,
    decreases n,
{
    if n > 0 {
        let t = s.drop_last();
        assert forall|i: int| t.len() - (n - 1) <= i < t.len() implies is_whitespace(
            #[trigger] t[i],
        ) by {
            assert(t[i] == s[i]);
        }
        lemma_trailing_spaces_is(t, (n - 1) as nat);
    }
}

/// `s` without the whitespace at its two ends.
pub open spec fn trim(s: Seq<char>) -> Seq<char> {
    let t = s.skip(leading_spaces(s) as int);
    t.take(t.len() - trailing_spaces(t))
}

/// Position of the first character at or after `from` that is not
/// whitespace, or the length when there is none.
pub fn skip_whitespace(s: &Vec<char>, from: usize) -> (i: usize)
    requires
        from <= s.len(),
    ensures
        i == from + leading_spaces(s@.skip(from as int)),
        i <= s.len(),
{
    let mut i = from;
    while i < s.len() && char_is_whitespace(s[i])
        invariant
            from <= i <= s.len(),
            forall|k: int| from <= k < i ==> is_whitespace(#[trigger] s@[k]),
        decreases s.len() - i,
    {
        i = i + 1;
    }
    proof {
        let t = s@.skip(from as int);
        assert forall|k: int| 0 <= k < i - from implies is_whitespace(#[trigger] t[k]) by {
            assert(t[k] == s@[from + k]);
        }
        lemma_leading_spaces_is(t, (i - from) as nat);
    }
    i
}

/// Position of the first whitespace character at or after `from`, or the
/// length when there is none.
pub fn skip_word(s: &Vec<char>, from: usize) -> (i: usize)
    requires
        from <= s.len(),
    ensures
        i == from + leading_word(s@.skip(from as int)),
        i <= s.len(),
{
    let mut i = from;
    while i < s.len() && !char_is_whitespace(s[i])
        invariant
            from <= i <= s.len(),
            forall|k: int| from <= k < i ==> !is_whitespace(#[trigger] s@[k]),
        decreases s.len() - i,
    {
        i = i + 1;
    }
    proof {
        let t = s@.skip(from as int);
        assert forall|k: int| 0 <= k < i - from implies !is_whitespace(#[trigger] t[k]) by {
            assert(t[k] == s@[from + k]);
        }
        lemma_leading_word_is(t, (i - from) as nat);
    }
    i
}

/// The characters of `s` from `from` up to `to`.
pub fn slice_chars(s: &Vec<char>, from: usize, to: usize) -> (v: Vec<char>)
    requires
        from <= to <= s.len(),
    ensures
        v@ == s@.subrange(from as int, to as int),
{
    let mut v: Vec<char> = Vec::new();
    let mut i = from;
    while i < to
        invariant
            from <= i <= to <= s.len(),
            v@ == s@.subrange(from as int, i as int),
        decreases to - i,
    {
        v.push(s[i]);
        i = i + 1;
    }
    v
}

/// Removes the whitespace at both ends of `s`.
pub fn trim_chars(s: &Vec<char>) -> (v: Vec<char>)
    ensures
        v@ == trim(s@),
{
    let start = skip_whitespace(s, 0);
    let mut end = s.len();
    while end > start && char_is_whitespace(s[end - 1])
        invariant
            start <= end <= s.len(),
            forall|k: int| end <= k < s.len() ==> is_whitespace(#[trigger] s@[k]),
        decreases end,
    {
        end = end - 1;
    }
    proof {
        assert(s@.skip(0) =~= s@);
        let t = s@.skip(start as int);
        lemma_leading_spaces_bound(s@);
        assert forall|k: int| t.len() - (s.len() - end) <= k < t.len() implies is_whitespace(
            #[trigger] t[k],
        ) by {
            assert(t[k] == s@[start + k]);
        }
        if end > start {
            assert(t[end - start - 1] == s@[end - 1]);
        }
        lemma_trailing_spaces_is(t, (s.len() - end) as nat);
        assert(t.take(t.len() - trailing_spaces(t)) =~= s@.subrange(start as int, end as int));
    }
    slice_chars(s, start, end)
}

/// The maximal runs of non-whitespace characters of `s`, in order.
pub open spec fn words(s: Seq<char>) -> Seq<Seq<char>>
    decreases s.len(),
{
    let t = s.skip(leading_spaces(s) as int);
    let n = leading_word(t);
    if n == 0 {
        Seq::empty()
    } else {
        proof {
            lemma_leading_spaces_bound(s);
            lemma_leading_word_bound(t);
        }
        seq![t.take(n as int)] + words(t.skip(n as int))
    }
}

/// The parts of `parts`, each two neighbours separated by `sep`.
pub open spec fn join(parts: Seq<Seq<char>>, sep: Seq<char>) -> Seq<char>
    decreases parts.len(),
{
    if parts.len() == 0 {
        Seq::empty()
    } else if parts.len() == 1 {
        parts[0]
    } else {
        join(parts.drop_last(), sep) + sep + parts.last()
    }
}

/// The views of the elements of `v`.
pub open spec fn texts_view(v: Seq<Vec<char>>) -> Seq<Seq<char>> {
    Seq::new(v.len(), |i: int| v[i]@)
}

/// Splits `s` at whitespace, dropping empty pieces.
pub fn split_whitespace(s: &Vec<char>) -> (v: Vec<Vec<char>>)
    ensures
        texts_view(v@) == words(s@),
{
    let mut v: Vec<Vec<char>> = Vec::new();
    let mut pos: usize = 0;
    proof {
        assert(s@.skip(0) =~= s@);
        assert(texts_view(v@) =~= Seq::<Seq<char>>::empty());
    }
    loop
        invariant
            pos <= s.len(),
            words(s@) == texts_view(v@) + words(s@.skip(pos as int)),
        decreases s.len() - pos,
    {
        let start = skip_whitespace(s, pos);
        let end = skip_word(s, start);
        proof {
            let rest = s@.skip(pos as int);
            let t = rest.skip(leading_spaces(rest) as int);
            assert(t =~= s@.skip(start as int));
            assert(t.take(leading_word(t) as int) =~= s@.subrange(start as int, end as int));
            assert(t.skip(leading_word(t) as int) =~= s@.skip(end as int));
        }
        if end == start {
            proof {
                assert(words(s@.skip(pos as int)) =~= Seq::<Seq<char>>::empty());
                assert(texts_view(v@) + Seq::<Seq<char>>::empty() =~= texts_view(v@));
            }
            return v;
        }
        let word = slice_chars(s, start, end);
        let ghost before = texts_view(v@);
        v.push(word);
        proof {
            assert(texts_view(v@) =~= before + seq![s@.subrange(start as int, end as int)]);
            assert(words(s@) =~= texts_view(v@) + words(s@.skip(end as int)));
        }
        pos = end;
    }
}

/// Appends to `v` the parts of `parts`, separated by `sep`.
pub fn push_joined(v: &mut Vec<char>, parts: &Vec<Vec<char>>, sep: &str)
    ensures
        final(v)@ == old(v)@ + join(texts_view(parts@), sep@),
{
    let mut i: usize = 0;
    proof {
        assert(texts_view(parts@).take(0) =~= Seq::<Seq<char>>::empty());
    }
    while i < parts.len()
        invariant
            i <= parts.len(),
            v@ == old(v)@ + join(texts_view(parts@).take(i as int), sep@),
        decreases parts.len() - i,
    {
        let ghost before = v@;
        if i > 0 {
            push_str(v, sep);
        }
        push_chars(v, &parts[i]);
        proof {
            let all = texts_view(parts@);
            let next = all.take(i + 1);
            assert(next.drop_last() =~= all.take(i as int));
            assert(next.last() == parts@[i as int]@);
            if i == 0 {
                assert(join(next, sep@) == parts@[0]@);
                assert(join(all.take(0), sep@) =~= Seq::<char>::empty());
            }
            assert(v@ =~= old(v)@ + join(next, sep@));
        }
        i = i + 1;
    }
    proof {
        assert(texts_view(parts@).take(parts.len() as int) =~= texts_view(parts@));
    }
}

/// The decimal digit `d` as a character.
pub open spec fn digit_char(d: nat) -> char
    recommends
        d < 10,
{
    if d == 0 {
        '0'
    } else if d == 1 {
        '1'
    } else if d == 2 {
        '2'
    } else if d == 3 {
        '3'
    } else if d == 4 {
        '4'
    } else if d == 5 {
        '5'
    } else if d == 6 {
        '6'
    } else if d == 7 {
        '7'
    } else if d == 8 {
        '8'
    } else {
        '9'
    }
}

/// `n` written in base ten, without leading zeros.
pub open spec fn decimal(n: nat) -> Seq<char>
    decreases n,
{
    if n < 10 {
        seq![digit_char(n)]
    } else {
        decimal(n / 10).push(digit_char(n % 10))
    }
}

fn digit_of(d: usize) -> (c: char)
    requires
        d < 10,
    ensures
        c == digit_char(d as nat),
{
    if d == 0 {
        '0'
    } else if d == 1 {
        '1'
    } else if d == 2 {
        '2'
    } else if d == 3 {
        '3'
    } else if d == 4 {
        '4'
    } else if d == 5 {
        '5'
    } else if d == 6 {
        '6'
    } else if d == 7 {
        '7'
    } else if d == 8 {
        '8'
    } else {
        '9'
    }
}

/// Appends `n` in base ten to `v`.
pub fn push_decimal(v: &mut Vec<char>, n: usize)
    ensures
        final(v)@ == old(v)@ + decimal(n as nat),
    decreases n,
{
    if n < 10 {
        v.push(digit_of(n));
        proof {
            assert(v@ =~= old(v)@ + decimal(n as nat));
        }
    } else {
        push_decimal(v, n / 10);
        v.push(digit_of(n % 10));
        proof {
            assert(v@ =~= old(v)@ + decimal(n as nat));
        }
    }
}

/// `s`, with spaces in front of it where it is shorter than `width`.
pub open spec fn pad_left(s: Seq<char>, width: nat) -> Seq<char> {
    if s.len() < width {
        fill(' ', (width - s.len()) as nat) + s
    } else {
        s
    }
}

/// `s`, with spaces behind it where it is shorter than `width`.
pub open spec fn pad_right(s: Seq<char>, width: nat) -> Seq<char> {
    if s.len() < width {
        s + fill(' ', (width - s.len()) as nat)
    } else {
        s
    }
}

/// Appends `s` to `v`, right-aligned in `width` columns.
pub fn push_padded_left(v: &mut Vec<char>, s: &Vec<char>, width: usize)
    ensures
        final(v)@ == old(v)@ + pad_left(s@, width as nat),
{
    if s.len() < width {
        push_fill(v, ' ', width - s.len());
    }
    push_chars(v, s);
}

/// Appends `s` to `v`, left-aligned in `width` columns.
pub fn push_padded_right(v: &mut Vec<char>, s: &Vec<char>, width: usize)
    ensures
        final(v)@ == old(v)@ + pad_right(s@, width as nat),
{
    push_chars(v, s);
    if s.len() < width {
        push_fill(v, ' ', width - s.len());
    }
}

/// Whether `s` begins with `prefix`.
pub fn starts_with(s: &Vec<char>, prefix: &Vec<char>) -> (b: bool)
    ensures
        b == prefix@.is_prefix_of(s@),
{
    if prefix.len() > s.len() {
        return false;
    }
    let mut i: usize = 0;
    while i < prefix.len()
        invariant
            i <= prefix.len() <= s.len(),
            forall|k: int| 0 <= k < i ==> s@[k] == prefix@[k],
        decreases prefix.len() - i,
    {
        if s[i] != prefix[i] {
            return false;
        }
        i = i + 1;
    }
    proof {
        assert(prefix@ =~= s@.subrange(0, prefix@.len() as int));
    }
    true
}

/// Position of the first `c` in `s` at or after `from`, if there is one.
pub open spec fn find_from(s: Seq<char>, c: char, from: int) -> Option<int>
    decreases s.len() - from,
{
    if from < 0 || from >= s.len() {
        None
    } else if s[from] == c {
        Some(from)
    } else {
        find_from(s, c, from + 1)
    }
}

/// Position of the first `c` in `s`, if there is one.
pub open spec fn find(s: Seq<char>, c: char) -> Option<int> {
    find_from(s, c, 0)
}

/// `find_from` finds the first `c` at or after `from`, if there is one.
pub proof fn lemma_find_from(s: Seq<char>, c: char, from: int)
    requires
        0 <= from <= s.len(),
    ensures
        match find_from(s, c, from) {
            Some(i) => from <= i < s.len() && s[i] == c && forall|k: int|
                from <= k < i ==> s[k] != c,
            None => forall|k: int| from <= k < s.len() ==> s[k] != c,
        },
    decreases s.len() - from,
{
    if from < s.len() && s[from] != c {
        lemma_find_from(s, c, from + 1);
    }
}

/// The first `c` at or after `from` is what `find_from` finds.
pub proof fn lemma_find_from_is(s: Seq<char>, c: char, from: int, at: int)
    requires
        0 <= from <= at <= s.len(),
        forall|k: int| from <= k < at ==> s[k] != c,
        at < s.len() ==> s[at] == c,
    ensures
        find_from(s, c, from) == if at < s.len() {
            Some(at)
        } else {
            None
        },
    decreases at - from,
{
    if from < at {
        lemma_find_from_is(s, c, from + 1, at);
    }
}

/// Position of the first `c` in `s` at or after `from`.
pub fn find_char(s: &Vec<char>, c: char, from: usize) -> (r: Option<usize>)
    requires
        from <= s.len(),
    ensures
        match r {
            Some(i) => find_from(s@, c, from as int) == Some(i as int) && from <= i < s.len(),
            None => find_from(s@, c, from as int).is_none(),
        },
{
    let mut i = from;
    while i < s.len()
        invariant
            from <= i <= s.len(),
            forall|k: int| from <= k < i ==> s@[k] != c,
        decreases s.len() - i,
    {
        if s[i] == c {
            proof {
                lemma_find_from_is(s@, c, from as int, i as int);
            }
            return Some(i);
        }
        i = i + 1;
    }
    proof {
        lemma_find_from_is(s@, c, from as int, i as int);
    }
    None
}

/// `line` without a carriage return at its end.
pub open spec fn without_cr(line: Seq<char>) -> Seq<char> {
    if line.len() > 0 && line.last() == '\r' {
        line.drop_last()
    } else {
        line
    }
}

/// The lines of `s`: the pieces between line feeds, without the line feed and
/// without a carriage return in front of it. A line feed at the very end
/// starts no further line.
pub open spec fn lines(s: Seq<char>) -> Seq<Seq<char>>
    decreases s.len(),
{
    if s.len() == 0 {
        Seq::empty()
    } else {
        match find(s, '\n') {
            Some(i) => {
                if 0 <= i < s.len() {
                    seq![without_cr(s.take(i))] + lines(s.skip(i + 1))
                } else {
                    Seq::empty()
                }
            },
            None => seq![s],
        }
    }
}

/// Splits `s` into its lines.
pub fn split_lines(s: &Vec<char>) -> (v: Vec<Vec<char>>)
    ensures
        texts_view(v@) == lines(s@),
{
    let mut v: Vec<Vec<char>> = Vec::new();
    let mut pos: usize = 0;
    proof {
        assert(s@.skip(0) =~= s@);
        assert(texts_view(v@) =~= Seq::<Seq<char>>::empty());
    }
    while pos < s.len()
        invariant
            pos <= s.len(),
            lines(s@) == texts_view(v@) + lines(s@.skip(pos as int)),
        decreases s.len() - pos,
    {
        let ghost rest = s@.skip(pos as int);
        let ghost before = texts_view(v@);
        let found = find_char(s, '\n', pos);
        let end = match found {
            Some(i) => i,
            None => s.len(),
        };
        proof {
            // The first line feed of the rest is the first one of `s` from `pos` on.
            lemma_find_from(s@, '\n', pos as int);
            assert forall|k: int| 0 <= k < end - pos implies rest[k] != '\n' by {
                assert(rest[k] == s@[pos + k]);
            }
            if end < s.len() {
                assert(rest[end - pos] == s@[end as int]);
            }
            lemma_find_from_is(rest, '\n', 0, end - pos);
            assert(rest.take(end - pos) =~= s@.subrange(pos as int, end as int));
        }
        let cut = if found.is_some() && end > pos && s[end - 1] == '\r' {
            end - 1
        } else {
            end
        };
        let line = slice_chars(s, pos, cut);
        v.push(line);
        proof {
            let piece = s@.subrange(pos as int, end as int);
            if found.is_some() {
                assert(without_cr(piece) =~= s@.subrange(pos as int, cut as int));
                assert(rest.skip(end - pos + 1) =~= s@.skip(end + 1));
                assert(texts_view(v@) =~= before + seq![without_cr(piece)]);
            } else {
                assert(rest =~= piece);
                assert(s@.skip(s.len() as int) =~= Seq::<char>::empty());
                assert(texts_view(v@) =~= before + seq![rest]);
            }
        }
        pos = if found.is_some() {
            end + 1
        } else {
            end
        };
    }
    proof {
        assert(s@.skip(s.len() as int) =~= Seq::<char>::empty());
        assert(texts_view(v@) + Seq::<Seq<char>>::empty() =~= texts_view(v@));
    }
    v
}

/// `s` with the combining long stroke overlay behind each of its characters.
pub open spec fn struck(s: Seq<char>) -> Seq<char> {
    Seq::new(
        2 * s.len(),
        |i: int|
            if i % 2 == 0 {
                s[i / 2]
            } else {
                '\u{336}'
            },
    )
}

/// Strikes `s` through.
pub fn strike(s: &Vec<char>) -> (v: Vec<char>)
    ensures
        v@ == struck(s@),
{
    let mut v: Vec<char> = Vec::new();
    let mut i: usize = 0;
    while i < s.len()
        invariant
            i <= s.len(),
            v@ == struck(s@.take(i as int)),
        decreases s.len() - i,
    {
        let ghost before = v@;
        v.push(s[i]);
        v.push('\u{336}');
        proof {
            assert(v@ =~= struck(s@.take(i + 1)));
        }
        i = i + 1;
    }
    proof {
        assert(s@.take(s.len() as int) =~= s@);
    }
    v
}

/// Whether `a` holds exactly the characters of `b`.
pub fn str_is(a: &str, b: &str) -> (r: bool)
    ensures
        r == (a@ == b@),
{
    let x = String::from_str(a);
    let y = String::from_str(b);
    x == y
}

/// What `str::to_uppercase` makes of a string.
pub uninterp spec fn uppercase(s: Seq<char>) -> Seq<char>;

/// What `str::to_lowercase` makes of a string.
pub uninterp spec fn lowercase(s: Seq<char>) -> Seq<char>;

/// Calls `str::to_uppercase`, which maps each character as Unicode's
/// upper-case mapping says. The contract gives that result its name.
#[verifier::external_body]
pub(crate) fn to_uppercase(s: &str) -> (r: String)
    ensures
        r@ == uppercase(s@),
{
    s.to_uppercase()
}

/// Calls `str::to_lowercase`, which maps each character as Unicode's
/// lower-case mapping says. The contract gives that result its name.
#[verifier::external_body]
pub(crate) fn to_lowercase(s: &str) -> (r: String)
    ensures
        r@ == lowercase(s@),
{
    s.to_lowercase()
}

/// Whether `c` is a decimal digit.
pub open spec fn is_digit(c: char) -> bool {
    '0' <= c && c <= '9'
}

/// The number that the decimal digits `digits` write.
pub open spec fn digits_value(digits: Seq<char>) -> nat
    decreases digits.len(),
{
    if digits.len() == 0 {
        0
    } else {
        digits_value(digits.drop_last()) * 10 + (digits.last() as nat - '0' as nat) as nat
    }
}

/// `s` without a plus sign in front of it.
pub open spec fn unsigned_part(s: Seq<char>) -> Seq<char> {
    if s.len() > 0 && s[0] == '+' {
        s.skip(1)
    } else {
        s
    }
}

/// The number that `s` writes in base ten, where it is no larger than `max`:
/// `s` is a plus sign or nothing, then one decimal digit or more.
pub open spec fn parsed_number(s: Seq<char>, max: nat) -> Option<nat> {
    let digits = unsigned_part(s);
    if digits.len() > 0 && (forall|i: int| 0 <= i < digits.len() ==> is_digit(#[trigger] digits[i]))
        && digits_value(digits) <= max {
        Some(digits_value(digits))
    } else {
        None
    }
}

/// The number that `s` writes in base ten, where it fits in 32 bits.
pub open spec fn parsed_u32(s: Seq<char>) -> Option<u32> {
    match parsed_number(s, u32::MAX as nat) {
        Some(n) => Some(n as u32),
        None => None,
    }
}

/// The number that `s` writes in base ten, where it fits in a `usize`.
pub open spec fn parsed_usize(s: Seq<char>) -> Option<usize> {
    match parsed_number(s, usize::MAX as nat) {
        Some(n) => Some(n as usize),
        None => None,
    }
}

/// More digits never write a smaller number.
proof fn lemma_digits_value_grows(digits: Seq<char>, k: int)
    requires
        0 <= k <= digits.len(),
        forall|i: int| 0 <= i < digits.len() ==> is_digit(#[trigger] digits[i]),
    ensures
        digits_value(digits.take(k)) <= digits_value(digits),
    decreases digits.len() - k,
{
    if k < digits.len() {
        lemma_digits_value_grows(digits, k + 1);
        assert(digits.take(k + 1).drop_last() =~= digits.take(k));
        assert(is_digit(digits[k]));
        assert(digits.take(k + 1).last() == digits[k]);
    } else {
        assert(digits.take(k) =~= digits);
    }
}

/// The number that `s` writes in base ten, where it is no larger than `max`.
pub fn parse_decimal(s: &Vec<char>, max: u64) -> (r: Option<u64>)
    ensures
        match r {
            Some(n) => parsed_number(s@, max as nat) == Some(n as nat),
            None => parsed_number(s@, max as nat).is_none(),
        },
{
    let start: usize = if s.len() > 0 && s[0] == '+' {
        1
    } else {
        0
    };
    let ghost digits = unsigned_part(s@);
    proof {
        assert(digits =~= s@.skip(start as int));
    }
    if start == s.len() {
        return None;
    }
    let mut value: u128 = 0;
    let mut i: usize = start;
    proof {
        assert(digits.take(0) =~= Seq::<char>::empty());
    }
    while i < s.len()
        invariant
            start <= i <= s.len(),
            digits == s@.skip(start as int),
            digits == unsigned_part(s@),
            forall|k: int| 0 <= k < i - start ==> is_digit(#[trigger] digits[k]),
            value == digits_value(digits.take(i - start)),
            value <= max,
        decreases s.len() - i,
    {
        let c = s[i];
        proof {
            assert(digits[i - start] == c);
        }
        if !('0' <= c && c <= '9') {
            proof {
                assert(!is_digit(digits[i - start]));
            }
            return None;
        }
        let d: u128 = (c as u128) - ('0' as u128);
        let next: u128 = value * 10 + d;
        proof {
            assert(digits.take(i - start + 1).drop_last() =~= digits.take(i - start));
            assert(digits.take(i - start + 1).last() == c);
            assert(next == digits_value(digits.take(i - start + 1)));
        }
        if next > max as u128 {
            proof {
                if forall|k: int| 0 <= k < digits.len() ==> is_digit(#[trigger] digits[k]) {
                    lemma_digits_value_grows(digits, i - start + 1);
                    assert(digits_value(digits) > max);
                }
            }
            return None;
        }
        value = next;
        i = i + 1;
    }
    proof {
        assert(digits.take(digits.len() as int) =~= digits);
    }
    Some(value as u64)
}

} // verus!
