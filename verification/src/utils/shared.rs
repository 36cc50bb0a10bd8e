//! The two tables that a render pass keeps: link definitions and
//! footnotes. Both keep their entries in the order in which their
//! identifiers were first stored, and hold each identifier at most once.
use vstd::prelude::*;

use crate::node::opt_view;

verus! {

/// Position of the entry of `entries` that is stored under `key`.
pub open spec fn index_of_key<T>(entries: Seq<(Seq<char>, T)>, key: Seq<char>) -> Option<int>
    decreases entries.len(),
{
    if entries.len() == 0 {
        None
    } else {
        match index_of_key(entries.drop_last(), key) {
            Some(i) => Some(i),
            None => if entries.last().0 == key {
                Some(entries.len() - 1)
            } else {
                None
            },
        }
    }
}

/// What `entries` holds under `key`.
pub open spec fn lookup<T>(entries: Seq<(Seq<char>, T)>, key: Seq<char>) -> Option<T> {
    match index_of_key(entries, key) {
        Some(i) => Some(entries[i].1),
        None => None,
    }
}

/// `entries` after `value` is stored under `key`: an entry that is there under
/// `key` is overwritten where it stands, else a new entry comes last.
pub open spec fn store<T>(entries: Seq<(Seq<char>, T)>, key: Seq<char>, value: T) -> Seq<
    (Seq<char>, T),
> {
    match index_of_key(entries, key) {
        Some(i) => entries.update(i, (key, value)),
        None => entries.push((key, value)),
    }
}

/// No two entries of `entries` share a key.
pub open spec fn distinct_keys<T>(entries: Seq<(Seq<char>, T)>) -> bool {
    forall|i: int, j: int|
        0 <= i < j < entries.len() ==> (#[trigger] entries[i]).0 != (#[trigger] entries[j]).0
}

/// `index_of_key` finds the first entry under the key, if there is one.
pub proof fn lemma_index_of_key<T>(entries: Seq<(Seq<char>, T)>, key: Seq<char>)
    ensures
        match index_of_key(entries, key) {
            Some(i) => 0 <= i < entries.len() && entries[i].0 == key && forall|k: int|
                0 <= k < i ==> (#[trigger] entries[k]).0 != key,
            None => forall|k: int| 0 <= k < entries.len() ==> (#[trigger] entries[k]).0 != key,
        },
    decreases entries.len(),
{
    if entries.len() > 0 {
        let front = entries.drop_last();
        lemma_index_of_key(front, key);
        match index_of_key(front, key) {
            Some(i) => {
                assert(entries[i] == front[i]);
                assert forall|k: int| 0 <= k < i implies (#[trigger] entries[k]).0 != key by {
                    assert(entries[k] == front[k]);
                }
            },
            None => {
                assert forall|k: int| 0 <= k < entries.len() - 1 implies (#[trigger] entries[k]).0
                    != key by {
                    assert(entries[k] == front[k]);
                }
            },
        }
    }
}

/// The first entry under the key is what `index_of_key` finds.
pub proof fn lemma_index_of_key_is<T>(entries: Seq<(Seq<char>, T)>, key: Seq<char>, at: int)
    requires
        0 <= at <= entries.len(),
        forall|k: int| 0 <= k < at ==> (#[trigger] entries[k]).0 != key,
        at < entries.len() ==> entries[at].0 == key,
    ensures
        index_of_key(entries, key) == if at < entries.len() {
            Some(at)
        } else {
            None
        },
{
    lemma_index_of_key(entries, key);
}

/// After a value is stored under a key, a lookup under that key finds it, and
/// a lookup under any other key finds what it found before.
pub proof fn lemma_store_lookup<T>(entries: Seq<(Seq<char>, T)>, key: Seq<char>, value: T)
    ensures
        lookup(store(entries, key, value), key) == Some(value),
        forall|other: Seq<char>|
            other != key ==> lookup(store(entries, key, value), other) == lookup(entries, other),
{
    let after = store(entries, key, value);
    lemma_index_of_key(entries, key);
    assert(lookup(after, key) == Some(value)) by {
        match index_of_key(entries, key) {
            Some(at) => {
                assert(after[at].0 == key);
                assert forall|k: int| 0 <= k < at implies (#[trigger] after[k]).0 != key by {
                    assert(after[k] == entries[k]);
                }
                lemma_index_of_key_is(after, key, at);
            },
            None => {
                assert forall|k: int| 0 <= k < entries.len() implies (#[trigger] after[k]).0
                    != key by {
                    assert(after[k] == entries[k]);
                }
                lemma_index_of_key_is(after, key, entries.len() as int);
            },
        }
    }
    assert forall|other: Seq<char>| other != key implies lookup(after, other) == lookup(
        entries,
        other,
    ) by {
        lemma_index_of_key(entries, other);
        match index_of_key(entries, other) {
            Some(at) => {
                assert(after[at] == entries[at]);
                assert forall|k: int| 0 <= k < at implies (#[trigger] after[k]).0 != other by {
                    assert(after[k].0 == entries[k].0);
                }
                lemma_index_of_key_is(after, other, at);
            },
            None => {
                assert forall|k: int| 0 <= k < after.len() implies (#[trigger] after[k]).0
                    != other by {
                    if k < entries.len() {
                        assert(after[k].0 == entries[k].0);
                    }
                }
                lemma_index_of_key_is(after, other, after.len() as int);
            },
        }
    }
}

/// Storing keeps the keys distinct.
pub proof fn lemma_store<T>(entries: Seq<(Seq<char>, T)>, key: Seq<char>, value: T)
    requires
        distinct_keys(entries),
    ensures
        distinct_keys(store(entries, key, value)),
{
    let after = store(entries, key, value);
    lemma_index_of_key(entries, key);
    assert forall|i: int, j: int| 0 <= i < j < after.len() implies (#[trigger] after[i]).0 != (
    #[trigger] after[j]).0 by {
        match index_of_key(entries, key) {
            Some(at) => {
                assert(after[i].0 == entries[i].0);
                assert(after[j].0 == entries[j].0);
            },
            None => {
                if j < entries.len() {
                    assert(after[i] == entries[i]);
                    assert(after[j] == entries[j]);
                } else {
                    assert(after[i] == entries[i]);
                }
            },
        }
    }
}

/// A link definition: where the link leads, and its title if it has one.
#[derive(Clone, PartialEq, Eq, Debug)]
pub struct LinkDefinition {
    pub identifier: String,
    pub url: String,
    pub title: Option<String>,
}

impl View for LinkDefinition {
    type V = (Seq<char>, (Seq<char>, Option<Seq<char>>));

    open spec fn view(&self) -> Self::V {
        (self.identifier@, (self.url@, opt_view(self.title)))
    }
}

/// The link definitions of a document, by identifier.
#[derive(Clone, PartialEq, Eq, Debug)]
pub struct LinkTable {
    pub entries: Vec<LinkDefinition>,
}

impl View for LinkTable {
    type V = Seq<(Seq<char>, (Seq<char>, Option<Seq<char>>))>;

    open spec fn view(&self) -> Self::V {
        Seq::new(self.entries@.len(), |i: int| self.entries@[i]@)
    }
}

/// A footnote: its identifier and its text.
#[derive(Clone, PartialEq, Eq, Debug)]
pub struct Footnote {
    pub identifier: String,
    pub content: String,
}

impl View for Footnote {
    type V = (Seq<char>, Seq<char>);

    open spec fn view(&self) -> Self::V {
        (self.identifier@, self.content@)
    }
}

/// The footnotes of a document, by identifier.
#[derive(Clone, PartialEq, Eq, Debug)]
pub struct FootnoteTable {
    pub entries: Vec<Footnote>,
}

impl View for FootnoteTable {
    type V = Seq<(Seq<char>, Seq<char>)>;

    open spec fn view(&self) -> Self::V {
        Seq::new(self.entries@.len(), |i: int| self.entries@[i]@)
    }
}

/// A copy of an optional string.
pub fn clone_opt(o: &Option<String>) -> (r: Option<String>)
    ensures
        r == *o,
{
    match o {
        Some(s) => Some(s.clone()),
        None => None,
    }
}

impl LinkTable {
    /// A table without entries.
    pub fn new() -> (t: LinkTable)
        ensures
            t@ == Seq::<(Seq<char>, (Seq<char>, Option<Seq<char>>))>::empty(),
            t.wf(),
    {
        let t = LinkTable { entries: Vec::new() };
        assert(t@ =~= Seq::empty());
        t
    }

    /// No identifier is stored twice.
    pub open spec fn wf(&self) -> bool {
        distinct_keys(self@)
    }

    /// Position of the entry under `identifier`.
    pub fn position(&self, identifier: &String) -> (r: Option<usize>)
        ensures
            match r {
                Some(i) => index_of_key(self@, identifier@) == Some(i as int) && i
                    < self.entries.len(),
                None => index_of_key(self@, identifier@).is_none(),
            },
    {
        let mut i: usize = 0;
        while i < self.entries.len()
            invariant
                i <= self.entries.len(),
                forall|k: int| 0 <= k < i ==> (#[trigger] self@[k]).0 != identifier@,
            decreases self.entries.len() - i,
        {
            if self.entries[i].identifier == *identifier {
                proof {
                    lemma_index_of_key_is(self@, identifier@, i as int);
                }
                return Some(i);
            }
            i = i + 1;
        }
        proof {
            lemma_index_of_key_is(self@, identifier@, i as int);
        }
        None
    }
}

impl FootnoteTable {
    /// A table without entries.
    pub fn new() -> (t: FootnoteTable)
        ensures
            t@ == Seq::<(Seq<char>, Seq<char>)>::empty(),
            t.wf(),
    {
        let t = FootnoteTable { entries: Vec::new() };
        assert(t@ =~= Seq::empty());
        t
    }

    /// No identifier is stored twice.
    pub open spec fn wf(&self) -> bool {
        distinct_keys(self@)
    }

    /// Position of the entry under `identifier`.
    pub fn position(&self, identifier: &String) -> (r: Option<usize>)
        ensures
            match r {
                Some(i) => index_of_key(self@, identifier@) == Some(i as int) && i
                    < self.entries.len(),
                None => index_of_key(self@, identifier@).is_none(),
            },
    {
        let mut i: usize = 0;
        while i < self.entries.len()
            invariant
                i <= self.entries.len(),
                forall|k: int| 0 <= k < i ==> (#[trigger] self@[k]).0 != identifier@,
            decreases self.entries.len() - i,
        {
            if self.entries[i].identifier == *identifier {
                proof {
                    lemma_index_of_key_is(self@, identifier@, i as int);
                }
                return Some(i);
            }
            i = i + 1;
        }
        proof {
            lemma_index_of_key_is(self@, identifier@, i as int);
        }
        None
    }

    /// The text stored under `identifier`.
    pub fn get(&self, identifier: &str) -> (r: Option<String>)
        ensures
            opt_view(r) == lookup(self@, identifier@),
    {
        let key = String::from_str(identifier);
        match self.position(&key) {
            Some(i) => Some(self.entries[i].content.clone()),
            None => None,
        }
    }

    /// Removes every entry.
    pub fn clear(&mut self)
        ensures
            final(self)@ == Seq::<(Seq<char>, Seq<char>)>::empty(),
            final(self).wf(),
    {
        self.entries.clear();
        assert(self@ =~= Seq::empty());
    }
}

/// The address and title that `links` holds under `identifier`.
pub fn get_link_definition(links: &LinkTable, identifier: &str) -> (r: Option<
    (String, Option<String>),
>)
    ensures
        match r {
            Some((url, title)) => lookup(links@, identifier@) == Some((url@, opt_view(title))),
            None => lookup(links@, identifier@).is_none(),
        },
{
    let key = String::from_str(identifier);
    match links.position(&key) {
        Some(i) => Some((links.entries[i].url.clone(), clone_opt(&links.entries[i].title))),
        None => None,
    }
}

/// Stores a link definition under `identifier`. A definition that is there
/// under the same identifier is overwritten.
pub fn set_link_definition(
    links: &mut LinkTable,
    identifier: String,
    url: String,
    title: Option<String>,
)
    ensures
        final(links)@ == store(old(links)@, identifier@, (url@, opt_view(title))),
        old(links).wf() ==> final(links).wf(),
{
    proof {
        if links.wf() {
            lemma_store(links@, identifier@, (url@, opt_view(title)));
        }
    }
    match links.position(&identifier) {
        Some(i) => {
            links.entries.set(i, LinkDefinition { identifier, url, title });
        },
        None => {
            links.entries.push(LinkDefinition { identifier, url, title });
        },
    }
    assert(links@ =~= store(old(links)@, identifier@, (url@, opt_view(title))));
}

/// Stores the text of a footnote under `identifier`. A text that is there
/// under the same identifier is overwritten.
pub fn set_footnote(footnotes: &mut FootnoteTable, identifier: String, content: String)
    ensures
        final(footnotes)@ == store(old(footnotes)@, identifier@, content@),
        old(footnotes).wf() ==> final(footnotes).wf(),
{
    proof {
        if footnotes.wf() {
            lemma_store(footnotes@, identifier@, content@);
        }
    }
    match footnotes.position(&identifier) {
        Some(i) => {
            footnotes.entries.set(i, Footnote { identifier, content });
        },
        None => {
            footnotes.entries.push(Footnote { identifier, content });
        },
    }
    assert(footnotes@ =~= store(old(footnotes)@, identifier@, content@));
}

} // verus!
