//! Shortcodes such as `:rocket:` are replaced by the emoji they name.
use vstd::prelude::*;

use crate::node::opt_view;
use crate::text::{chars_of, slice_chars, string_of};

verus! {

/// The emoji that `emojis::get_by_shortcode` finds for a shortcode, if it
/// finds one.
pub uninterp spec fn emoji_glyph(shortcode: Seq<char>) -> Option<Seq<char>>;

/// Looks a shortcode up with `emojis::get_by_shortcode`, which searches a
/// fixed table, and hands back the emoji's characters. The contract gives
/// that result its name.
#[verifier::external_body]
fn lookup_shortcode(shortcode: &str) -> (r: Option<String>)
    ensures
        opt_view(r) == emoji_glyph(shortcode@),
{
    match emojis::get_by_shortcode(shortcode) {
        Some(emoji) => Some(emoji.as_str().to_string()),
        None => None,
    }
}

/// The shortcode that `word` spells: what stands between two colons.
pub open spec fn shortcode_of(word: Seq<char>) -> Option<Seq<char>> {
    if word.len() >= 2 && word[0] == ':' && word.last() == ':' {
        Some(word.subrange(1, word.len() - 1))
    } else {
        None
    }
}

/// The emoji that `word` names, if it is a shortcode and names one.
pub open spec fn emoji_of(word: Seq<char>) -> Option<Seq<char>> {
    match shortcode_of(word) {
        Some(code) => emoji_glyph(code),
        None => None,
    }
}

/// What is written for `word` when `emoji` is the emoji that it names.
pub open spec fn shown_word(word: Seq<char>, emoji: Option<Seq<char>>) -> Seq<char> {
    match emoji {
        Some(glyph) => glyph,
        None => word,
    }
}

/// `words`, each replaced by the emoji that it names, if it names one.
pub open spec fn substitute(words: Seq<Seq<char>>) -> Seq<Seq<char>> {
    Seq::new(words.len(), |i: int| shown_word(words[i], emoji_of(words[i])))
}

/// The shortcode that `word` spells, if it spells one.
pub fn shortcode(word: &Vec<char>) -> (r: Option<Vec<char>>)
    ensures
        match r {
            Some(code) => shortcode_of(word@) == Some(code@),
            None => shortcode_of(word@).is_none(),
        },
{
    let n = word.len();
    if n >= 2 && word[0] == ':' && word[n - 1] == ':' {
        Some(slice_chars(word, 1, n - 1))
    } else {
        None
    }
}

/// The emoji that `word` names, if `word` is a shortcode between colons and
/// the emoji table knows it.
pub fn parse_emoji(word: &Vec<char>) -> (r: Option<String>)
    ensures
        opt_view(r) == emoji_of(word@),
{
    match shortcode(word) {
        Some(code) => lookup_shortcode(string_of(&code).as_str()),
        None => None,
    }
}

/// The characters written for `word`: those of `emoji` where there is one,
/// else the word as it stands.
pub fn choose_shown(word: &Vec<char>, emoji: Option<String>) -> (v: Vec<char>)
    ensures
        v@ == shown_word(word@, opt_view(emoji)),
{
    match emoji {
        Some(glyph) => chars_of(glyph.as_str()),
        None => slice_chars(word, 0, word.len()),
    }
}

} // verus!
