//! The theme that source code is highlighted with: a colour for each kind of
//! token, looked up by the dotted name of the kind.
use vstd::prelude::*;

use crate::text::{chars_of, slice_chars, string_of};
use crate::utils::shared::{
    distinct_keys, index_of_key, lemma_index_of_key_is, lemma_store, lookup, store,
};

verus! {

/// How one kind of token is written: its colour and the colour behind it,
/// each as `#rrggbb`, or empty where the theme leaves it open.
#[derive(Clone, PartialEq, Eq, Debug)]
pub struct ThemeStyle {
    pub primary_color: String,
    pub secondary_color: String,
}

impl View for ThemeStyle {
    type V = (Seq<char>, Seq<char>);

    open spec fn view(&self) -> (Seq<char>, Seq<char>) {
        (self.primary_color@, self.secondary_color@)
    }
}

/// A style with the name of the kind of token that it is for.
#[derive(Clone, PartialEq, Eq, Debug)]
pub struct NamedStyle {
    pub name: String,
    pub style: ThemeStyle,
}

/// A theme: a default style, and a style for each kind of token that it
/// names.
#[derive(Clone, PartialEq, Eq, Debug)]
pub struct Theme {
    pub default_style: ThemeStyle,
    pub styles: Vec<NamedStyle>,
}

/// `Theme` as plain values.
#[verifier::ext_equal]
pub struct ThemeView {
    pub default_style: (Seq<char>, Seq<char>),
    pub styles: Seq<(Seq<char>, (Seq<char>, Seq<char>))>,
}

impl View for Theme {
    type V = ThemeView;

    open spec fn view(&self) -> ThemeView {
        ThemeView {
            default_style: self.default_style@,
            styles: Seq::new(
                self.styles@.len(),
                |i: int| (self.styles@[i].name@, self.styles@[i].style@),
            ),
        }
    }
}

/// Position of the last `c` in `s`, if there is one.
pub open spec fn rfind(s: Seq<char>, c: char) -> Option<int>
    decreases s.len(),
{
    if s.len() == 0 {
        None
    } else if s.last() == c {
        Some(s.len() - 1)
    } else {
        rfind(s.drop_last(), c)
    }
}

/// The style that `theme` has for the kind of token `name`: the style under
/// that name, else the style of the kind that it is a special case of, which
/// is named by what stands before its last dot, else the default style.
pub open spec fn style_of(theme: ThemeView, name: Seq<char>) -> (Seq<char>, Seq<char>)
    decreases name.len(),
{
    match lookup(theme.styles, name) {
        Some(style) => style,
        None => match rfind(name, '.') {
            Some(i) => {
                if 0 <= i < name.len() {
                    style_of(theme, name.take(i))
                } else {
                    theme.default_style
                }
            },
            None => theme.default_style,
        },
    }
}

impl Theme {
    /// No name has two styles.
    pub open spec fn wf(&self) -> bool {
        distinct_keys(self@.styles)
    }

    /// A theme with the given default style and no other.
    pub fn new(default_style: ThemeStyle) -> (theme: Theme)
        ensures
            theme@.default_style == default_style@,
            theme@.styles == Seq::<(Seq<char>, (Seq<char>, Seq<char>))>::empty(),
            theme.wf(),
    {
        let theme = Theme { default_style, styles: Vec::new() };
        assert(theme@.styles =~= Seq::empty());
        theme
    }

    /// Position of the style named `name`.
    pub fn position(&self, name: &String) -> (r: Option<usize>)
        ensures
            match r {
                Some(i) => index_of_key(self@.styles, name@) == Some(i as int) && i
                    < self.styles.len(),
                None => index_of_key(self@.styles, name@).is_none(),
            },
    {
        let mut i: usize = 0;
        while i < self.styles.len()
            invariant
                i <= self.styles.len(),
                forall|k: int| 0 <= k < i ==> (#[trigger] self@.styles[k]).0 != name@,
            decreases self.styles.len() - i,
        {
            if self.styles[i].name == *name {
                proof {
                    lemma_index_of_key_is(self@.styles, name@, i as int);
                }
                return Some(i);
            }
            i = i + 1;
        }
        proof {
            lemma_index_of_key_is(self@.styles, name@, i as int);
        }
        None
    }

    /// Gives the kind of token `name` the style `style`, in place of a style
    /// that it has already.
    pub fn add_style(&mut self, name: &str, style: ThemeStyle)
        ensures
            final(self)@.styles == store(old(self)@.styles, name@, style@),
            final(self)@.default_style == old(self)@.default_style,
            old(self).wf() ==> final(self).wf(),
    {
        proof {
            if self.wf() {
                lemma_store(self@.styles, name@, style@);
            }
        }
        let name = String::from_str(name);
        match self.position(&name) {
            Some(i) => {
                self.styles.set(i, NamedStyle { name, style });
            },
            None => {
                self.styles.push(NamedStyle { name, style });
            },
        }
        assert(self@.styles =~= store(old(self)@.styles, name@, style@));
    }

    /// The style for the kind of token `name`.
    pub fn get_style(&self, name: &str) -> (style: &ThemeStyle)
        ensures
            style@ == style_of(self@, name@),
    {
        let chars = chars_of(name);
        let mut end: usize = chars.len();
        proof {
            assert(chars@.take(end as int) =~= name@);
        }
        loop
            invariant
                end <= chars.len(),
                chars@ == name@,
                style_of(self@, name@) == style_of(self@, chars@.take(end as int)),
            decreases end,
        {
            let ghost current = chars@.take(end as int);
            let key = string_of(&slice_chars(&chars, 0, end));
            assert(key@ =~= current);
            match self.position(&key) {
                Some(i) => {
                    return &self.styles[i].style;
                },
                None => {},
            }
            let mut dot: usize = end;
            proof {
                assert(current.take(dot as int) =~= current);
            }
            while dot > 0 && chars[dot - 1] != '.'
                invariant
                    dot <= end <= chars.len(),
                    current == chars@.take(end as int),
                    rfind(current, '.') == rfind(current.take(dot as int), '.'),
                decreases dot,
            {
                proof {
                    assert(current.take(dot as int).drop_last() =~= current.take(dot - 1));
                    assert(current.take(dot as int).last() == chars@[dot - 1]);
                }
                dot = dot - 1;
            }
            if dot == 0 {
                proof {
                    assert(current.take(0).len() == 0);
                }
                return &self.default_style;
            }
            proof {
                assert(current.take(dot as int).last() == chars@[dot - 1]);
                assert(rfind(current, '.') == Some(dot - 1));
                assert(current.take(dot - 1) =~= chars@.take(dot - 1));
            }
            end = dot - 1;
        }
    }
}

/// A style with the colour `primary_color` that leaves the colour behind it
/// open.
pub fn plain_style(primary_color: &str) -> (style: ThemeStyle)
    ensures
        style@ == (primary_color@, ""@),
{
    ThemeStyle {
        primary_color: String::from_str(primary_color),
        secondary_color: String::from_str(""),
    }
}

/// The styles of the tokens of source code, stored in `styles` one after the other.
pub open spec fn basic_styles(styles: Seq<(Seq<char>, (Seq<char>, Seq<char>))>) -> Seq<
    (Seq<char>, (Seq<char>, Seq<char>)),
> {
    let styles = store(styles, "attribute"@, ("#D7BA7D"@, ""@));
    let styles = store(styles, "type"@, ("#4EC9B0"@, ""@));
    let styles = store(styles, "type.builtin"@, ("#569CD6"@, ""@));
    let styles = store(styles, "type.enum"@, ("#4EC9B0"@, ""@));
    let styles = store(styles, "type.enum.variant"@, ("#4FC1FF"@, ""@));
    let styles = store(styles, "constructor"@, ("#4EC9B0"@, ""@));
    let styles = store(styles, "constant"@, ("#569CD6"@, ""@));
    let styles = store(styles, "constant.builtin"@, ("#569CD6"@, ""@));
    let styles = store(styles, "constant.builtin.boolean"@, ("#569CD6"@, ""@));
    let styles = store(styles, "constant.character"@, ("#CE9178"@, ""@));
    let styles = store(styles, "constant.character.escape"@, ("#D7BA7D"@, ""@));
    let styles = store(styles, "constant.numeric"@, ("#B5CEA8"@, ""@));
    let styles = store(styles, "constant.numeric.integer"@, ("#B5CEA8"@, ""@));
    let styles = store(styles, "constant.numeric.float"@, ("#B5CEA8"@, ""@));
    let styles = store(styles, "string"@, ("#CE9178"@, ""@));
    let styles = store(styles, "string.regexp"@, ("#D16969"@, ""@));
    let styles = store(styles, "string.special"@, ("#D7BA7D"@, ""@));
    let styles = store(styles, "string.special.path"@, ("#D7BA7D"@, ""@));
    let styles = store(styles, "string.special.url"@, ("#4EC9B0"@, ""@));
    let styles = store(styles, "string.special.symbol"@, ("#D7BA7D"@, ""@));
    let styles = store(styles, "escape"@, ("#D7BA7D"@, ""@));
    let styles = store(styles, "comment"@, ("#6A9955"@, ""@));
    let styles = store(styles, "comment.line"@, ("#6A9955"@, ""@));
    let styles = store(styles, "comment.block"@, ("#6A9955"@, ""@));
    let styles = store(styles, "comment.block.documentation"@, ("#6A9955"@, ""@));
    let styles = store(styles, "variable"@, ("#9CDCFE"@, ""@));
    let styles = store(styles, "variable.builtin"@, ("#9CDCFE"@, ""@));
    let styles = store(styles, "variable.parameter"@, ("#9CDCFE"@, ""@));
    let styles = store(styles, "variable.other"@, ("#9CDCFE"@, ""@));
    let styles = store(styles, "variable.other.member"@, ("#9CDCFE"@, ""@));
    let styles = store(styles, "label"@, ("#C8C8C8"@, ""@));
    let styles = store(styles, "punctuation"@, ("#D4D4D4"@, ""@));
    let styles = store(styles, "punctuation.delimiter"@, ("#D4D4D4"@, ""@));
    let styles = store(styles, "punctuation.bracket"@, ("#D4D4D4"@, ""@));
    let styles = store(styles, "punctuation.special"@, ("#D4D4D4"@, ""@));
    let styles = store(styles, "keyword"@, ("#569CD6"@, ""@));
    let styles = store(styles, "keyword.control"@, ("#C586C0"@, ""@));
    let styles = store(styles, "keyword.control.conditional"@, ("#C586C0"@, ""@));
    let styles = store(styles, "keyword.control.repeat"@, ("#C586C0"@, ""@));
    let styles = store(styles, "keyword.control.import"@, ("#C586C0"@, ""@));
    let styles = store(styles, "keyword.control.return"@, ("#C586C0"@, ""@));
    let styles = store(styles, "keyword.control.exception"@, ("#C586C0"@, ""@));
    let styles = store(styles, "keyword.operator"@, ("#D4D4D4"@, ""@));
    let styles = store(styles, "keyword.directive"@, ("#C586C0"@, ""@));
    let styles = store(styles, "keyword.function"@, ("#569CD6"@, ""@));
    let styles = store(styles, "keyword.storage"@, ("#569CD6"@, ""@));
    let styles = store(styles, "keyword.storage.type"@, ("#569CD6"@, ""@));
    let styles = store(styles, "keyword.storage.modifier"@, ("#569CD6"@, ""@));
    let styles = store(styles, "operator"@, ("#D4D4D4"@, ""@));
    let styles = store(styles, "function"@, ("#DCDCAA"@, ""@));
    let styles = store(styles, "function.builtin"@, ("#DCDCAA"@, ""@));
    let styles = store(styles, "function.method"@, ("#DCDCAA"@, ""@));
    let styles = store(styles, "function.macro"@, ("#DCDCAA"@, ""@));
    let styles = store(styles, "function.special"@, ("#DCDCAA"@, ""@));
    let styles = store(styles, "tag"@, ("#569CD6"@, ""@));
    let styles = store(styles, "tag.builtin"@, ("#569CD6"@, ""@));
    let styles = store(styles, "namespace"@, ("#4EC9B0"@, ""@));
    let styles = store(styles, "special"@, ("#D7BA7D"@, ""@));
    styles
}

/// The styles of the elements of marked-up text, stored in `styles` one after the other.
pub open spec fn markup_styles(styles: Seq<(Seq<char>, (Seq<char>, Seq<char>))>) -> Seq<
    (Seq<char>, (Seq<char>, Seq<char>)),
> {
    let styles = store(styles, "markup"@, ("#D4D4D4"@, ""@));
    let styles = store(styles, "markup.heading"@, ("#569CD6"@, ""@));
    let styles = store(styles, "markup.heading.marker"@, ("#569CD6"@, ""@));
    let styles = store(styles, "markup.heading.1"@, ("#569CD6"@, ""@));
    let styles = store(styles, "markup.heading.2"@, ("#569CD6"@, ""@));
    let styles = store(styles, "markup.heading.3"@, ("#569CD6"@, ""@));
    let styles = store(styles, "markup.heading.4"@, ("#569CD6"@, ""@));
    let styles = store(styles, "markup.heading.5"@, ("#569CD6"@, ""@));
    let styles = store(styles, "markup.heading.6"@, ("#569CD6"@, ""@));
    let styles = store(styles, "markup.list"@, ("#D4D4D4"@, ""@));
    let styles = store(styles, "markup.list.unnumbered"@, ("#D4D4D4"@, ""@));
    let styles = store(styles, "markup.list.numbered"@, ("#D4D4D4"@, ""@));
    let styles = store(styles, "markup.list.checked"@, ("#D4D4D4"@, ""@));
    let styles = store(styles, "markup.list.unchecked"@, ("#D4D4D4"@, ""@));
    let styles = store(styles, "markup.bold"@, ("#D4D4D4"@, ""@));
    let styles = store(styles, "markup.italic"@, ("#D4D4D4"@, ""@));
    let styles = store(styles, "markup.strikethrough"@, ("#D4D4D4"@, ""@));
    let styles = store(styles, "markup.link"@, ("#4EC9B0"@, ""@));
    let styles = store(styles, "markup.link.url"@, ("#4EC9B0"@, ""@));
    let styles = store(styles, "markup.link.label"@, ("#4EC9B0"@, ""@));
    let styles = store(styles, "markup.link.text"@, ("#4EC9B0"@, ""@));
    let styles = store(styles, "markup.quote"@, ("#D4D4D4"@, ""@));
    let styles = store(styles, "markup.raw"@, ("#CE9178"@, ""@));
    let styles = store(styles, "markup.raw.inline"@, ("#CE9178"@, ""@));
    let styles = store(styles, "markup.raw.block"@, ("#CE9178"@, ""@));
    styles
}

/// The styles of the lines of a diff, stored in `styles` one after the other.
pub open spec fn diff_styles(styles: Seq<(Seq<char>, (Seq<char>, Seq<char>))>) -> Seq<
    (Seq<char>, (Seq<char>, Seq<char>)),
> {
    let styles = store(styles, "diff"@, ("#D4D4D4"@, ""@));
    let styles = store(styles, "diff.plus"@, ("#6A9955"@, ""@));
    let styles = store(styles, "diff.minus"@, ("#F44747"@, ""@));
    let styles = store(styles, "diff.delta"@, ("#4EC9B0"@, ""@));
    let styles = store(styles, "diff.delta.moved"@, ("#4EC9B0"@, ""@));
    styles
}

/// Adds the styles of the tokens of source code to `theme`.
fn add_basic_styles(theme: &mut Theme)
    ensures
        final(theme)@.styles == basic_styles(old(theme)@.styles),
        final(theme)@.default_style == old(theme)@.default_style,
        old(theme).wf() ==> final(theme).wf(),
{
    theme.add_style("attribute", plain_style("#D7BA7D"));
    theme.add_style("type", plain_style("#4EC9B0"));
    theme.add_style("type.builtin", plain_style("#569CD6"));
    theme.add_style("type.enum", plain_style("#4EC9B0"));
    theme.add_style("type.enum.variant", plain_style("#4FC1FF"));
    theme.add_style("constructor", plain_style("#4EC9B0"));
    theme.add_style("constant", plain_style("#569CD6"));
    theme.add_style("constant.builtin", plain_style("#569CD6"));
    theme.add_style("constant.builtin.boolean", plain_style("#569CD6"));
    theme.add_style("constant.character", plain_style("#CE9178"));
    theme.add_style("constant.character.escape", plain_style("#D7BA7D"));
    theme.add_style("constant.numeric", plain_style("#B5CEA8"));
    theme.add_style("constant.numeric.integer", plain_style("#B5CEA8"));
    theme.add_style("constant.numeric.float", plain_style("#B5CEA8"));
    theme.add_style("string", plain_style("#CE9178"));
    theme.add_style("string.regexp", plain_style("#D16969"));
    theme.add_style("string.special", plain_style("#D7BA7D"));
    theme.add_style("string.special.path", plain_style("#D7BA7D"));
    theme.add_style("string.special.url", plain_style("#4EC9B0"));
    theme.add_style("string.special.symbol", plain_style("#D7BA7D"));
    theme.add_style("escape", plain_style("#D7BA7D"));
    theme.add_style("comment", plain_style("#6A9955"));
    theme.add_style("comment.line", plain_style("#6A9955"));
    theme.add_style("comment.block", plain_style("#6A9955"));
    theme.add_style("comment.block.documentation", plain_style("#6A9955"));
    theme.add_style("variable", plain_style("#9CDCFE"));
    theme.add_style("variable.builtin", plain_style("#9CDCFE"));
    theme.add_style("variable.parameter", plain_style("#9CDCFE"));
    theme.add_style("variable.other", plain_style("#9CDCFE"));
    theme.add_style("variable.other.member", plain_style("#9CDCFE"));
    theme.add_style("label", plain_style("#C8C8C8"));
    theme.add_style("punctuation", plain_style("#D4D4D4"));
    theme.add_style("punctuation.delimiter", plain_style("#D4D4D4"));
    theme.add_style("punctuation.bracket", plain_style("#D4D4D4"));
    theme.add_style("punctuation.special", plain_style("#D4D4D4"));
    theme.add_style("keyword", plain_style("#569CD6"));
    theme.add_style("keyword.control", plain_style("#C586C0"));
    theme.add_style("keyword.control.conditional", plain_style("#C586C0"));
    theme.add_style("keyword.control.repeat", plain_style("#C586C0"));
    theme.add_style("keyword.control.import", plain_style("#C586C0"));
    theme.add_style("keyword.control.return", plain_style("#C586C0"));
    theme.add_style("keyword.control.exception", plain_style("#C586C0"));
    theme.add_style("keyword.operator", plain_style("#D4D4D4"));
    theme.add_style("keyword.directive", plain_style("#C586C0"));
    theme.add_style("keyword.function", plain_style("#569CD6"));
    theme.add_style("keyword.storage", plain_style("#569CD6"));
    theme.add_style("keyword.storage.type", plain_style("#569CD6"));
    theme.add_style("keyword.storage.modifier", plain_style("#569CD6"));
    theme.add_style("operator", plain_style("#D4D4D4"));
    theme.add_style("function", plain_style("#DCDCAA"));
    theme.add_style("function.builtin", plain_style("#DCDCAA"));
    theme.add_style("function.method", plain_style("#DCDCAA"));
    theme.add_style("function.macro", plain_style("#DCDCAA"));
    theme.add_style("function.special", plain_style("#DCDCAA"));
    theme.add_style("tag", plain_style("#569CD6"));
    theme.add_style("tag.builtin", plain_style("#569CD6"));
    theme.add_style("namespace", plain_style("#4EC9B0"));
    theme.add_style("special", plain_style("#D7BA7D"));
}

/// Adds the styles of the elements of marked-up text to `theme`.
fn add_markup_styles(theme: &mut Theme)
    ensures
        final(theme)@.styles == markup_styles(old(theme)@.styles),
        final(theme)@.default_style == old(theme)@.default_style,
        old(theme).wf() ==> final(theme).wf(),
{
    theme.add_style("markup", plain_style("#D4D4D4"));
    theme.add_style("markup.heading", plain_style("#569CD6"));
    theme.add_style("markup.heading.marker", plain_style("#569CD6"));
    theme.add_style("markup.heading.1", plain_style("#569CD6"));
    theme.add_style("markup.heading.2", plain_style("#569CD6"));
    theme.add_style("markup.heading.3", plain_style("#569CD6"));
    theme.add_style("markup.heading.4", plain_style("#569CD6"));
    theme.add_style("markup.heading.5", plain_style("#569CD6"));
    theme.add_style("markup.heading.6", plain_style("#569CD6"));
    theme.add_style("markup.list", plain_style("#D4D4D4"));
    theme.add_style("markup.list.unnumbered", plain_style("#D4D4D4"));
    theme.add_style("markup.list.numbered", plain_style("#D4D4D4"));
    theme.add_style("markup.list.checked", plain_style("#D4D4D4"));
    theme.add_style("markup.list.unchecked", plain_style("#D4D4D4"));
    theme.add_style("markup.bold", plain_style("#D4D4D4"));
    theme.add_style("markup.italic", plain_style("#D4D4D4"));
    theme.add_style("markup.strikethrough", plain_style("#D4D4D4"));
    theme.add_style("markup.link", plain_style("#4EC9B0"));
    theme.add_style("markup.link.url", plain_style("#4EC9B0"));
    theme.add_style("markup.link.label", plain_style("#4EC9B0"));
    theme.add_style("markup.link.text", plain_style("#4EC9B0"));
    theme.add_style("markup.quote", plain_style("#D4D4D4"));
    theme.add_style("markup.raw", plain_style("#CE9178"));
    theme.add_style("markup.raw.inline", plain_style("#CE9178"));
    theme.add_style("markup.raw.block", plain_style("#CE9178"));
}

/// Adds the styles of the lines of a diff to `theme`.
fn add_diff_styles(theme: &mut Theme)
    ensures
        final(theme)@.styles == diff_styles(old(theme)@.styles),
        final(theme)@.default_style == old(theme)@.default_style,
        old(theme).wf() ==> final(theme).wf(),
{
    theme.add_style("diff", plain_style("#D4D4D4"));
    theme.add_style("diff.plus", plain_style("#6A9955"));
    theme.add_style("diff.minus", plain_style("#F44747"));
    theme.add_style("diff.delta", plain_style("#4EC9B0"));
    theme.add_style("diff.delta.moved", plain_style("#4EC9B0"));
}

/// The styles of the theme, stored in an empty table one after the other.
pub open spec fn theme_styles() -> Seq<(Seq<char>, (Seq<char>, Seq<char>))> {
    diff_styles(markup_styles(basic_styles(Seq::empty())))
}

/// The theme that source code is highlighted with: white on dark grey where
/// nothing else is said, and a colour of its own for each kind of token that
/// the theme names.
pub fn create_theme() -> (theme: Theme)
    ensures
        theme@.default_style == ("#FFFFFF"@, "#1E1E1E"@),
        theme@.styles == theme_styles(),
        theme.wf(),
{
    let mut theme = Theme::new(
        ThemeStyle {
            primary_color: String::from_str("#FFFFFF"),
            secondary_color: String::from_str("#1E1E1E"),
        },
    );
    add_basic_styles(&mut theme);
    add_markup_styles(&mut theme);
    add_diff_styles(&mut theme);
    theme
}

} // verus!
