//! Texts for people: quoting strings and lists of strings the way `{:?}` does.

use vstd::prelude::*;
use vstd::string::*;

verus! {

/// The texts of a sequence of strings.
pub open spec fn texts(strings: Seq<String>) -> Seq<Seq<char>> {
    strings.map_values(|s: String| s@)
}

/// What `{:?}` prints for a string slice: the text in double quotes, with
/// the escapes that `<str as Debug>::fmt` chooses.
pub uninterp spec fn str_debug(text: Seq<char>) -> Seq<char>;

/// Formats `text` with `{:?}`, that is with std's `<str as Debug>::fmt`.
///
/// Trusted: the rendering depends on the text alone.
#[verifier::external_body]
pub(crate) fn debug_str(text: &str) -> (quoted: String)
    ensures
        quoted@ == str_debug(text@),
{
    format!("{:?}", text)
}

/// The quoted items with `, ` between them.
pub open spec fn debug_items(items: Seq<Seq<char>>) -> Seq<char>
    decreases items.len(),
{
    if items.len() == 0 {
        Seq::empty()
    } else if items.len() == 1 {
        str_debug(items[0])
    } else {
        debug_items(items.drop_last()) + ", "@ + str_debug(items.last())
    }
}

/// What `{:?}` prints for a list of strings: `[`, the quoted items with `, `
/// between them, and `]`.
pub open spec fn debug_list(items: Seq<Seq<char>>) -> Seq<char> {
    "["@ + debug_items(items) + "]"@
}

/// Renders a list of strings as `{:?}` renders a `Vec<String>`.
pub fn debug_strings(items: &Vec<String>) -> (rendered: String)
    ensures
        rendered@ == debug_list(texts(items@)),
{
    let mut rendered = "[".to_owned();
    let mut i: usize = 0;
    while i < items.len()
        invariant
            i <= items.len(),
            rendered@ == "["@ + debug_items(texts(items@).take(i as int)),
        decreases items.len() - i,
    {
        let ghost before = texts(items@).take(i as int);
        let ghost after = texts(items@).take(i + 1);
        assert(after.drop_last() == before);
        assert(after.last() == items@[i as int]@);
        if i > 0 {
            rendered.append(", ");
        }
        let quoted = debug_str(items[i].as_str());
        rendered.append(quoted.as_str());
        i = i + 1;
    }
    assert(texts(items@).take(items.len() as int) == texts(items@));
    rendered.append("]");
    rendered
}

} // verus!
