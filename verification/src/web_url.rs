//! The part of the `url` crate that the coordinator relies on.
//!
//! A `url::Url` is opaque to the verifier. What the contracts say of one is
//! said over the three stretches of its serialization: what precedes the
//! path, the path, and what follows it. Every function below that calls into
//! the crate is trusted; its documentation says what is taken on trust.

use crate::rendering::texts;
use url::Url;
use vstd::prelude::*;
use vstd::string::*;
use vstd::utf8::encode_utf8;

verus! {

#[verifier::external_type_specification]
#[verifier::external_body]
pub struct ExUrl(Url);

/// The serialization of `url` up to its path, scheme, `:` and authority: the
/// slice of the URL that ends at `Position::BeforePath`.
pub uninterp spec fn url_before_path(url: Url) -> Seq<char>;

/// The path of `url`, as `Url::path` returns it.
pub uninterp spec fn url_path(url: Url) -> Seq<char>;

/// The serialization of `url` after its path, query and fragment with their
/// `?` and `#`: the slice of the URL that starts at `Position::AfterPath`.
pub uninterp spec fn url_after_path(url: Url) -> Seq<char>;

/// Whether `url` is a cannot-be-a-base URL, as `Url::cannot_be_a_base` tells.
pub uninterp spec fn url_cannot_be_a_base(url: Url) -> bool;

/// A URL as the contracts see it.
#[verifier::ext_equal]
pub ghost struct UrlParts {
    pub before_path: Seq<char>,
    pub path: Seq<char>,
    pub after_path: Seq<char>,
    pub cannot_be_a_base: bool,
}

impl UrlParts {
    /// The serialization: the three stretches in a row.
    pub open spec fn text(self) -> Seq<char> {
        self.before_path + self.path + self.after_path
    }

    /// The same URL with another path.
    pub open spec fn with_path(self, path: Seq<char>) -> UrlParts {
        UrlParts { path, ..self }
    }

    /// The number of bytes of the serialization.
    pub open spec fn byte_len(self) -> nat {
        byte_len(self.text())
    }

    /// The same URL with an empty query: what follows the path is a `?` and
    /// the fragment, if there is one.
    pub open spec fn with_empty_query(self) -> UrlParts {
        UrlParts { after_path: seq!['?'] + fragment_part(self.after_path), ..self }
    }

    /// The URL after its path was extended by `segments`: itself where there
    /// is none.
    pub open spec fn extended(self, segments: Seq<Seq<char>>) -> UrlParts {
        if segments.len() == 0 {
            self
        } else {
            url_extend_path(self, segments)
        }
    }
}

pub open spec fn url_parts(url: Url) -> UrlParts {
    UrlParts {
        before_path: url_before_path(url),
        path: url_path(url),
        after_path: url_after_path(url),
        cannot_be_a_base: url_cannot_be_a_base(url),
    }
}

/// The serialization of `url`.
pub open spec fn url_text(url: Url) -> Seq<char> {
    url_parts(url).text()
}

/// The number of bytes that `text` takes in UTF-8.
pub open spec fn byte_len(text: Seq<char>) -> nat {
    encode_utf8(text).len()
}

/// The number of bytes of `text`.
pub fn byte_count(text: &str) -> (n: usize)
    ensures
        n == byte_len(text@),
{
    text.as_bytes().len()
}

/// The longest serialization, in bytes, that the `url` crate can index.
pub const URL_BYTES_MAX: usize = 0xffff_ffff;

/// What `Url::parse` makes of `input`: the URL, or the debug rendering of
/// the parse error.
pub uninterp spec fn url_parse(input: Seq<char>) -> Result<UrlParts, Seq<char>>;

/// What `PathSegmentsMut::extend` makes of a URL that can be a base when it
/// is given at least one segment.
pub uninterp spec fn url_extend_path(url: UrlParts, segments: Seq<Seq<char>>) -> UrlParts;

/// What `Url::query_pairs_mut().append_pair(key, value)` makes of a URL.
pub uninterp spec fn url_append_query_pair(
    url: UrlParts,
    key: Seq<char>,
    value: Seq<char>,
) -> UrlParts;

/// The fragment with its `#` in what follows a path: all from the first `#`
/// on. A query holds no `#` of its own, so the first one starts the fragment.
pub open spec fn fragment_part(after_path: Seq<char>) -> Seq<char>
    decreases after_path.len(),
{
    if after_path.len() == 0 {
        after_path
    } else if after_path[0] == '#' {
        after_path
    } else {
        fragment_part(after_path.skip(1))
    }
}

/// The pieces that the slashes of `text` part it into; there is always one.
pub open spec fn split_at_slashes(text: Seq<char>) -> Seq<Seq<char>>
    decreases text.len(),
{
    if text.len() == 0 {
        seq![Seq::empty()]
    } else {
        let before = split_at_slashes(text.drop_last());
        if text.last() == '/' {
            before.push(Seq::empty())
        } else {
            before.update(before.len() - 1, before.last().push(text.last()))
        }
    }
}

/// The segments of a path: none unless it starts with `/`, else the pieces
/// that the slashes part the rest into.
pub open spec fn path_segments(path: Seq<char>) -> Option<Seq<Seq<char>>> {
    if path.len() > 0 && path[0] == '/' {
        Some(split_at_slashes(path.skip(1)))
    } else {
        None
    }
}

/// The number of `/` in `path`.
pub open spec fn slash_count(path: Seq<char>) -> nat
    decreases path.len(),
{
    if path.len() == 0 {
        0
    } else {
        slash_count(path.drop_last()) + if path.last() == '/' {
            1nat
        } else {
            0nat
        }
    }
}

/// The number of segments of a path; none unless it starts with `/`.
pub open spec fn path_segment_count(path: Seq<char>) -> Option<nat> {
    match path_segments(path) {
        Some(segments) => Some(segments.len()),
        None => None,
    }
}

/// A path without one trailing slash, unless that slash is all of it.
pub open spec fn pop_trailing_slash(path: Seq<char>) -> Seq<char> {
    if path.len() > 1 && path.last() == '/' {
        path.drop_last()
    } else {
        path
    }
}

/// The bytes that appending `segments` to a path can add: three for each byte
/// of a segment, which may be percent-encoded, and two for the slashes.
pub open spec fn segments_room(segments: Seq<Seq<char>>) -> nat
    decreases segments.len(),
{
    if segments.len() == 0 {
        0
    } else {
        segments_room(segments.drop_last()) + 3 * byte_len(segments.last()) + 2
    }
}

/// Calls `Url::parse`.
///
/// Trusted: the outcome depends on the input alone. A failure is handed back
/// as the `{:?}` rendering of the `url::ParseError`.
#[verifier::external_body]
pub(crate) fn parse_url(input: &str) -> (r: Result<Url, String>)
    ensures
        match r {
            Ok(url) => url_parse(input@) == Ok::<UrlParts, Seq<char>>(url_parts(url)),
            Err(why) => url_parse(input@) == Err::<UrlParts, Seq<char>>(why@),
        },
{
    match Url::parse(input) {
        Ok(url) => Ok(url),
        Err(error) => Err(format!("{:?}", error)),
    }
}

/// `Url::as_str` returns the serialization.
pub assume_specification[ Url::as_str ](url: &Url) -> (text: &str)
    ensures
        text@ == url_text(*url),
;

/// `Url::cannot_be_a_base` tells whether the URL has neither an authority
/// nor a path that starts with a slash.
pub assume_specification[ Url::cannot_be_a_base ](url: &Url) -> (b: bool)
    ensures
        b == url_cannot_be_a_base(*url),
;

/// The clone of a URL is that URL.
pub assume_specification[ <Url as Clone>::clone ](url: &Url) -> (copy: Url)
    ensures
        copy == *url,
;

/// `Url::path` returns the path.
pub assume_specification[ Url::path ](url: &Url) -> (path: &str)
    ensures
        path@ == url_path(*url),
;

/// Calls `Url::path_segments` and hands out what the iterator yields.
///
/// Trusted: the iterator is there exactly when the path starts with `/`, and
/// it then yields the pieces that the slashes part the rest of the path into.
#[verifier::external_body]
pub(crate) fn segments_of_path(url: &Url) -> (r: Option<Vec<String>>)
    ensures
        match r {
            Some(segments) => path_segments(url_path(*url)) == Some(texts(segments@)),
            None => path_segments(url_path(*url)) is None,
        },
{
    match url.path_segments() {
        Some(segments) => Some(segments.map(String::from).collect()),
        None => None,
    }
}

/// Calls `PathSegmentsMut::pop_if_empty` on the path of `url`.
///
/// Trusted: one trailing slash of the path goes, unless it is the path's
/// first character; nothing else changes. The crate indexes the
/// serialization with `u32` and panics beyond that, hence the bound.
#[verifier::external_body]
pub(crate) fn pop_path_if_empty(url: &mut Url)
    requires
        !url_cannot_be_a_base(*old(url)),
        byte_len(url_text(*old(url))) <= URL_BYTES_MAX,
    ensures
        url_before_path(*final(url)) == url_before_path(*old(url)),
        url_path(*final(url)) == pop_trailing_slash(url_path(*old(url))),
        url_after_path(*final(url)) == url_after_path(*old(url)),
        !url_cannot_be_a_base(*final(url)),
        byte_len(url_text(*final(url))) <= byte_len(url_text(*old(url))),
{
    if let Ok(mut path) = url.path_segments_mut() {
        path.pop_if_empty();
    }
}

/// Calls `PathSegmentsMut::extend` on the path of `url`.
///
/// Trusted: with no segment the URL stays as it is; otherwise the outcome
/// depends on the URL and the segments alone. Only the path changes. Each
/// byte of a segment adds at most three bytes, each segment at most two more.
#[verifier::external_body]
pub(crate) fn extend_path(url: &mut Url, segments: &Vec<String>)
    requires
        !url_cannot_be_a_base(*old(url)),
        byte_len(url_text(*old(url))) + segments_room(texts(segments@)) <= URL_BYTES_MAX,
    ensures
        url_parts(*final(url)) == if segments@.len() == 0 {
            url_parts(*old(url))
        } else {
            url_extend_path(url_parts(*old(url)), texts(segments@))
        },
        url_before_path(*final(url)) == url_before_path(*old(url)),
        url_after_path(*final(url)) == url_after_path(*old(url)),
        !url_cannot_be_a_base(*final(url)),
        byte_len(url_text(*final(url))) <= byte_len(url_text(*old(url))) + segments_room(
            texts(segments@),
        ),
{
    if let Ok(mut path) = url.path_segments_mut() {
        path.extend(segments);
    }
}

/// Calls `PathSegmentsMut::push` on the path of `url`.
///
/// Trusted: pushing a segment is extending the path by that one segment, and
/// only the path changes. An empty segment pushed onto an empty path leaves
/// the path `/`: the slash that goes before a segment is all that is added.
#[verifier::external_body]
pub(crate) fn push_path_segment(url: &mut Url, segment: &str)
    requires
        !url_cannot_be_a_base(*old(url)),
        byte_len(url_text(*old(url))) + 3 * byte_len(segment@) + 2 <= URL_BYTES_MAX,
    ensures
        url_parts(*final(url)) == url_extend_path(url_parts(*old(url)), seq![segment@]),
        url_before_path(*final(url)) == url_before_path(*old(url)),
        url_after_path(*final(url)) == url_after_path(*old(url)),
        url_path(*old(url)).len() == 0 && segment@.len() == 0 ==> url_path(*final(url))
            == seq!['/'],
        !url_cannot_be_a_base(*final(url)),
        byte_len(url_text(*final(url))) <= byte_len(url_text(*old(url))) + 3 * byte_len(segment@)
            + 2,
{
    if let Ok(mut path) = url.path_segments_mut() {
        path.push(segment);
    }
}

/// Calls `Url::query_pairs_mut` and `Serializer::clear` on what it returns.
///
/// Trusted: what precedes the path and the path stay; what follows the path
/// becomes a `?` and the fragment, if there was one. The serialization grows
/// by at most the `?` of a query that was not there.
#[verifier::external_body]
pub(crate) fn clear_query(url: &mut Url)
    requires
        byte_len(url_text(*old(url))) + 1 <= URL_BYTES_MAX,
    ensures
        url_before_path(*final(url)) == url_before_path(*old(url)),
        url_path(*final(url)) == url_path(*old(url)),
        url_after_path(*final(url)) == seq!['?'] + fragment_part(url_after_path(*old(url))),
        url_cannot_be_a_base(*final(url)) == url_cannot_be_a_base(*old(url)),
        byte_len(url_text(*final(url))) <= byte_len(url_text(*old(url))) + 1,
{
    url.query_pairs_mut().clear();
}

/// Calls `Url::query_pairs_mut` and `Serializer::append_pair` on what it
/// returns.
///
/// Trusted: the outcome depends on the URL, the key and the value alone, and
/// neither the path nor what precedes it changes. Each byte of the two adds
/// at most three bytes; `?`, `&` and `=` add three more.
#[verifier::external_body]
pub(crate) fn append_query_pair(url: &mut Url, key: &str, value: &str)
    requires
        byte_len(url_text(*old(url))) + 3 * byte_len(key@) + 3 * byte_len(value@) + 3
            <= URL_BYTES_MAX,
    ensures
        url_parts(*final(url)) == url_append_query_pair(url_parts(*old(url)), key@, value@),
        url_before_path(*final(url)) == url_before_path(*old(url)),
        url_path(*final(url)) == url_path(*old(url)),
{
    url.query_pairs_mut().append_pair(key, value);
}

} // verus!
