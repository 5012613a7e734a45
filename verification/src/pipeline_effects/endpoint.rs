//! Catalog endpoint addresses: path extensions and terminal path segments.

use crate::pipeline_effects::{result_view, ProcessingError, ProcessingErrorView};
use crate::rendering::texts;
use crate::web_url::{
    byte_count, byte_len, extend_path, parse_url, path_segment_count, pop_path_if_empty,
    pop_trailing_slash, push_path_segment, segments_of_path, segments_room, slash_count,
    split_at_slashes, url_cannot_be_a_base, url_parse, url_parts, url_path, url_text, UrlParts,
    URL_BYTES_MAX,
};
use url::Url;
use vstd::prelude::*;
use vstd::string::*;

verus! {

/// Where the terminal segment of `path` starts: after its last `/`, or at 0.
pub open spec fn basename_start(path: Seq<char>) -> nat
    decreases path.len(),
{
    if path.len() == 0 {
        0
    } else if path.last() == '/' {
        path.len()
    } else {
        basename_start(path.drop_last())
    }
}

/// The terminal segment of `path`: what follows its last `/`, or all of it.
pub open spec fn basename(path: Seq<char>) -> Seq<char> {
    path.subrange(basename_start(path) as int, path.len() as int)
}

/// The terminal segment of each path, in the order of the paths.
pub fn basenames(paths: &Vec<String>) -> (names: Vec<String>)
    ensures
        names@.len() == paths@.len(),
        forall|i: int| 0 <= i < paths@.len() ==> (#[trigger] names@[i])@ == basename(paths@[i]@),
{
    let mut names: Vec<String> = Vec::new();
    let mut i: usize = 0;
    while i < paths.len()
        invariant
            i <= paths.len(),
            names@.len() == i,
            forall|j: int| 0 <= j < i ==> (#[trigger] names@[j])@ == basename(paths@[j]@),
        decreases paths.len() - i,
    {
        names.push(_basename(paths[i].as_str()));
        i = i + 1;
    }
    names
}

/// The terminal segment of one path.
pub fn _basename(path: &str) -> (terminus: String)
    ensures
        terminus@ == basename(path@),
{
    broadcast use vstd::string::group_string_axioms;

    let n = path.unicode_len();
    let mut start: usize = 0;
    let mut i: usize = 0;
    for c in it: path.chars()
        invariant
            n == path@.len(),
            i == it.index(),
            start <= i <= n,
            it.seq() == path@,
            start == basename_start(path@.take(i as int)),
    {
        assert(path@.take(i + 1).drop_last() == path@.take(i as int));
        i = i + 1;
        if c == '/' {
            start = i;
        }
    }
    assert(path@.take(n as int) == path@);
    path.substring_char(start, n).to_owned()
}

/// A path without any trailing slash but its first character.
pub open spec fn strip_trailing_slashes(path: Seq<char>) -> Seq<char>
    decreases path.len(),
{
    if path.len() > 1 && path.last() == '/' {
        strip_trailing_slashes(path.drop_last())
    } else {
        path
    }
}

/// A path after `n` attempts to drop one trailing slash.
pub open spec fn drop_trailing(path: Seq<char>, n: nat) -> Seq<char>
    decreases n,
{
    if n == 0 {
        path
    } else {
        drop_trailing(pop_trailing_slash(path), (n - 1) as nat)
    }
}

/// The path of an endpoint prefix once its trailing empty segments are gone.
/// A path of no segments, one that does not start with `/`, stays as it is.
pub open spec fn dropped_path(path: Seq<char>) -> Seq<char> {
    if path_segment_count(path) is Some {
        strip_trailing_slashes(path)
    } else {
        path
    }
}

/// The path that segments are appended to: a path without segments is given
/// its slash, so that an address never stops after the host; any other path
/// loses its trailing empty segments.
pub open spec fn endpoint_path(path: Seq<char>) -> Seq<char> {
    if path.len() == 0 {
        seq!['/']
    } else {
        dropped_path(path)
    }
}

/// The message of the failure to parse an endpoint prefix.
pub open spec fn invalid_prefix_message(why: Seq<char>) -> Seq<char> {
    "Endpoint prefix may not be valid url:\n"@ + why
}

/// The message of the failure to change the path of a cannot-be-a-base URL.
pub open spec fn cannot_be_base_message() -> Seq<char> {
    "Endpoint prefix might be a cannot-be-base URL:\n()"@
}

/// The address that extending `prefix` by the segments `extension` gives:
/// the prefix is parsed, its trailing empty path segments are dropped, a
/// path that is empty becomes `/`, and the segments are appended in order.
/// With nothing to append, a prefix that stops after the host so ends in
/// exactly one slash.
pub open spec fn endpoint_url(prefix: Seq<char>, extension: Seq<Seq<char>>) -> Result<
    Seq<char>,
    ProcessingErrorView,
> {
    match url_parse(prefix) {
        Err(why) => Err(ProcessingErrorView::UrlParseFailure(invalid_prefix_message(why))),
        Ok(url) => if url.cannot_be_a_base {
            Err(ProcessingErrorView::UrlParseFailure(cannot_be_base_message()))
        } else {
            Ok(url.with_path(endpoint_path(url.path)).extended(extension).text())
        },
    }
}

/// Whether the `url` crate can hold the endpoint: it indexes a serialization
/// with 32 bits. The slash of an empty path is counted like a segment.
pub open spec fn endpoint_fits(prefix: Seq<char>, extension: Seq<Seq<char>>) -> bool {
    match url_parse(prefix) {
        Ok(url) => url.cannot_be_a_base || url.byte_len() + segments_room(extension) + 2
            <= URL_BYTES_MAX,
        Err(_) => true,
    }
}

/// Trying to drop a trailing slash that is not there changes nothing, however
/// often it is tried.
pub proof fn lemma_drop_trailing_settled(path: Seq<char>, n: nat)
    requires
        pop_trailing_slash(path) == path,
    ensures
        drop_trailing(path, n) == path,
    decreases n,
{
    if n > 0 {
        lemma_drop_trailing_settled(path, (n - 1) as nat);
    }
}

/// As many attempts as the path has slashes drop every trailing slash.
pub proof fn lemma_drop_trailing_strips(path: Seq<char>, n: nat)
    requires
        n >= slash_count(path),
    ensures
        drop_trailing(path, n) == strip_trailing_slashes(path),
    decreases n,
{
    if path.len() > 1 && path.last() == '/' {
        lemma_drop_trailing_strips(path.drop_last(), (n - 1) as nat);
    } else {
        lemma_drop_trailing_settled(path, n);
    }
}

/// Slashes part a text into one piece more than there are slashes.
pub proof fn lemma_pieces_count(text: Seq<char>)
    ensures
        split_at_slashes(text).len() == slash_count(text) + 1,
    decreases text.len(),
{
    if text.len() > 0 {
        lemma_pieces_count(text.drop_last());
    }
}

/// The slashes of a text are those of its first character and those of the
/// rest.
pub proof fn lemma_slash_count_from_the_front(text: Seq<char>)
    requires
        text.len() > 0,
    ensures
        slash_count(text) == slash_count(text.skip(1)) + if text[0] == '/' {
            1nat
        } else {
            0nat
        },
    decreases text.len(),
{
    if text.len() == 1 {
        assert(text.drop_last() =~= text.skip(1));
    } else {
        lemma_slash_count_from_the_front(text.drop_last());
        assert(text.drop_last().skip(1) =~= text.skip(1).drop_last());
    }
}

/// A path has as many segments as slashes.
pub proof fn lemma_segments_count(path: Seq<char>)
    ensures
        path_segment_count(path) matches Some(count) ==> count == slash_count(path),
{
    if path.len() > 0 && path[0] == '/' {
        lemma_pieces_count(path.skip(1));
        lemma_slash_count_from_the_front(path);
    }
}

/// Stripping settles: a stripped path has no trailing slash left to drop,
/// and a path that is not empty stays so and keeps its first character.
pub proof fn lemma_strip_settles(path: Seq<char>)
    ensures
        pop_trailing_slash(strip_trailing_slashes(path)) == strip_trailing_slashes(path),
        strip_trailing_slashes(path).len() <= path.len(),
        path.len() > 0 ==> strip_trailing_slashes(path).len() > 0 && strip_trailing_slashes(
            path,
        )[0] == path[0],
    decreases path.len(),
{
    if path.len() > 1 && path.last() == '/' {
        lemma_strip_settles(path.drop_last());
    }
}

/// `n` slashes in a row.
pub open spec fn slashes(n: nat) -> Seq<char> {
    Seq::new(n, |i: int| '/')
}

/// Slashes behind a path that is not empty are stripped with its own.
pub proof fn lemma_strip_ignores_more_slashes(path: Seq<char>, n: nat)
    requires
        path.len() > 0,
    ensures
        strip_trailing_slashes(path + slashes(n)) == strip_trailing_slashes(path),
    decreases n,
{
    if n == 0 {
        assert(path + slashes(0) == path);
    } else {
        let longer = path + slashes(n);
        assert(longer.drop_last() == path + slashes((n - 1) as nat));
        lemma_strip_ignores_more_slashes(path, (n - 1) as nat);
    }
}

/// Of nothing but slashes the path of an endpoint keeps one.
pub proof fn lemma_slashes_leave_the_root(n: nat)
    requires
        n >= 1,
    ensures
        endpoint_path(slashes(n)) == seq!['/'],
{
    assert(seq!['/'] + slashes((n - 1) as nat) =~= slashes(n));
    lemma_strip_ignores_more_slashes(seq!['/'], (n - 1) as nat);
}

/// With nothing to append, a prefix that is the serialization of a URL
/// comes back as it is, provided its path is `/` or ends in a segment that
/// is not empty. (A slash behind a segment is a trailing empty segment, and
/// is dropped; an empty path gets its slash.)
pub proof fn lemma_empty_extension_keeps_the_prefix(prefix: Seq<char>, url: UrlParts)
    requires
        url_parse(prefix) == Ok::<UrlParts, Seq<char>>(url),
        url.text() == prefix,
        !url.cannot_be_a_base,
        url.path.len() > 0,
        url.path.len() == 1 || url.path.last() != '/',
    ensures
        endpoint_url(prefix, Seq::empty()) == Ok::<Seq<char>, ProcessingErrorView>(prefix),
{
}

/// With nothing to append, a prefix that stops after the host comes back
/// with exactly one slash behind it, whether or not the parser gave it the
/// root path already.
pub proof fn lemma_empty_extension_ends_host_with_slash(prefix: Seq<char>, url: UrlParts)
    requires
        url_parse(prefix) == Ok::<UrlParts, Seq<char>>(url),
        !url.cannot_be_a_base,
        url.before_path == prefix,
        url.path.len() == 0 || url.path == seq!['/'],
        url.after_path.len() == 0,
    ensures
        endpoint_url(prefix, Seq::empty()) == Ok::<Seq<char>, ProcessingErrorView>(
            prefix + seq!['/'],
        ),
{
    assert(prefix + seq!['/'] + url.after_path =~= prefix + seq!['/']);
}

/// Slashes behind a prefix change nothing. They are meant to stand behind
/// the path: either behind the path as it is parsed without them, or, where
/// the parser gives a prefix that stops after the host the root path, in
/// place of that one slash. A path that is not empty starts with a slash,
/// as the path of every URL that can be a base does.
pub proof fn lemma_trailing_slashes_change_nothing(
    prefix: Seq<char>,
    n: nat,
    extension: Seq<Seq<char>>,
    url: UrlParts,
)
    requires
        n >= 1,
        url_parse(prefix) == Ok::<UrlParts, Seq<char>>(url),
        url.path.len() > 0 ==> url.path[0] == '/',
        url_parse(prefix + slashes(n)) == Ok::<UrlParts, Seq<char>>(
            url.with_path(url.path + slashes(n)),
        ) || (url.path == seq!['/'] && url_parse(prefix + slashes(n)) == Ok::<
            UrlParts,
            Seq<char>,
        >(url.with_path(slashes(n)))),
    ensures
        endpoint_url(prefix + slashes(n), extension) == endpoint_url(prefix, extension),
{
    lemma_slashes_leave_the_root(n);
    if url.path.len() > 0 {
        lemma_strip_ignores_more_slashes(url.path, n);
    } else {
        assert(url.path + slashes(n) =~= slashes(n));
    }
}

/// The number of segments of the path of `url`; none where the path does not
/// start with a slash.
pub fn _get_segments_count(url: &Url) -> (n: usize)
    ensures
        n == match path_segment_count(url_path(*url)) {
            Some(count) => count,
            None => 0,
        },
{
    match segments_of_path(url) {
        Some(segments) => segments.len(),
        None => 0,
    }
}

/// Gives an empty path its slash.
pub fn _root_empty_path(url: Url) -> (rooted: Url)
    requires
        !url_cannot_be_a_base(url),
        byte_len(url_text(url)) + 2 <= URL_BYTES_MAX,
    ensures
        !url_cannot_be_a_base(rooted),
        url_parts(rooted) == url_parts(url).with_path(
            if url_path(url).len() == 0 {
                seq!['/']
            } else {
                url_path(url)
            },
        ),
        byte_len(url_text(rooted)) <= byte_len(url_text(url)) + 2,
{
    let mut url = url;
    if url.path().is_empty() {
        proof {
            reveal_strlit("");
            vstd::utf8::is_ascii_chars_encode_utf8(""@);
        }
        push_path_segment(&mut url, "");
    }
    url
}

/// Tries `n` times to drop a trailing slash from the path of `url`.
pub fn _drop_n_trailing_slashes(url: Url, n: usize) -> (r: Result<Url, ProcessingError>)
    requires
        url_cannot_be_a_base(url) || byte_len(url_text(url)) <= URL_BYTES_MAX,
    ensures
        match r {
            Ok(dropped) => !url_cannot_be_a_base(url) && url_parts(dropped) == url_parts(
                url,
            ).with_path(drop_trailing(url_path(url), n as nat)) && byte_len(url_text(dropped))
                <= byte_len(url_text(url)),
            Err(e) => url_cannot_be_a_base(url) && e@ == ProcessingErrorView::UrlParseFailure(
                cannot_be_base_message(),
            ),
        },
{
    if url.cannot_be_a_base() {
        return Err(
            ProcessingError::UrlParseFailure(
                "Endpoint prefix might be a cannot-be-base URL:\n()".to_owned(),
            ),
        );
    }
    let ghost start = url;
    let mut url = url;
    let mut i: usize = 0;
    while i < n
        invariant
            i <= n,
            !url_cannot_be_a_base(url),
            byte_len(url_text(url)) <= byte_len(url_text(start)) <= URL_BYTES_MAX,
            url_parts(url) == url_parts(start).with_path(url_path(url)),
            drop_trailing(url_path(url), (n - i) as nat) == drop_trailing(
                url_path(start),
                n as nat,
            ),
        decreases n - i,
    {
        pop_path_if_empty(&mut url);
        i = i + 1;
    }
    Ok(url)
}

/// Appends the segments of `path_extension` to the path of `url`, in order.
pub fn _append_to_path(url: Url, path_extension: &Vec<String>) -> (r: Result<
    Url,
    ProcessingError,
>)
    requires
        url_cannot_be_a_base(url) || byte_len(url_text(url)) + segments_room(
            texts(path_extension@),
        ) <= URL_BYTES_MAX,
    ensures
        match r {
            Ok(extended) => !url_cannot_be_a_base(url) && url_parts(extended) == url_parts(
                url,
            ).extended(texts(path_extension@)),
            Err(e) => url_cannot_be_a_base(url) && e@ == ProcessingErrorView::UrlParseFailure(
                cannot_be_base_message(),
            ),
        },
{
    if url.cannot_be_a_base() {
        return Err(
            ProcessingError::UrlParseFailure(
                "Endpoint prefix might be a cannot-be-base URL:\n()".to_owned(),
            ),
        );
    }
    let mut url = url;
    extend_path(&mut url, path_extension);
    Ok(url)
}

/// Extends the endpoint `endpoint_prefix` by the path segments of
/// `path_extension`.
pub fn construct_endpoint_url(endpoint_prefix: &str, path_extension: &Vec<String>) -> (r: Result<
    String,
    ProcessingError,
>)
    requires
        endpoint_fits(endpoint_prefix@, texts(path_extension@)),
    ensures
        result_view(r) == endpoint_url(endpoint_prefix@, texts(path_extension@)),
{
    let begin_url = match parse_url(endpoint_prefix) {
        Ok(url) => url,
        Err(why) => {
            let mut message = "Endpoint prefix may not be valid url:\n".to_owned();
            message.append(why.as_str());
            return Err(ProcessingError::UrlParseFailure(message));
        },
    };
    let n = _get_segments_count(&begin_url);
    proof {
        lemma_segments_count(url_path(begin_url));
        lemma_strip_settles(url_path(begin_url));
        if path_segment_count(url_path(begin_url)) is Some {
            lemma_drop_trailing_strips(url_path(begin_url), n as nat);
        }
    }
    let dropped = match _drop_n_trailing_slashes(begin_url, n) {
        Ok(url) => url,
        Err(e) => {
            return Err(e);
        },
    };
    let rooted = _root_empty_path(dropped);
    let extended = match _append_to_path(rooted, path_extension) {
        Ok(url) => url,
        Err(e) => {
            return Err(e);
        },
    };
    Ok(extended.as_str().to_owned())
}

/// The room of the first segments is within the room of all of them.
pub proof fn lemma_segments_room_grows(segments: Seq<Seq<char>>, k: int)
    requires
        0 <= k <= segments.len(),
    ensures
        segments_room(segments.take(k)) <= segments_room(segments),
    decreases segments.len(),
{
    if k < segments.len() {
        lemma_segments_room_grows(segments.drop_last(), k);
        assert(segments.drop_last().take(k) == segments.take(k));
    } else {
        assert(segments.take(k) == segments);
    }
}

/// The room that `segments` may take in a URL, where the `url` crate can hold
/// that much.
fn room_for(segments: &Vec<String>) -> (room: Option<usize>)
    ensures
        match room {
            Some(bytes) => bytes == segments_room(texts(segments@)) && bytes <= URL_BYTES_MAX,
            None => segments_room(texts(segments@)) > URL_BYTES_MAX,
        },
{
    let mut total: usize = 0;
    let mut i: usize = 0;
    while i < segments.len()
        invariant
            i <= segments.len(),
            total == segments_room(texts(segments@).take(i as int)),
            total <= URL_BYTES_MAX,
        decreases segments.len() - i,
    {
        let bytes = byte_count(segments[i].as_str());
        let left = URL_BYTES_MAX - total;
        proof {
            let all = texts(segments@);
            assert(all.take(i + 1).drop_last() == all.take(i as int));
            assert(all.take(i + 1).last() == segments@[i as int]@);
            lemma_segments_room_grows(all, i + 1);
        }
        if left < 2 || bytes > (left - 2) / 3 {
            return None;
        }
        total = total + 3 * bytes + 2;
        i = i + 1;
    }
    assert(texts(segments@).take(segments.len() as int) == texts(segments@));
    Some(total)
}

/// Extends the endpoint `endpoint_prefix` by the path segments of
/// `path_extension`, unless the address could outgrow what the `url` crate
/// can hold: then there is no answer.
pub fn checked_construct_endpoint_url(endpoint_prefix: &str, path_extension: &Vec<String>) -> (r:
    Option<Result<String, ProcessingError>>)
    ensures
        r is Some <==> endpoint_fits(endpoint_prefix@, texts(path_extension@)),
        r matches Some(built) ==> result_view(built) == endpoint_url(
            endpoint_prefix@,
            texts(path_extension@),
        ),
{
    let mut fits = true;
    if let Ok(url) = parse_url(endpoint_prefix) {
        if !url.cannot_be_a_base() {
            let bytes = byte_count(url.as_str());
            fits = match room_for(path_extension) {
                Some(room) => room <= URL_BYTES_MAX - 2 && bytes <= URL_BYTES_MAX - 2 - room,
                None => false,
            };
        }
    }
    if fits {
        Some(construct_endpoint_url(endpoint_prefix, path_extension))
    } else {
        None
    }
}

} // verus!
