//! The rules of the HLS file server: every URL is under an unguessable
//! per-session token (`/<token>/<file>`) and anything else is refused, so
//! other hosts on the LAN cannot pull the stream even though the socket is
//! bound to all interfaces. Only plain file names inside the session
//! directory are served - no subdirectories. Playlists get a start tag so
//! players begin close to the live edge.

use vstd::prelude::*;

use crate::text::{chars_of, hex, occurs, occurs_at, push_hex, str_equal};
use vstd::string::StringSliceAdditionalSpecFns;

verus! {

/// The URL path with every leading `/` removed.
pub open spec fn without_leading_slashes(url: Seq<char>) -> Seq<char>
    decreases url.len(),
{
    if url.len() > 0 && url[0] == '/' {
        without_leading_slashes(url.drop_first())
    } else {
        url
    }
}

/// The index of the first `/` in `s`, if any.
pub open spec fn first_slash(s: Seq<char>) -> Option<int> {
    if exists|i: int| 0 <= i < s.len() && s[i] == '/' {
        Some(
            choose|i: int|
                0 <= i < s.len() && s[i] == '/' && forall|j: int| 0 <= j < i ==> s[j] != '/',
        )
    } else {
        None
    }
}

/// The file a `/<token>/<file>` request URL asks for: `None` if the token is
/// wrong, or the file name is empty or unsafe (holds `/` or `..`).
pub open spec fn spec_file_after_token(url: Seq<char>, token: Seq<char>) -> Option<Seq<char>> {
    let path = without_leading_slashes(url);
    match first_slash(path) {
        None => None,
        Some(i) => {
            let tok = path.take(i);
            let name = path.skip(i + 1);
            if tok != token || name.len() == 0 || name.contains('/') || occurs(name, ".."@) {
                None
            } else {
                Some(name)
            }
        },
    }
}

proof fn lemma_first_slash(s: Seq<char>, i: int)
    requires
        0 <= i < s.len(),
        s[i] == '/',
        forall|j: int| 0 <= j < i ==> s[j] != '/',
    ensures
        first_slash(s) == Some(i),
{
    let k = choose|k: int|
        0 <= k < s.len() && s[k] == '/' && forall|j: int| 0 <= j < k ==> s[j] != '/';
    assert(0 <= k < s.len() && s[k] == '/' && forall|j: int| 0 <= j < k ==> s[j] != '/');
    if k < i {
        assert(s[k] != '/');
    }
    if i < k {
        assert(s[i] != '/');
    }
}

/// The file name in a `/<token>/<file>` request URL, or `None` if the token is
/// wrong or the file name is empty or unsafe (contains `/` or `..`).
pub fn file_after_token<'a>(url: &'a str, token: &str) -> (r: Option<&'a str>)
    ensures
        match spec_file_after_token(url@, token@) {
            Some(name) => r is Some && r->0@ == name,
            None => r is None,
        },
{
    let chars = chars_of(url);
    let n = chars.len();
    let mut start: usize = 0;
    assert(url@.skip(0) == url@);
    while start < n && chars[start] == '/'
        invariant
            start <= n,
            n == chars@.len(),
            chars@ == url@,
            without_leading_slashes(url@) == without_leading_slashes(url@.skip(start as int)),
        decreases n - start,
    {
        assert(url@.skip(start as int).drop_first() == url@.skip(start + 1));
        start += 1;
    }
    let ghost path = url@.skip(start as int);
    assert(without_leading_slashes(path) == path);
    let mut slash = start;
    while slash < n && chars[slash] != '/'
        invariant
            start <= slash <= n,
            n == chars@.len(),
            chars@ == url@,
            path == url@.skip(start as int),
            forall|j: int| start <= j < slash ==> url@[j] != '/',
        decreases n - slash,
    {
        slash += 1;
    }
    if slash == n {
        assert forall|j: int| 0 <= j < path.len() implies path[j] != '/' by {
            assert(path[j] == url@[start + j]);
        }
        return None;
    }
    proof {
        assert forall|j: int| 0 <= j < slash - start implies path[j] != '/' by {
            assert(path[j] == url@[start + j]);
        }
        assert(path[slash - start] == url@[slash as int]);
        lemma_first_slash(path, slash - start);
    }
    let ghost tok = path.take(slash - start);
    let ghost name = path.skip(slash - start + 1);
    let token_chars = chars_of(token);
    let tok_chars = crate::text::slice_chars(chars.as_slice(), start, slash);
    assert(tok_chars@ == tok);
    let name_chars = crate::text::slice_chars(chars.as_slice(), slash + 1, n);
    assert(name_chars@ == name);
    if !crate::text::chars_equal(tok_chars.as_slice(), token_chars.as_slice()) {
        return None;
    }
    if name_chars.len() == 0 {
        return None;
    }
    let ghost expected = if name_chars@.contains('/') || occurs(name_chars@, ".."@) {
        None
    } else {
        Some(name_chars@)
    };
    assert(spec_file_after_token(url@, token@) == expected);
    let mut i: usize = 0;
    while i < name_chars.len()
        invariant
            i <= name_chars@.len(),
            spec_file_after_token(url@, token@) == expected,
            expected == (if name_chars@.contains('/') || occurs(name_chars@, ".."@) {
                None
            } else {
                Some(name_chars@)
            }),
            forall|j: int| 0 <= j < i ==> name_chars@[j] != '/',
        decreases name_chars@.len() - i,
    {
        if name_chars[i] == '/' {
            assert(name_chars@.contains('/'));
            return None;
        }
        i += 1;
    }
    let dots = chars_of("..");
    if crate::text::chars_contain(name_chars.as_slice(), dots.as_slice()) {
        return None;
    }
    Some(url.substring_char(slash + 1, n))
}

/// The bytes of `s`.
pub open spec fn bytes_of(s: &str) -> Seq<u8> {
    s.spec_bytes()
}

/// Whether `pattern` occurs in `data` starting at `at`.
fn bytes_occur_at(data: &[u8], pattern: &[u8], at: usize) -> (r: bool)
    ensures
        r == occurs_at(data@, pattern@, at as int),
{
    if at > data.len() || pattern.len() > data.len() - at {
        return false;
    }
    let mut i: usize = 0;
    while i < pattern.len()
        invariant
            i <= pattern@.len(),
            at + pattern.len() <= data.len(),
            forall|j: int| 0 <= j < i ==> data@[at + j] == pattern@[j],
        decreases pattern@.len() - i,
    {
        if data[at + i] != pattern[i] {
            assert(data@.subrange(at as int, at + pattern@.len())[i as int] != pattern@[i as int]);
            return false;
        }
        i += 1;
    }
    assert(data@.subrange(at as int, at + pattern@.len()) =~= pattern@);
    true
}

/// The first index at which `pattern` occurs in `data`, if any.
fn bytes_find(data: &[u8], pattern: &[u8]) -> (r: Option<usize>)
    ensures
        match r {
            Some(at) => occurs_at(data@, pattern@, at as int) && forall|j: int|
                0 <= j < at ==> !#[trigger] occurs_at(data@, pattern@, j),
            None => !occurs(data@, pattern@),
        },
{
    let mut at: usize = 0;
    loop
        invariant
            at <= data.len(),
            forall|j: int| 0 <= j < at ==> !#[trigger] occurs_at(data@, pattern@, j),
        ensures
            forall|j: int| 0 <= j <= data@.len() ==> !#[trigger] occurs_at(data@, pattern@, j),
        decreases data@.len() - at,
    {
        if bytes_occur_at(data, pattern, at) {
            return Some(at);
        }
        if at == data.len() {
            break ;
        }
        at += 1;
    }
    assert forall|j: int| !occurs_at(data@, pattern@, j) by {
        if 0 <= j <= data@.len() {
        }
    }
    None
}

/// The first index at or after `from` at which `pattern` occurs in `data`.
pub open spec fn find_from(data: Seq<u8>, pattern: Seq<u8>, from: int) -> Option<int>
    decreases data.len() + 1 - from,
{
    if from < 0 || from > data.len() {
        None
    } else if occurs_at(data, pattern, from) {
        Some(from)
    } else {
        find_from(data, pattern, from + 1)
    }
}

/// The first index at which `pattern` occurs in `data`, if any.
pub open spec fn first_occurrence(data: Seq<u8>, pattern: Seq<u8>) -> Option<int> {
    find_from(data, pattern, 0)
}

proof fn lemma_find_from(data: Seq<u8>, pattern: Seq<u8>, from: int)
    requires
        0 <= from,
        forall|j: int| 0 <= j < from ==> !#[trigger] occurs_at(data, pattern, j),
    ensures
        match find_from(data, pattern, from) {
            Some(i) => occurs_at(data, pattern, i) && forall|j: int|
                0 <= j < i ==> !#[trigger] occurs_at(data, pattern, j),
            None => forall|j: int| 0 <= j ==> !#[trigger] occurs_at(data, pattern, j),
        },
    decreases data.len() + 1 - from,
{
    if from > data.len() {
        assert forall|j: int| 0 <= j implies !#[trigger] occurs_at(data, pattern, j) by {
            if j >= from {
            }
        }
    } else if !occurs_at(data, pattern, from) {
        lemma_find_from(data, pattern, from + 1);
    }
}

/// Whether `bytes` is valid UTF-8.
///
/// Calls `std::str::from_utf8`, which the standard library documents as
/// succeeding exactly on valid UTF-8; the contract states that through
/// vstd's definition of valid UTF-8.
#[verifier::external_body]
fn is_utf8(bytes: &[u8]) -> (r: bool)
    ensures
        r == vstd::utf8::valid_utf8(bytes@),
{
    std::str::from_utf8(bytes).is_ok()
}

/// The tag that tells a player where in a live playlist to start.
pub open spec fn start_tag() -> Seq<u8> {
    bytes_of("#EXT-X-START")
}

/// The playlist header.
pub open spec fn playlist_header() -> Seq<u8> {
    bytes_of("#EXTM3U")
}

/// The header followed by a start tag two seconds from the live edge.
pub open spec fn header_with_start_tag() -> Seq<u8> {
    bytes_of("#EXTM3U\n#EXT-X-START:TIME-OFFSET=-2.0,PRECISE=NO")
}

/// A playlist with a start tag two seconds from the live edge inserted after
/// its header, unless it is not text or already has a start tag (or has no
/// header).
pub open spec fn spec_inject_start_tag(data: Seq<u8>) -> Seq<u8> {
    if !vstd::utf8::valid_utf8(data) || occurs(data, start_tag()) {
        data
    } else {
        match first_occurrence(data, playlist_header()) {
            Some(i) => data.take(i) + header_with_start_tag() + data.skip(
                i + playlist_header().len(),
            ),
            None => data,
        }
    }
}

/// Tells the player to start 2s from the live edge. Without this, HLS players
/// pick their own live offset (3 target durations or more, measured from
/// when they *parse* the playlist), which is where most of the glass-to-glass
/// lag comes from.
pub fn inject_start_tag(data: Vec<u8>) -> (r: Vec<u8>)
    ensures
        r@ == spec_inject_start_tag(data@),
{
    if !is_utf8(data.as_slice()) {
        return data;
    }
    let tag = "#EXT-X-START".as_bytes();
    if bytes_find(data.as_slice(), tag).is_some() {
        return data;
    }
    let header = "#EXTM3U".as_bytes();
    let replacement = "#EXTM3U\n#EXT-X-START:TIME-OFFSET=-2.0,PRECISE=NO".as_bytes();
    match bytes_find(data.as_slice(), header) {
        None => {
            proof {
                lemma_find_from(data@, header@, 0);
            }
            data
        },
        Some(at) => {
            proof {
                lemma_find_from(data@, header@, 0);
                if first_occurrence(data@, header@) != Some(at as int) {
                    let i = first_occurrence(data@, header@)->0;
                    if i < at {
                    } else {
                        assert(!occurs_at(data@, header@, at as int));
                    }
                }
            }
            let mut out: Vec<u8> = Vec::new();
            let mut i: usize = 0;
            while i < at
                invariant
                    i <= at,
                    at + header@.len() <= data@.len(),
                    out@ == data@.take(i as int),
                decreases at - i,
            {
                out.push(data[i]);
                assert(data@.take(i + 1) == data@.take(i as int).push(data@[i as int]));
                i += 1;
            }
            let mut j: usize = 0;
            while j < replacement.len()
                invariant
                    j <= replacement@.len(),
                    at + header.len() <= data.len(),
                    out@ == data@.take(at as int) + replacement@.take(j as int),
                decreases replacement@.len() - j,
            {
                out.push(replacement[j]);
                assert(replacement@.take(j + 1) == replacement@.take(j as int).push(
                    replacement@[j as int],
                ));
                j += 1;
            }
            assert(replacement@.take(replacement@.len() as int) == replacement@);
            let mut k: usize = at + header.len();
            while k < data.len()
                invariant
                    at + header@.len() <= k <= data@.len(),
                    out@ == data@.take(at as int) + replacement@ + data@.subrange(
                        at + header@.len(),
                        k as int,
                    ),
                decreases data@.len() - k,
            {
                out.push(data[k]);
                assert(data@.subrange(at + header@.len(), k + 1) == data@.subrange(
                    at + header@.len(),
                    k as int,
                ).push(data@[k as int]));
                k += 1;
            }
            assert(data@.subrange(at + header@.len(), data@.len() as int) == data@.skip(
                at + header@.len(),
            ));
            out
        },
    }
}

/// Where the last segment of `path` starts: just after its last `/`, or 0.
pub open spec fn segment_start(path: Seq<char>) -> int
    decreases path.len(),
{
    if path.len() == 0 {
        0
    } else if path.last() == '/' {
        path.len() as int
    } else {
        segment_start(path.drop_last())
    }
}

/// The final component of a Unix path, as `std::path::Path::file_name`
/// documents it: trailing `/` and `.` components are ignored; the name is
/// the last remaining segment, unless there is none (an empty or root path)
/// or it is `..`.
pub open spec fn spec_file_name(path: Seq<char>) -> Option<Seq<char>>
    decreases path.len(),
{
    if path.len() == 0 {
        None
    } else if path.last() == '/' {
        spec_file_name(path.drop_last())
    } else {
        let start = segment_start(path);
        let segment = path.subrange(start, path.len() as int);
        if 0 <= start < path.len() && segment == "."@ {
            spec_file_name(path.take(start))
        } else if segment == ".."@ {
            None
        } else {
            Some(segment)
        }
    }
}

proof fn lemma_segment_start(path: Seq<char>)
    ensures
        0 <= segment_start(path) <= path.len(),
        forall|j: int| segment_start(path) <= j < path.len() ==> path[j] != '/',
        segment_start(path) > 0 ==> path[segment_start(path) - 1] == '/',
        path.len() > 0 && path.last() != '/' ==> segment_start(path) < path.len(),
    decreases path.len(),
{
    if path.len() > 0 && path.last() != '/' {
        let rest = path.drop_last();
        lemma_segment_start(rest);
        assert forall|j: int| segment_start(path) <= j < path.len() implies path[j] != '/' by {
            if j < rest.len() {
                assert(rest[j] == path[j]);
            }
        }
        if segment_start(path) > 0 {
            assert(rest[segment_start(path) - 1] == path[segment_start(path) - 1]);
        }
    }
}

/// Whether `chars[start..end]` is exactly `word`.
fn segment_is(chars: &[char], start: usize, end: usize, word: &str) -> (r: bool)
    requires
        start <= end <= chars@.len(),
    ensures
        r == (chars@.subrange(start as int, end as int) == word@),
{
    let segment = crate::text::slice_chars(chars, start, end);
    let w = chars_of(word);
    crate::text::chars_equal(segment.as_slice(), w.as_slice())
}

/// The final component of `path`.
fn file_name(path: &str) -> (r: Option<&str>)
    ensures
        match spec_file_name(path@) {
            Some(name) => r is Some && r->0@ == name,
            None => r is None,
        },
{
    let chars = chars_of(path);
    let mut end: usize = chars.len();
    assert(chars@.take(end as int) =~= path@);
    loop
        invariant
            end <= chars@.len(),
            chars@ == path@,
            spec_file_name(path@) == spec_file_name(chars@.take(end as int)),
        decreases end,
    {
        let ghost prefix = chars@.take(end as int);
        if end == 0 {
            return None;
        }
        if chars[end - 1] == '/' {
            assert(prefix.drop_last() =~= chars@.take(end - 1));
            end = end - 1;
        } else {
            proof {
                lemma_segment_start(prefix);
            }
            let mut start = end;
            while start > 0 && chars[start - 1] != '/'
                invariant
                    start <= end <= chars@.len(),
                    prefix == chars@.take(end as int),
                    forall|j: int| start <= j < end ==> chars@[j] != '/',
                    segment_start(prefix) <= start,
                    end > 0 && prefix.last() != '/',
                    0 <= segment_start(prefix) <= prefix.len(),
                    forall|j: int| segment_start(prefix) <= j < prefix.len() ==> prefix[j] != '/',
                    segment_start(prefix) > 0 ==> prefix[segment_start(prefix) - 1] == '/',
                decreases start,
            {
                start = start - 1;
            }
            assert(start == segment_start(prefix)) by {
                if start > segment_start(prefix) {
                    assert(chars@[start - 1] == '/');
                    assert(prefix[start - 1] == '/');
                }
            }
            assert(prefix.subrange(start as int, end as int) =~= chars@.subrange(
                start as int,
                end as int,
            ));
            if segment_is(chars.as_slice(), start, end, ".") {
                assert(prefix.take(start as int) =~= chars@.take(start as int));
                end = start;
            } else if segment_is(chars.as_slice(), start, end, "..") {
                return None;
            } else {
                return Some(path.substring_char(start, end));
            }
        }
    }
}

/// The index of the last `.` in `s`, if any.
pub open spec fn last_dot(s: Seq<char>) -> Option<int> {
    if exists|i: int| 0 <= i < s.len() && s[i] == '.' {
        Some(
            choose|i: int|
                0 <= i < s.len() && s[i] == '.' && forall|j: int| i < j < s.len() ==> s[j] != '.',
        )
    } else {
        None
    }
}

proof fn lemma_last_dot(s: Seq<char>, i: int)
    requires
        0 <= i < s.len(),
        s[i] == '.',
        forall|j: int| i < j < s.len() ==> s[j] != '.',
    ensures
        last_dot(s) == Some(i),
{
    let k = choose|k: int|
        0 <= k < s.len() && s[k] == '.' && forall|j: int| k < j < s.len() ==> s[j] != '.';
    assert(0 <= k < s.len() && s[k] == '.' && forall|j: int| k < j < s.len() ==> s[j] != '.');
    if k < i {
        assert(s[i] != '.');
    }
    if i < k {
        assert(s[k] != '.');
    }
}

/// The extension of the file name `name`: what follows its last `.`, or
/// `None` when it has no `.`, when its only `.` is its first character, or
/// when it is `..`.
pub open spec fn spec_extension(name: Seq<char>) -> Option<Seq<char>> {
    if name == ".."@ {
        None
    } else {
        match last_dot(name) {
            None => None,
            Some(i) => if i == 0 {
                None
            } else {
                Some(name.skip(i + 1))
            },
        }
    }
}

/// The extension of the file name `name`.
pub fn extension(name: &str) -> (r: Option<Vec<char>>)
    ensures
        match spec_extension(name@) {
            Some(ext) => r is Some && r->0@ == ext,
            None => r is None,
        },
{
    if str_equal(name, "..") {
        return None;
    }
    let chars = chars_of(name);
    let mut i = chars.len();
    while i > 0
        invariant
            i <= chars@.len(),
            chars@ == name@,
            name@ != ".."@,
            forall|j: int| i <= j < chars@.len() ==> chars@[j] != '.',
        decreases i,
    {
        if chars[i - 1] == '.' {
            proof {
                lemma_last_dot(name@, i - 1);
            }
            if i - 1 == 0 {
                return None;
            }
            let ext = crate::text::slice_chars(chars.as_slice(), i, chars.len());
            assert(ext@ == name@.skip(i as int));
            return Some(ext);
        }
        i -= 1;
    }
    None
}

/// The extension of the path `name`.
pub open spec fn path_extension(name: Seq<char>) -> Option<Seq<char>> {
    match spec_file_name(name) {
        Some(file) => spec_extension(file),
        None => None,
    }
}

/// Whether the path `name` has the extension `ext`.
pub fn has_extension(name: &str, ext: &str) -> (r: bool)
    ensures
        r == (path_extension(name@) == Some(ext@)),
{
    match file_name(name) {
        Some(file) => match extension(file) {
            Some(found) => {
                let wanted = chars_of(ext);
                crate::text::chars_equal(found.as_slice(), wanted.as_slice())
            },
            None => false,
        },
        None => false,
    }
}

/// The content type a file is served with, by its extension.
pub open spec fn spec_content_type(ext: Option<Seq<char>>) -> Seq<char> {
    match ext {
        Some(e) => if e == "m3u8"@ {
            "application/vnd.apple.mpegurl"@
        } else if e == "ts"@ {
            "video/mp2t"@
        } else {
            "application/octet-stream"@
        },
        None => "application/octet-stream"@,
    }
}

/// The content type a file is served with.
pub fn content_type(name: &str) -> (r: &'static str)
    ensures
        r@ == spec_content_type(path_extension(name@)),
{
    match file_name(name) {
        Some(file) => match extension(file) {
            Some(found) => {
                let m3u8 = chars_of("m3u8");
                let ts = chars_of("ts");
                if crate::text::chars_equal(found.as_slice(), m3u8.as_slice()) {
                    "application/vnd.apple.mpegurl"
                } else if crate::text::chars_equal(found.as_slice(), ts.as_slice()) {
                    "video/mp2t"
                } else {
                    "application/octet-stream"
                }
            },
            None => "application/octet-stream",
        },
        None => "application/octet-stream",
    }
}

/// The body a file is served with: playlists get their start tag.
pub fn file_body(name: &str, data: Vec<u8>) -> (r: Vec<u8>)
    ensures
        r@ == (if path_extension(name@) == Some("m3u8"@) {
            spec_inject_start_tag(data@)
        } else {
            data@
        }),
{
    if has_extension(name, "m3u8") {
        inject_start_tag(data)
    } else {
        data
    }
}

/// The headers a file is served with: its content type, open to any origin,
/// never cached.
pub fn file_headers(name: &str) -> (r: Vec<(&'static str, &'static str)>)
    ensures
        r@.len() == 3,
        r@[0].0@ == "Content-Type"@,
        r@[0].1@ == spec_content_type(path_extension(name@)),
        r@[1].0@ == "Access-Control-Allow-Origin"@ && r@[1].1@ == "*"@,
        r@[2].0@ == "Cache-Control"@ && r@[2].1@ == "no-cache, no-store"@,
{
    vec![
        ("Content-Type", content_type(name)),
        ("Access-Control-Allow-Origin", "*"),
        ("Cache-Control", "no-cache, no-store"),
    ]
}

/// The URL-path token for `bytes`: 32 lower-case hexadecimal digits.
pub fn token_from_bytes(bytes: [u8; 16]) -> (r: String)
    ensures
        r@ == hex(bytes@),
{
    let mut s = String::new();
    push_hex(&mut s, &bytes);
    assert(s@ == hex(bytes@));
    s
}

/// A random URL-path token guarding the stream so only the Chromecast (which
/// we hand the full URL) can fetch it, even on a shared LAN.
pub fn random_token() -> (r: String)
    ensures
        exists|bytes: Seq<u8>| bytes.len() == 16 && r@ == hex(bytes),
{
    let bytes = crate::random::random_bytes();
    token_from_bytes(bytes)
}


proof fn lemma_start_tag_in_replacement()
    ensures
        start_tag().len() == 12,
        header_with_start_tag().len() >= 20,
        header_with_start_tag().subrange(8, 20) == start_tag(),
{
    reveal_strlit("#EXT-X-START");
    reveal_strlit("#EXTM3U\n#EXT-X-START:TIME-OFFSET=-2.0,PRECISE=NO");
    assert(vstd::string::is_ascii("#EXT-X-START"));
    assert(vstd::string::is_ascii("#EXTM3U\n#EXT-X-START:TIME-OFFSET=-2.0,PRECISE=NO"));
    assert(header_with_start_tag().subrange(8, 20) =~= start_tag());
}

proof fn lemma_first_slash_found(s: Seq<char>)
    requires
        first_slash(s) is Some,
    ensures
        0 <= first_slash(s)->0 < s.len(),
        s[first_slash(s)->0] == '/',
{
    let p = |j: int| 0 <= j < s.len() && s[j] == '/';
    let w = choose|w: int| 0 <= w < s.len() && s[w] == '/';
    assert(p(w));
    crate::text::lemma_least(p, w);
    let m = choose|m: int| 0 <= m <= w && #[trigger] p(m) && forall|j: int| 0 <= j < m ==> !#[trigger] p(j);
    assert(0 <= m < s.len() && s[m] == '/' && forall|j: int| 0 <= j < m ==> s[j] != '/') by {
        assert forall|j: int| 0 <= j < m implies s[j] != '/' by {
            assert(!p(j));
        }
    }
}

/// Adding the start tag is idempotent: a playlist that went through once
/// comes through a second time unchanged, so a tag is never added twice.
pub proof fn lemma_inject_start_tag_idempotent(data: Seq<u8>)
    ensures
        spec_inject_start_tag(spec_inject_start_tag(data)) == spec_inject_start_tag(data),
{
    let once = spec_inject_start_tag(data);
    if once != data {
        let header = playlist_header();
        lemma_find_from(data, header, 0);
        let i = first_occurrence(data, header)->0;
        lemma_start_tag_in_replacement();
        assert(once == data.take(i) + header_with_start_tag() + data.skip(i + header.len()));
        assert(once.subrange(i + 8, i + 20) =~= header_with_start_tag().subrange(8, 20));
        assert(occurs_at(once, start_tag(), i + 8));
    }
}

/// Every file the server hands out was asked for under the session token,
/// and its name is a plain, non-empty file name: no `/`, no `..`.
pub proof fn lemma_only_plain_names_under_the_token(url: Seq<char>, token: Seq<char>)
    ensures
        spec_file_after_token(url, token) matches Some(name) ==> {
            &&& name.len() > 0
            &&& !name.contains('/')
            &&& !occurs(name, ".."@)
            &&& without_leading_slashes(url) == token + seq!['/'] + name
        },
{
    let path = without_leading_slashes(url);
    if first_slash(path) is Some {
        lemma_first_slash_found(path);
        let i = first_slash(path)->0;
        assert(path =~= path.take(i) + seq!['/'] + path.skip(i + 1));
    }
}

} // verus!
