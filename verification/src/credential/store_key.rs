//! The keys under which tokens are kept.
//!
//! An authentication token is kept under the URL of its authentication service, an authorization
//! token under that URL, a slash and the name of a resource: 32 hexadecimal digits, or what starts
//! with `urc-` in entries of an older form.
use vstd::prelude::*;
use vstd::string::*;

use crate::credential::domain;
use crate::text;

verus! {

/// Whether `name` is a resource name of the older form.
pub open spec fn is_legacy(name: Seq<char>) -> bool {
    "urc-"@.is_prefix_of(name)
}

/// Whether `remote` is the key of the service at `auth_url` or of one of its resources.
pub open spec fn is_entry(remote: Seq<char>, auth_url: Seq<char>) -> bool {
    remote == auth_url || {
        let front = auth_url + "/"@;
        front.is_prefix_of(remote) && {
            let name = remote.skip(front.len() as int);
            text::is_hex_id(name) || is_legacy(name)
        }
    }
}

/// Where in the path of a URL the slash before a resource name stands, if there is one.
pub open spec fn separator(path: Seq<char>) -> Option<int> {
    let slash = text::last_occurrence(path, "/"@);
    if slash is Some && text::is_hex_id(path.skip(slash->0 + 1)) {
        slash
    } else {
        text::last_occurrence(path, "/urc-"@)
    }
}

/// The number of bytes of a key before the slash at `at` in its path.
pub open spec fn base_end(store_key: Seq<char>, path: Seq<char>, at: int) -> int {
    text::utf8_len(store_key) + at - path.len()
}

/// Whether a key with this path can be split: a character ends where the resource name is cut off.
pub open spec fn splittable(store_key: Seq<char>, path: Option<Seq<char>>) -> bool {
    match path {
        Some(path) => match separator(path) {
            Some(at) => base_end(store_key, path, at) >= 0 && text::is_boundary(
                store_key,
                base_end(store_key, path, at),
            ),
            None => true,
        },
        None => true,
    }
}

/// The service URL and the resource name of a key with this path; the name is empty where the key
/// has none.
pub open spec fn split(store_key: Seq<char>, path: Option<Seq<char>>) -> (Seq<char>, Seq<char>) {
    match path {
        Some(path) => match separator(path) {
            Some(at) => (
                text::byte_prefix(store_key, base_end(store_key, path, at)),
                path.skip(at + 1),
            ),
            None => (store_key, seq![]),
        },
        None => (store_key, seq![]),
    }
}

/// The path of a key, where the key is a URL.
pub open spec fn path_of(store_key: Seq<char>) -> Option<Seq<char>> {
    match domain::url_parts(store_key) {
        Some(parts) => Some(parts.path),
        None => None,
    }
}

/// Whether `remote` is the key of the service at `auth_url` or of one of its resources.
pub fn is_entry_for_auth_url(remote: &str, auth_url: &str) -> (r: bool)
    ensures
        r == is_entry(remote@, auth_url@),
{
    if text::same_text(remote, auth_url) {
        return true;
    }
    let mut front = auth_url.to_owned();
    front.append("/");
    match text::strip_prefix(remote, front.as_str()) {
        Some(name) => text::hex_id(name.as_str()) || text::starts_with(name.as_str(), "urc-"),
        None => false,
    }
}

fn find_separator(path: &str) -> (at: Option<usize>)
    ensures
        at matches Some(i) ==> separator(path@) == Some(i as int) && i < path@.len(),
        at is None ==> separator(path@) is None,
{
    proof {
        reveal_strlit("/");
        reveal_strlit("/urc-");
    }
    if let Some(slash) = text::rfind(path, "/") {
        let name = text::after(path, slash);
        if text::hex_id(name.as_str()) {
            return Some(slash);
        }
    }
    text::rfind(path, "/urc-")
}

/// The model of an optional path.
pub open spec fn path_view(path: Option<&str>) -> Option<Seq<char>> {
    match path {
        Some(path) => Some(path@),
        None => None,
    }
}

/// Whether a key with this path can be split.
pub fn can_split(store_key: &str, path: Option<&str>) -> (r: bool)
    requires
        path matches Some(path) ==> vstd::utf8::is_ascii_chars(path@),
    ensures
        r == splittable(store_key@, path_view(path)),
{
    if let Some(path) = path {
        if let Some(at) = find_separator(path) {
            proof {
                vstd::utf8::is_ascii_chars_encode_utf8(path@);
            }
            let length = text::byte_len(store_key);
            let cut = text::byte_len(path) - at;
            return length >= cut && store_key.is_char_boundary(length - cut);
        }
    }
    true
}

/// Splits a key into the service URL and the resource name, given the path of the key where it is a
/// URL.
pub fn split_store_key(store_key: &str, path: Option<&str>) -> (parts: (String, String))
    requires
        path matches Some(path) ==> vstd::utf8::is_ascii_chars(path@),
        splittable(store_key@, path_view(path)),
    ensures
        (parts.0@, parts.1@) == split(store_key@, path_view(path)),
{
    if let Some(path) = path {
        if let Some(at) = find_separator(path) {
            proof {
                vstd::utf8::is_ascii_chars_encode_utf8(path@);
            }
            let cut = text::byte_len(path) - at;
            let end: usize = text::byte_len(store_key) - cut;
            return (text::take_bytes(store_key, end), text::after(path, at));
        }
    }
    (store_key.to_owned(), String::new())
}

/// Splits a key into the service URL and the resource name.
pub fn split_remote_resource(store_key: &str) -> (parts: (String, String))
    requires
        splittable(store_key@, path_of(store_key@)),
    ensures
        (parts.0@, parts.1@) == split(store_key@, path_of(store_key@)),
{
    match domain::parse_url(store_key) {
        Some(url) => split_store_key(store_key, Some(url.path.as_str())),
        None => split_store_key(store_key, None),
    }
}

/// Splits a key into the service URL and the resource name, where it can be split.
pub fn try_split_remote_resource(store_key: &str) -> (parts: Option<(String, String)>)
    ensures
        if splittable(store_key@, path_of(store_key@)) {
            parts matches Some(parts) && (parts.0@, parts.1@) == split(
                store_key@,
                path_of(store_key@),
            )
        } else {
            parts is None
        },
{
    let splits = match domain::parse_url(store_key) {
        Some(url) => can_split(store_key, Some(url.path.as_str())),
        None => can_split(store_key, None),
    };
    if splits {
        Some(split_remote_resource(store_key))
    } else {
        None
    }
}

/// Where a key ends with its path as it is written, the two parts of the key, with a slash between
/// them, are the key, and it is an entry of the service that was split off.
pub proof fn split_key_rejoins(front: Seq<char>, path: Seq<char>)
    requires
        vstd::utf8::is_ascii_chars(path),
        separator(path) is Some,
    ensures
        ({
            let store_key = front + path;
            let parts = split(store_key, Some(path));
            &&& splittable(store_key, Some(path))
            &&& store_key == parts.0 + "/"@ + parts.1
            &&& text::is_hex_id(parts.1) || is_legacy(parts.1)
            &&& is_entry(store_key, parts.0)
        }),
{
    reveal_strlit("/");
    reveal_strlit("/urc-");
    reveal_strlit("urc-");
    let store_key = front + path;
    let at = separator(path)->0;
    let name = path.skip(at + 1);
    let base = front + path.take(at);
    text::lemma_last_occurrence(path, "/"@);
    text::lemma_last_occurrence(path, "/urc-"@);
    assert(path[at] == '/') by {
        assert(path.subrange(at, at + 1)[0] == path[at]);
        if text::occurs_at(path, "/urc-"@, at) {
            assert(path.subrange(at, at + 5)[0] == path[at]);
        }
    }
    if !text::is_hex_id(name) {
        assert(text::occurs_at(path, "/urc-"@, at));
        assert forall|i: int| 0 <= i < 4 implies "urc-"@[i] == name[i] by {
            assert(path.subrange(at, at + 5)[i + 1] == name[i]);
        }
        assert(is_legacy(name));
    }
    assert(store_key =~= base + path.skip(at));
    text::lemma_utf8_concat(base, path.skip(at));
    text::lemma_utf8_concat(front, path);
    text::lemma_utf8_concat(front, path.take(at));
    vstd::utf8::is_ascii_chars_encode_utf8(path);
    vstd::utf8::is_ascii_chars_encode_utf8(path.take(at));
    let end = base_end(store_key, path, at);
    assert(end == text::utf8_len(base));
    let bytes = vstd::utf8::encode_utf8(store_key);
    text::lemma_utf8_boundary(base, path.skip(at));
    assert(bytes.subrange(0, end) =~= vstd::utf8::encode_utf8(base));
    vstd::utf8::encode_utf8_decode_utf8(base);
    let parts = split(store_key, Some(path));
    assert(parts.0 == base);
    assert(store_key =~= base + "/"@ + name);
    assert((base + "/"@).is_prefix_of(store_key));
    assert(store_key.skip((base + "/"@).len() as int) =~= name);
}

} // verus!
