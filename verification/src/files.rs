//! Turning a file-manager selection into context: `file://` URIs, percent
//! decoding, and character-bounded truncation.

use vstd::prelude::*;

use crate::capture::spec_non_empty_lines;
use crate::text::{
    chars_of, copy_range, decode_utf8_lossy, split_lines, string_of, trimmed, utf8_lossy, views,
};

verus! {

/// Maximum context text kept from selected files, in characters.
pub const MAX_CONTEXT_CHARS: usize = 32_768;

/// The value of an ASCII hex digit.
pub open spec fn hex_value(byte: u8) -> Option<u8> {
    if 0x30 <= byte <= 0x39 {
        Some((byte - 0x30) as u8)
    } else if 0x61 <= byte <= 0x66 {
        Some((byte - 0x61 + 10) as u8)
    } else if 0x41 <= byte <= 0x46 {
        Some((byte - 0x41 + 10) as u8)
    } else {
        None
    }
}

/// The value of an ASCII hex digit (`0-9`, `a-f`, `A-F`).
pub fn hex_digit(byte: u8) -> (r: Option<u8>)
    ensures
        r == hex_value(byte),
{
    if 0x30 <= byte && byte <= 0x39 {
        Some(byte - 0x30)
    } else if 0x61 <= byte && byte <= 0x66 {
        Some(byte - 0x61 + 10)
    } else if 0x41 <= byte && byte <= 0x46 {
        Some(byte - 0x41 + 10)
    } else {
        None
    }
}

/// The bytes of `b` with each `%XY` (two hex digits) replaced by the byte it
/// encodes; any other byte, and a `%` not followed by two hex digits, is kept.
pub open spec fn spec_percent_bytes(b: Seq<u8>) -> Seq<u8>
    decreases b.len(),
{
    if b.len() == 0 {
        seq![]
    } else if b[0] == 0x25 && 2 < b.len() && hex_value(b[1]) is Some && hex_value(b[2]) is Some {
        seq![(hex_value(b[1])->0 * 16 + hex_value(b[2])->0) as u8] + spec_percent_bytes(b.skip(3))
    } else {
        seq![b[0]] + spec_percent_bytes(b.drop_first())
    }
}

/// Minimal percent-decoding for `file://` URIs: decode `%XY` escapes in the
/// UTF-8 bytes of `text`, then read the bytes back as UTF-8 (lossily).
pub fn percent_decode(text: &str) -> (r: String)
    ensures
        r@ == utf8_lossy(spec_percent_bytes(vstd::utf8::encode_utf8(text@))),
        vstd::utf8::valid_utf8(spec_percent_bytes(vstd::utf8::encode_utf8(text@))) ==> r@
            == vstd::utf8::decode_utf8(spec_percent_bytes(vstd::utf8::encode_utf8(text@))),
{
    let bytes = text.as_bytes();
    let mut out: Vec<u8> = Vec::new();
    let mut index: usize = 0;
    assert(bytes@.skip(0) =~= bytes@);
    while index < bytes.len()
        invariant
            index <= bytes@.len(),
            bytes@ == vstd::utf8::encode_utf8(text@),
            out@ + spec_percent_bytes(bytes@.skip(index as int)) == spec_percent_bytes(bytes@),
        decreases bytes@.len() - index,
    {
        let ghost rest = bytes@.skip(index as int);
        let ghost before = out@;
        if bytes[index] == 0x25 && bytes.len() - index > 2 {
            let high = hex_digit(bytes[index + 1]);
            let low = hex_digit(bytes[index + 2]);
            if let (Some(h), Some(l)) = (high, low) {
                assert(rest.skip(3) =~= bytes@.skip(index + 3));
                out.push(h * 16 + l);
                assert(out@ + spec_percent_bytes(bytes@.skip(index + 3)) =~= before
                    + spec_percent_bytes(rest));
                index += 3;
                continue;
            }
        }
        assert(rest.drop_first() =~= bytes@.skip(index + 1));
        out.push(bytes[index]);
        assert(out@ + spec_percent_bytes(bytes@.skip(index + 1)) =~= before + spec_percent_bytes(
            rest,
        ));
        index += 1;
    }
    assert(bytes@.skip(index as int) =~= Seq::<u8>::empty());
    assert(out@ =~= spec_percent_bytes(bytes@));
    decode_utf8_lossy(out.as_slice())
}

/// The index of the first `c` in `s`, if any.
pub open spec fn first_index_of(s: Seq<char>, c: char) -> Option<int>
    decreases s.len(),
{
    if s.len() == 0 {
        None
    } else if s[0] == c {
        Some(0)
    } else {
        match first_index_of(s.drop_first(), c) {
            Some(i) => Some(i + 1),
            None => None,
        }
    }
}

/// The (still percent-encoded) path of a `file://` URI: an empty host keeps
/// the path as is, any other host is dropped up to the first `/`.
pub open spec fn uri_path(uri: Seq<char>) -> Option<Seq<char>> {
    let scheme = "file://"@;
    if !scheme.is_prefix_of(uri) {
        None
    } else {
        let rest = uri.skip(scheme.len() as int);
        if rest.len() > 0 && rest[0] == '/' {
            Some(rest)
        } else {
            match first_index_of(rest, '/') {
                Some(i) => Some(rest.skip(i)),
                None => None,
            }
        }
    }
}

/// The decoded path of a `file://` URI.
pub open spec fn spec_file_uri_to_path(uri: Seq<char>) -> Option<Seq<char>> {
    match uri_path(uri) {
        Some(p) => Some(utf8_lossy(spec_percent_bytes(vstd::utf8::encode_utf8(p)))),
        None => None,
    }
}

/// Whether `s` starts with `p`.
fn starts_with(s: &[char], p: &[char]) -> (b: bool)
    ensures
        b == p@.is_prefix_of(s@),
{
    if p.len() > s.len() {
        return false;
    }
    let mut k: usize = 0;
    while k < p.len()
        invariant
            k <= p@.len() <= s@.len(),
            forall|m: int| 0 <= m < k ==> p@[m] == s@[m],
        decreases p@.len() - k,
    {
        if p[k] != s[k] {
            return false;
        }
        k += 1;
    }
    true
}

/// The index of the first `c` in `s`, if any.
fn find_char(s: &[char], c: char) -> (r: Option<usize>)
    ensures
        match r {
            Some(i) => first_index_of(s@, c) == Some(i as int),
            None => first_index_of(s@, c) is None,
        },
{
    let mut k: usize = 0;
    assert(s@.skip(0) =~= s@);
    while k < s.len()
        invariant
            k <= s@.len(),
            first_index_of(s@, c) == match first_index_of(s@.skip(k as int), c) {
                Some(i) => Some(i + k),
                None => None::<int>,
            },
        decreases s@.len() - k,
    {
        assert(s@.skip(k as int).drop_first() =~= s@.skip(k + 1));
        if s[k] == c {
            return Some(k);
        }
        k += 1;
    }
    assert(s@.skip(k as int) =~= Seq::<char>::empty());
    None
}

/// The index found by [`first_index_of`] is in range and holds `c`.
pub proof fn lemma_first_index_of(s: Seq<char>, c: char)
    ensures
        first_index_of(s, c) matches Some(i) ==> 0 <= i < s.len() && s[i] == c,
    decreases s.len(),
{
    if s.len() > 0 && s[0] != c {
        lemma_first_index_of(s.drop_first(), c);
    }
}

/// Convert a `file://` URI to a path, dropping any host and percent-decoding.
pub fn file_uri_to_path(uri: &str) -> (r: Option<String>)
    ensures
        match r {
            Some(path) => spec_file_uri_to_path(uri@) == Some(path@),
            None => spec_file_uri_to_path(uri@) is None,
        },
        match uri_path(uri@) {
            Some(p) => vstd::utf8::valid_utf8(spec_percent_bytes(vstd::utf8::encode_utf8(p)))
                ==> (r matches Some(path) && path@ == vstd::utf8::decode_utf8(
                spec_percent_bytes(vstd::utf8::encode_utf8(p)),
            )),
            None => r is None,
        },
{
    let u = chars_of(uri);
    let scheme = chars_of("file://");
    if !starts_with(u.as_slice(), scheme.as_slice()) {
        return None;
    }
    let rest = copy_range(u.as_slice(), scheme.len(), u.len());
    assert(rest@ =~= u@.skip(scheme@.len() as int));
    let path = if rest.len() > 0 && rest[0] == '/' {
        rest
    } else {
        match find_char(rest.as_slice(), '/') {
            Some(i) => {
                proof {
                    lemma_first_index_of(rest@, '/');
                }
                let p = copy_range(rest.as_slice(), i, rest.len());
                assert(p@ =~= rest@.skip(i as int));
                p
            },
            None => return None,
        }
    };
    let text = string_of(path.as_slice());
    Some(percent_decode(text.as_str()))
}

/// `text` cut to at most `max` characters.
pub open spec fn spec_truncate_chars(text: Seq<char>, max: int) -> Seq<char> {
    if text.len() <= max {
        text
    } else {
        text.take(max)
    }
}

/// Truncate `text` to at most `max` characters (not bytes).
pub fn truncate_chars(text: &str, max: usize) -> (r: String)
    ensures
        r@ == spec_truncate_chars(text@, max as int),
{
    let v = chars_of(text);
    if v.len() <= max {
        return string_of(v.as_slice());
    }
    let cut = copy_range(v.as_slice(), 0, max);
    assert(cut@ =~= v@.take(max as int));
    string_of(cut.as_slice())
}

/// A line of a selection that may name a file.
#[derive(Debug, Clone, PartialEq, Eq)]
pub enum FilePath {
    /// The decoded path of a `file://` URI.
    Uri(String),
    /// An absolute path, which names a file only if that file exists.
    Local(String),
}

/// How one trimmed, non-empty line of a selection may name a file: a
/// `file://` URI gives its decoded path, a line starting with `/` is an
/// absolute path, and any other line names no file.
pub open spec fn spec_file_path(line: Seq<char>) -> Option<(Seq<char>, bool)> {
    match spec_file_uri_to_path(line) {
        Some(p) => Some((p, true)),
        None => if line.len() > 0 && line[0] == '/' {
            Some((line, false))
        } else {
            None
        },
    }
}

/// The file candidates named by `lines`, in order.
pub open spec fn file_candidates(lines: Seq<Seq<char>>) -> Seq<(Seq<char>, bool)>
    decreases lines.len(),
{
    if lines.len() == 0 {
        seq![]
    } else {
        let rest = file_candidates(lines.drop_last());
        match spec_file_path(lines.last()) {
            Some(c) => rest.push(c),
            None => rest,
        }
    }
}

/// The view of a [`FilePath`]: its text and whether it came from a URI.
pub open spec fn file_path_view(p: FilePath) -> (Seq<char>, bool) {
    match p {
        FilePath::Uri(s) => (s@, true),
        FilePath::Local(s) => (s@, false),
    }
}

/// The candidate file paths named by `text`, from its trimmed, non-empty
/// lines in order: a `file://` URI gives its decoded path; a line starting
/// with `/` is a [`FilePath::Local`] that the caller keeps only if it is an
/// existing file; any other line names no file.
pub fn file_paths(text: &str) -> (r: Vec<FilePath>)
    ensures
        r@.map_values(|p: FilePath| file_path_view(p)) == file_candidates(spec_non_empty_lines(text@)),
{
    let ls = crate::capture::non_empty_lines(text);
    let ghost lines = spec_non_empty_lines(text@);
    let mut r: Vec<FilePath> = Vec::new();
    let mut k: usize = 0;
    assert(lines.subrange(0, 0) =~= Seq::<Seq<char>>::empty());
    assert(r@.map_values(|p: FilePath| file_path_view(p)) =~= Seq::<(Seq<char>, bool)>::empty());
    while k < ls.len()
        invariant
            k <= ls@.len(),
            crate::capture::string_views(ls@) == lines,
            r@.map_values(|p: FilePath| file_path_view(p)) == file_candidates(
                lines.subrange(0, k as int),
            ),
        decreases ls@.len() - k,
    {
        let line = &ls[k];
        assert(crate::capture::string_views(ls@)[k as int] == line@);
        assert(lines.subrange(0, k + 1).drop_last() =~= lines.subrange(0, k as int));
        assert(lines.subrange(0, k + 1).last() == line@);
        let ghost before = r@;
        match file_uri_to_path(line.as_str()) {
            Some(p) => {
                r.push(FilePath::Uri(p));
                assert(r@.map_values(|p: FilePath| file_path_view(p)) =~= before.map_values(
                    |p: FilePath| file_path_view(p),
                ).push(file_path_view(r@.last())));
            },
            None => {
                let cs = chars_of(line.as_str());
                let absolute = cs.len() > 0 && cs[0] == '/';
                if absolute {
                    r.push(FilePath::Local(line.clone()));
                    assert(r@.map_values(|p: FilePath| file_path_view(p)) =~= before.map_values(
                        |p: FilePath| file_path_view(p),
                    ).push(file_path_view(r@.last())));
                }
            },
        }
        k += 1;
    }
    assert(lines.subrange(0, ls@.len() as int) =~= lines);
    r
}

} // verus!
