//! The local HTTP server that streams stems to the player: stem paths are
//! carried hex-encoded in the URL, and byte ranges are honoured.
use vstd::prelude::*;
use vstd::utf8::{decode_utf8, encode_utf8, is_ascii_chars, valid_utf8};

use crate::text::{
    chars_of, decimal, lines, lines_chars, parse_u64, parse_u64_chars, pieces, push_decimal,
    push_str, split_once, split_once_chars, first_piece, first_piece_chars, strip_prefix,
    strip_prefix_chars, string_from_chars, str_eq, trim, trim_chars, words, words_chars,
    string_from_utf8_lossy, utf8_lossy,
};

verus! {

// ---------------------------------------------------------------------------
// Hex-encoded paths
// ---------------------------------------------------------------------------

/// The lower-case hex digit for `n < 16`.
pub open spec fn hex_digit(n: int) -> char {
    if n < 10 {
        (('0' as u32) + n) as char
    } else {
        (('a' as u32) + n - 10) as char
    }
}

/// Two lower-case hex digits per byte.
pub open spec fn hex_of(b: Seq<u8>) -> Seq<char>
    decreases b.len(),
{
    if b.len() == 0 {
        Seq::empty()
    } else {
        hex_of(b.drop_last()) + seq![hex_digit((b.last() / 16) as int), hex_digit((b.last() % 16) as int)]
    }
}

fn hex_digit_exec(n: u8) -> (c: char)
    requires
        n < 16,
    ensures
        c == hex_digit(n as int),
{
    if n < 10 {
        (48u8 + n) as char
    } else {
        (97u8 + n - 10) as char
    }
}

/// The UTF-8 bytes of `path` as lower-case hex, two digits per byte.
pub fn encode_hex_path(path: &str) -> (r: String)
    ensures
        r@ == hex_of(encode_utf8(path@)),
{
    let bytes = path.as_bytes();
    let mut out: Vec<char> = Vec::new();
    let mut i: usize = 0;
    assert(bytes@.take(0) =~= Seq::<u8>::empty());
    while i < bytes.len()
        invariant
            i <= bytes@.len(),
            bytes@ == encode_utf8(path@),
            out@ == hex_of(bytes@.take(i as int)),
        decreases bytes.len() - i,
    {
        let b = bytes[i];
        assert(bytes@.take(i + 1).drop_last() =~= bytes@.take(i as int));
        assert(bytes@.take(i + 1).last() == b);
        out.push(hex_digit_exec(b / 16));
        out.push(hex_digit_exec(b % 16));
        i = i + 1;
    }
    assert(bytes@.take(bytes@.len() as int) =~= bytes@);
    string_from_chars(&out)
}

/// `char::to_digit(16)`.
pub open spec fn hex_value(c: char) -> Option<u8> {
    if '0' <= c && c <= '9' {
        Some(((c as u32) - ('0' as u32)) as u8)
    } else if 'a' <= c && c <= 'f' {
        Some(((c as u32) - ('a' as u32) + 10) as u8)
    } else if 'A' <= c && c <= 'F' {
        Some(((c as u32) - ('A' as u32) + 10) as u8)
    } else {
        None
    }
}

fn hex_value_exec(c: char) -> (r: Option<u8>)
    ensures
        r == hex_value(c),
{
    let u = c as u32;
    if '0' <= c && c <= '9' {
        Some((u - 48) as u8)
    } else if 'a' <= c && c <= 'f' {
        Some((u - 97 + 10) as u8)
    } else if 'A' <= c && c <= 'F' {
        Some((u - 65 + 10) as u8)
    } else {
        None
    }
}

/// `u8::from_str_radix(s, 16)` on a piece of one or two characters: an
/// optional `+` followed by hex digits.
pub open spec fn hex_byte(p: Seq<char>) -> Option<u8> {
    if p.len() == 1 {
        if p[0] == '+' {
            None
        } else {
            hex_value(p[0])
        }
    } else if p.len() == 2 {
        if p[0] == '+' {
            hex_value(p[1])
        } else {
            match (hex_value(p[0]), hex_value(p[1])) {
                (Some(a), Some(b)) => Some((16 * a + b) as u8),
                _ => None,
            }
        }
    } else {
        None
    }
}

/// The bytes written by pairs of hex digits (the last piece may be a single
/// character), or `None` if a piece is not a number.
pub open spec fn hex_bytes(cs: Seq<char>) -> Option<Seq<u8>>
    decreases cs.len(),
{
    if cs.len() == 0 {
        Some(Seq::empty())
    } else {
        let n: int = if cs.len() >= 2 {
            2
        } else {
            1
        };
        match hex_byte(cs.take(n)) {
            Some(b) => match hex_bytes(cs.skip(n)) {
                Some(rest) => Some(seq![b] + rest),
                None => None,
            },
            None => None,
        }
    }
}

/// `String::from_utf8`: the text of `bytes` when they are valid UTF-8.
#[verifier::external_body]
pub(crate) fn string_from_utf8(bytes: Vec<u8>) -> (r: Option<String>)
    ensures
        r is Some <==> valid_utf8(bytes@),
        r matches Some(s) ==> s@ == decode_utf8(bytes@),
{
    String::from_utf8(bytes).ok()
}

/// The path carried by a hex-encoded URL segment whose text is `hex` and
/// whose UTF-8 length is `byte_len`.
pub open spec fn decoded_path(hex: Seq<char>, byte_len: nat) -> Option<Seq<char>> {
    if byte_len % 2 != 0 || hex.len() == 0 {
        None
    } else {
        match hex_bytes(hex) {
            Some(b) => if valid_utf8(b) {
                Some(decode_utf8(b))
            } else {
                None
            },
            None => None,
        }
    }
}

/// Decodes a path written by [`encode_hex_path`].
pub fn decode_hex_path(hex: &str) -> (r: Option<String>)
    ensures
        match r {
            Some(p) => decoded_path(hex@, encode_utf8(hex@).len()) == Some(p@),
            None => decoded_path(hex@, encode_utf8(hex@).len()) is None,
        },
{
    let byte_len = hex.as_bytes().len();
    if byte_len % 2 != 0 || hex.is_empty() {
        return None;
    }
    let cs = chars_of(hex);
    let mut bytes: Vec<u8> = Vec::new();
    let mut i: usize = 0;
    assert(cs@.skip(0) =~= cs@);
    while i < cs.len()
        invariant
            i <= cs@.len(),
            cs@ == hex@,
            hex_bytes(cs@) == match hex_bytes(cs@.skip(i as int)) {
                Some(rest) => Some(bytes@ + rest),
                None => None::<Seq<u8>>,
            },
        decreases cs.len() - i,
    {
        let n: usize = if cs.len() - i >= 2 {
            2
        } else {
            1
        };
        let ghost t = cs@.skip(i as int);
        assert(t.take(n as int) =~= cs@.subrange(i as int, i + n));
        assert(t.skip(n as int) =~= cs@.skip(i + n));
        let b = if n == 1 {
            if cs[i] == '+' {
                None
            } else {
                hex_value_exec(cs[i])
            }
        } else if cs[i] == '+' {
            hex_value_exec(cs[i + 1])
        } else {
            match (hex_value_exec(cs[i]), hex_value_exec(cs[i + 1])) {
                (Some(a), Some(b)) => Some(16 * a + b),
                _ => None,
            }
        };
        assert(b == hex_byte(t.take(n as int)));
        match b {
            Some(v) => {
                let ghost before = bytes@;
                bytes.push(v);
                assert(before + (seq![v] + hex_bytes(cs@.skip(i + n))->0) =~= bytes@ + hex_bytes(
                    cs@.skip(i + n),
                )->0);
            },
            None => {
                return None;
            },
        }
        i = i + n;
    }
    assert(cs@.skip(cs@.len() as int) =~= Seq::<char>::empty());
    assert(bytes@ + Seq::<u8>::empty() =~= bytes@);
    string_from_utf8(bytes)
}

proof fn lemma_hex_of_len(b: Seq<u8>)
    ensures
        hex_of(b).len() == 2 * b.len(),
    decreases b.len(),
{
    if b.len() > 0 {
        lemma_hex_of_len(b.drop_last());
    }
}

proof fn lemma_hex_of_ascii(b: Seq<u8>)
    ensures
        is_ascii_chars(hex_of(b)),
    decreases b.len(),
{
    if b.len() > 0 {
        lemma_hex_of_ascii(b.drop_last());
        let h = hex_of(b);
        let p = hex_of(b.drop_last());
        assert forall|i: int| 0 <= i < h.len() implies '\0' <= #[trigger] h[i] <= '\u{7f}' by {
            if i < p.len() {
                assert(h[i] == p[i]);
            }
        }
    }
}

proof fn lemma_hex_bytes_of(b: Seq<u8>, k: int)
    requires
        0 <= k <= b.len(),
    ensures
        hex_bytes(hex_of(b).skip(2 * k)) == Some(b.skip(k)),
    decreases b.len() - k,
{
    lemma_hex_of_len(b);
    let h = hex_of(b);
    if k == b.len() {
        assert(h.skip(2 * k) =~= Seq::<char>::empty());
        assert(b.skip(k) =~= Seq::<u8>::empty());
    } else {
        lemma_hex_bytes_of(b, k + 1);
        lemma_hex_of_prefix(b, k + 1);
        let t = h.skip(2 * k);
        let x = b[k];
        assert(t.take(2) =~= seq![hex_digit((x / 16) as int), hex_digit((x % 16) as int)]);
        assert(t.skip(2) =~= h.skip(2 * (k + 1)));
        assert(hex_byte(t.take(2)) == Some(x)) by {
            assert(hex_value(hex_digit((x / 16) as int)) == Some((x / 16) as u8));
            assert(hex_value(hex_digit((x % 16) as int)) == Some((x % 16) as u8));
        }
        assert(seq![x] + b.skip(k + 1) =~= b.skip(k));
    }
}

proof fn lemma_hex_of_prefix(b: Seq<u8>, k: int)
    requires
        0 < k <= b.len(),
    ensures
        hex_of(b)[2 * (k - 1)] == hex_digit((b[k - 1] / 16) as int),
        hex_of(b)[2 * (k - 1) + 1] == hex_digit((b[k - 1] % 16) as int),
    decreases b.len(),
{
    lemma_hex_of_len(b);
    lemma_hex_of_len(b.drop_last());
    if k < b.len() {
        lemma_hex_of_prefix(b.drop_last(), k);
    }
}

/// A stem URL gives back the path it was made from: decoding the hex form
/// of any non-empty path yields that path.
pub proof fn law_hex_path_roundtrip(path: Seq<char>)
    requires
        path.len() > 0,
    ensures
        decoded_path(hex_of(encode_utf8(path)), encode_utf8(hex_of(encode_utf8(path))).len())
            == Some(path),
{
    let b = encode_utf8(path);
    let h = hex_of(b);
    lemma_hex_of_len(b);
    lemma_hex_of_ascii(b);
    vstd::utf8::is_ascii_chars_encode_utf8(h);
    vstd::utf8::encode_utf8_valid_utf8(path);
    vstd::utf8::encode_utf8_decode_utf8(path);
    assert(b.len() > 0) by {
        vstd::utf8::encode_utf8_first_scalar(path);
        assert(encode_utf8(path) == vstd::utf8::encode_scalar(path[0] as u32) + encode_utf8(
            path.drop_first(),
        ));
    }
    lemma_hex_bytes_of(b, 0);
    assert(h.skip(0) =~= h);
    assert(b.skip(0) =~= b);
}

// ---------------------------------------------------------------------------
// Requests
// ---------------------------------------------------------------------------

/// A `Range: bytes=start-end` value: the start defaults to 0 and the end
/// may be open.
pub open spec fn range_value(value: Seq<char>) -> Option<(u64, Option<u64>)> {
    match split_once(trim(value), "-"@) {
        Some((a, b)) => {
            let start = if a.len() == 0 {
                Some(0u64)
            } else {
                parse_u64(a)
            };
            let end = if b.len() == 0 {
                Some(None)
            } else {
                match parse_u64(b) {
                    Some(e) => Some(Some(e)),
                    None => None,
                }
            };
            match (start, end) {
                (Some(s), Some(e)) => Some((s, e)),
                _ => None,
            }
        },
        None => None,
    }
}

/// Parses the value of a `Range: bytes=` header.
pub fn parse_range(value: &str) -> (r: Option<(u64, Option<u64>)>)
    ensures
        r == range_value(value@),
{
    let v = chars_of(value);
    let t = trim_chars(&v);
    let dash = chars_of("-");
    match split_once_chars(&t, &dash) {
        Some((a, b)) => {
            let start = if a.len() == 0 {
                0u64
            } else {
                match parse_u64_chars(&a) {
                    Some(s) => s,
                    None => {
                        return None;
                    },
                }
            };
            let end = if b.len() == 0 {
                None
            } else {
                match parse_u64_chars(&b) {
                    Some(e) => Some(e),
                    None => {
                        return None;
                    },
                }
            };
            Some((start, end))
        },
        None => None,
    }
}

/// The bytes to send of a file of `total` bytes: `(start, end, length)`,
/// or `None` when the requested range cannot be satisfied.
pub open spec fn served_range(range: Option<(u64, Option<u64>)>, total: u64) -> Option<
    (u64, u64, u64),
> {
    let last: int = if total == 0 {
        0
    } else {
        total - 1
    };
    let (start, end): (int, int) = match range {
        Some((s, e)) => {
            let start = if s < last {
                s as int
            } else {
                last
            };
            let e0: int = match e {
                Some(x) => x as int,
                None => last,
            };
            (start, if e0 < last {
                e0
            } else {
                last
            })
        },
        None => (0, last),
    };
    if start > end {
        None
    } else {
        Some((start as u64, end as u64, (end - start + 1) as u64))
    }
}

/// Clamps a requested byte range to a file of `total` bytes.
pub fn resolve_range(range: Option<(u64, Option<u64>)>, total: u64) -> (r: Option<(u64, u64, u64)>)
    ensures
        r == served_range(range, total),
        r matches Some((s, e, n)) ==> s <= e && n == e - s + 1 && (total > 0 ==> e < total),
{
    let last = total.saturating_sub(1);
    let (start, end) = match range {
        Some((s, e)) => {
            let start = if s < last {
                s
            } else {
                last
            };
            let e0 = match e {
                Some(x) => x,
                None => last,
            };
            let end = if e0 < last {
                e0
            } else {
                last
            };
            if start > end {
                return None;
            }
            (start, end)
        },
        None => (0, last),
    };
    let length = end - start + 1;
    Some((start, end, length))
}

/// A requested range that lies inside the file is served exactly as asked:
/// bytes `s..=e`, the inclusive end of the HTTP range, `e - s + 1` of them.
/// An open range from inside the file runs to its last byte, and a request
/// without a range gets the whole file.
pub proof fn law_range_inside_file_is_kept(s: u64, e: u64, total: u64)
    requires
        s <= e,
        e < total,
    ensures
        served_range(Some((s, Some(e))), total) == Some((s, e, (e - s + 1) as u64)),
        served_range(Some((s, None)), total) == Some((s, (total - 1) as u64, (total - s) as u64)),
        served_range(None, total) == Some((0u64, (total - 1) as u64, total)),
{
}

/// A range whose end lies past the file is cut at the file's last byte; one
/// that starts past it, or ends before it starts, cannot be served.
pub proof fn law_range_is_clamped(s: u64, e: u64, total: u64)
    requires
        total > 0,
    ensures
        s < total && e >= total ==> served_range(Some((s, Some(e))), total) == Some(
            (s, (total - 1) as u64, (total - s) as u64),
        ),
        s < total && e < s ==> served_range(Some((s, Some(e))), total) is None,
        s >= total && e < total - 1 ==> served_range(Some((s, Some(e))), total) is None,
{
}

/// What the server does with a request, decided before the disk is looked at.
pub enum RequestPlan {
    /// Neither GET nor HEAD: 405.
    MethodNotAllowed,
    /// Not a stem URL: 404.
    NotFound,
    /// A stem URL whose path does not decode: 400.
    BadRequest,
    /// Serve the stem at `path` (only headers for HEAD), with this range.
    Stem { head: bool, path: String, range: Option<(u64, Option<u64>)> },
}

/// The range requested by the header lines `ls[i..]`, up to the first empty
/// line; a later `Range` header replaces an earlier one.
pub open spec fn range_from_headers(
    ls: Seq<Seq<char>>,
    i: int,
    acc: Option<(u64, Option<u64>)>,
) -> Option<(u64, Option<u64>)>
    decreases ls.len() - i,
{
    if i < 0 || i >= ls.len() || ls[i].len() == 0 {
        acc
    } else {
        match strip_prefix(ls[i], "Range: bytes="@) {
            Some(v) => range_from_headers(ls, i + 1, range_value(v)),
            None => range_from_headers(ls, i + 1, acc),
        }
    }
}

/// The first line of a request.
pub open spec fn request_line(req: Seq<char>) -> Seq<char> {
    if lines(req).len() > 0 {
        lines(req)[0]
    } else {
        Seq::empty()
    }
}

/// The `i`-th word of the request line, or empty.
pub open spec fn request_word(req: Seq<char>, i: int) -> Seq<char> {
    if words(request_line(req)).len() > i {
        words(request_line(req))[i]
    } else {
        Seq::empty()
    }
}

/// The plan for a request, as `(kind, head, path, range)` where kind is
/// 405, 404, 400 or 200.
pub open spec fn request_plan(req: Seq<char>) -> (int, bool, Option<Seq<char>>, Option<
    (u64, Option<u64>),
>) {
    let method = request_word(req, 0);
    let target = request_word(req, 1);
    let range = range_from_headers(lines(req), 1, None);
    if method != "GET"@ && method != "HEAD"@ {
        (405, false, None, None)
    } else {
        match strip_prefix(target, "/stem/"@) {
            None => (404, false, None, None),
            Some(hex) => {
                let h = first_piece(hex, "?"@);
                match decoded_path(h, encode_utf8(h).len()) {
                    None => (400, false, None, None),
                    Some(p) => (200, method == "HEAD"@, Some(p), range),
                }
            },
        }
    }
}

pub open spec fn plan_view(p: RequestPlan) -> (int, bool, Option<Seq<char>>, Option<
    (u64, Option<u64>),
>) {
    match p {
        RequestPlan::MethodNotAllowed => (405, false, None, None),
        RequestPlan::NotFound => (404, false, None, None),
        RequestPlan::BadRequest => (400, false, None, None),
        RequestPlan::Stem { head, path, range } => (200, head, Some(path@), range),
    }
}

/// `str::from_iter` of characters, seen as a `&str` for decoding.
fn decode_hex_chars(h: &Vec<char>) -> (r: Option<String>)
    ensures
        match r {
            Some(p) => decoded_path(h@, encode_utf8(h@).len()) == Some(p@),
            None => decoded_path(h@, encode_utf8(h@).len()) is None,
        },
{
    let s = string_from_chars(h);
    decode_hex_path(s.as_str())
}

/// Reads the request line and headers of a request and decides how to answer.
pub fn plan_request(request: &str) -> (r: RequestPlan)
    ensures
        plan_view(r) == request_plan(request@),
{
    let req = chars_of(request);
    let ls = lines_chars(&req);
    let first: Vec<char> = if ls.len() > 0 {
        ls[0].clone()
    } else {
        Vec::new()
    };
    let ws = words_chars(&first);
    let method: Vec<char> = if ws.len() > 0 {
        ws[0].clone()
    } else {
        Vec::new()
    };
    let target: Vec<char> = if ws.len() > 1 {
        ws[1].clone()
    } else {
        Vec::new()
    };
    assert(first@ == request_line(request@));
    assert(method@ == request_word(request@, 0));
    assert(target@ == request_word(request@, 1));
    let is_get = crate::text::chars_eq(&method, &chars_of("GET"));
    let is_head = crate::text::chars_eq(&method, &chars_of("HEAD"));
    if !is_get && !is_head {
        return RequestPlan::MethodNotAllowed;
    }
    let mut range: Option<(u64, Option<u64>)> = None;
    let mut i: usize = 1;
    while i < ls.len() && ls[i].len() > 0
        invariant
            1 <= i,
            pieces(ls@) == lines(request@),
            range_from_headers(lines(request@), 1, None) == range_from_headers(
                lines(request@),
                i as int,
                range,
            ),
        decreases ls.len() - i,
    {
        match strip_prefix_chars(&ls[i], "Range: bytes=") {
            Some(v) => {
                let vs = string_from_chars(&v);
                range = parse_range(vs.as_str());
            },
            None => {},
        }
        i = i + 1;
    }
    match strip_prefix_chars(&target, "/stem/") {
        None => RequestPlan::NotFound,
        Some(hex) => {
            let h = first_piece_chars(&hex, "?");
            match decode_hex_chars(&h) {
                None => RequestPlan::BadRequest,
                Some(path) => RequestPlan::Stem { head: is_head, path, range },
            }
        },
    }
}

/// Reads a request as it came off the socket, as text with each invalid
/// UTF-8 sequence replaced, and decides how to answer.
pub fn plan_request_bytes(request: &[u8]) -> (r: RequestPlan)
    ensures
        plan_view(r) == request_plan(utf8_lossy(request@)),
{
    let text = string_from_utf8_lossy(request);
    plan_request(text.as_str())
}

/// `http://127.0.0.1:<port>/stem/<hex path>`.
pub open spec fn stem_url_spec(port: u16, path: Seq<char>) -> Seq<char> {
    "http://127.0.0.1:"@ + decimal(port as nat) + "/stem/"@ + hex_of(encode_utf8(path))
}

/// The URL under which the playback server serves the stem at `path`.
pub fn stem_url(port: u16, path: &str) -> (r: String)
    ensures
        r@ == stem_url_spec(port, path@),
{
    let mut out: Vec<char> = Vec::new();
    push_str(&mut out, "http://127.0.0.1:");
    push_decimal(&mut out, port as u64);
    push_str(&mut out, "/stem/");
    let h = encode_hex_path(path);
    push_str(&mut out, h.as_str());
    string_from_chars(&out)
}

// ---------------------------------------------------------------------------
// Access to stems
// ---------------------------------------------------------------------------

/// Path components as text.
pub open spec fn components_view(v: Seq<String>) -> Seq<Seq<char>> {
    v.map_values(|c: String| c@)
}

/// `Path::starts_with` on paths given as their components: the directory's
/// components begin the file's, whole components only.
pub fn within_root(file: &Vec<String>, root: &Vec<String>) -> (r: bool)
    ensures
        r == components_view(root@).is_prefix_of(components_view(file@)),
{
    if root.len() > file.len() {
        return false;
    }
    let mut i: usize = 0;
    while i < root.len()
        invariant
            root@.len() <= file@.len(),
            i <= root@.len(),
            forall|j: int| 0 <= j < i ==> root@[j]@ == file@[j]@,
        decreases root.len() - i,
    {
        if !str_eq(root[i].as_str(), file[i].as_str()) {
            assert(components_view(root@)[i as int] != components_view(file@)[i as int]);
            return false;
        }
        i = i + 1;
    }
    assert(components_view(root@) =~= components_view(file@).subrange(0, root@.len() as int));
    true
}

/// Whether a stem may be served: only a regular file inside the tracks
/// directory (both paths canonical, given as their components); any other
/// request is answered 403.
pub fn may_serve(file: &Vec<String>, root: &Vec<String>, is_file: bool) -> (r: bool)
    ensures
        r == (is_file && components_view(root@).is_prefix_of(components_view(file@))),
{
    is_file && within_root(file, root)
}

/// Canonical paths as components, where they could be had.
pub open spec fn opt_components(o: Option<&Vec<String>>) -> Option<Seq<Seq<char>>> {
    match o {
        Some(v) => Some(components_view(v@)),
        None => None,
    }
}

/// The status of a stem request once the disk was asked: 404 when the
/// file's path does not canonicalize, 500 when the tracks directory's does
/// not, 403 outside that directory or for anything but a regular file,
/// else 200.
pub open spec fn access_status(
    file: Option<Seq<Seq<char>>>,
    root: Option<Seq<Seq<char>>>,
    is_file: bool,
) -> int {
    match file {
        None => 404,
        Some(f) => match root {
            None => 500,
            Some(r) => if is_file && r.is_prefix_of(f) {
                200
            } else {
                403
            },
        },
    }
}

/// The status of a stem request given the canonical components of the
/// file and of the tracks directory (`None` where canonicalizing failed)
/// and whether the file is a regular file.
pub fn stem_access_status(file: Option<&Vec<String>>, root: Option<&Vec<String>>, is_file: bool) -> (r: u16)
    ensures
        r as int == access_status(opt_components(file), opt_components(root), is_file),
{
    match file {
        None => 404,
        Some(f) => match root {
            None => 500,
            Some(rt) => if may_serve(f, rt, is_file) {
                200
            } else {
                403
            },
        },
    }
}

/// The answer to a request before its range is read: the status, and
/// whether the stem's bytes follow the headers.
pub open spec fn serve_answer(
    req: Seq<char>,
    file: Option<Seq<Seq<char>>>,
    root: Option<Seq<Seq<char>>>,
    is_file: bool,
) -> (int, bool) {
    let p = request_plan(req);
    if p.0 != 200 {
        (p.0, false)
    } else {
        let s = access_status(file, root, is_file);
        (s, s == 200 && !p.1)
    }
}

/// A stem's bytes are sent only for a GET, and only of a regular file
/// whose canonical path lies inside the canonical tracks directory. Any
/// other method is answered 405, a stem path that does not decode 400, one
/// that does not canonicalize 404, and a file outside the directory or not
/// regular 403.
pub proof fn law_bytes_only_for_get_inside_root(
    req: Seq<char>,
    file: Option<Seq<Seq<char>>>,
    root: Option<Seq<Seq<char>>>,
    is_file: bool,
)
    ensures
        serve_answer(req, file, root, is_file).1 ==> {
            &&& request_word(req, 0) == "GET"@
            &&& is_file
            &&& file is Some && root is Some
            &&& root->0.is_prefix_of(file->0)
        },
        request_word(req, 0) != "GET"@ && request_word(req, 0) != "HEAD"@ ==> serve_answer(
            req,
            file,
            root,
            is_file,
        ).0 == 405,
        ({
            let m = request_word(req, 0);
            let t = strip_prefix(request_word(req, 1), "/stem/"@);
            (m == "GET"@ || m == "HEAD"@) && t is Some && decoded_path(
                first_piece(t->0, "?"@),
                encode_utf8(first_piece(t->0, "?"@)).len(),
            ) is None
        }) ==> serve_answer(req, file, root, is_file).0 == 400,
        request_plan(req).0 == 200 && file is None ==> serve_answer(req, file, root, is_file).0 == 404,
        request_plan(req).0 == 200 && file is Some && root is Some && !(is_file
            && root->0.is_prefix_of(file->0)) ==> serve_answer(req, file, root, is_file).0 == 403,
{
}

} // verus!
