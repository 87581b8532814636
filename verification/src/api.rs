//! The wire-level grammar of the coordination service: canonical UUID text,
//! the request line, and the mapping from method and path to a registry
//! operation. Everything here is a pure function of its text input.

use vstd::prelude::*;

use crate::ids::Uid;
use crate::text::str_eq;

verus! {

/// The first occurrence of a character at or after `from`.
pub open spec fn find_char(s: Seq<char>, c: char, from: int) -> Option<int>
    decreases s.len() - from,
{
    if from < 0 || from >= s.len() {
        None
    } else if s[from] == c {
        Some(from)
    } else {
        find_char(s, c, from + 1)
    }
}

proof fn lemma_find_char_props(s: Seq<char>, c: char, from: int)
    ensures
        find_char(s, c, from) matches Some(i) ==> from <= i < s.len() && s[i] == c,
    decreases s.len() - from,
{
    if 0 <= from && from < s.len() && s[from] != c {
        lemma_find_char_props(s, c, from + 1);
    }
}

/// The first carriage-return/line-feed pair at or after `from`.
pub open spec fn find_crlf(s: Seq<char>, from: int) -> Option<int>
    decreases s.len() - from,
{
    if from < 0 || from + 2 > s.len() {
        None
    } else if s[from] == '\r' && s[from + 1] == '\n' {
        Some(from)
    } else {
        find_crlf(s, from + 1)
    }
}

proof fn lemma_find_crlf_props(s: Seq<char>, from: int)
    ensures
        find_crlf(s, from) matches Some(i) ==> from <= i && i + 2 <= s.len() && s[i] == '\r' && s[
            i + 1
        ] == '\n',
    decreases s.len() - from,
{
    if !(from < 0 || from + 2 > s.len()) && !(s[from] == '\r' && s[from + 1] == '\n') {
        lemma_find_crlf_props(s, from + 1);
    }
}

/// The last carriage-return/line-feed pair at or before `from`.
pub open spec fn rfind_crlf(s: Seq<char>, from: int) -> Option<int>
    decreases from + 1,
{
    if from < 0 {
        None
    } else if from + 2 <= s.len() && s[from] == '\r' && s[from + 1] == '\n' {
        Some(from)
    } else {
        rfind_crlf(s, from - 1)
    }
}

proof fn lemma_rfind_crlf_props(s: Seq<char>, from: int)
    ensures
        rfind_crlf(s, from) matches Some(i) ==> 0 <= i && i + 2 <= s.len(),
    decreases from + 1,
{
    if from >= 0 && !(from + 2 <= s.len() && s[from] == '\r' && s[from + 1] == '\n') {
        lemma_rfind_crlf_props(s, from - 1);
    }
}

fn find_char_in(s: &str, c: char, from: usize) -> (r: Option<usize>)
    ensures
        r is Some <==> find_char(s@, c, from as int) is Some,
        r matches Some(i) ==> find_char(s@, c, from as int) == Some(i as int),
{
    let n = s.unicode_len();
    let mut i: usize = from;
    while i < n
        invariant
            n == s@.len(),
            from <= i,
            find_char(s@, c, from as int) == find_char(s@, c, i as int),
        decreases n - i,
    {
        if s.get_char(i) == c {
            return Some(i);
        }
        i = i + 1;
    }
    None
}

fn find_crlf_in(s: &str, from: usize) -> (r: Option<usize>)
    ensures
        r is Some <==> find_crlf(s@, from as int) is Some,
        r matches Some(i) ==> find_crlf(s@, from as int) == Some(i as int),
{
    let n = s.unicode_len();
    if n < 2 {
        return None;
    }
    let mut i: usize = from;
    while i <= n - 2
        invariant
            n == s@.len(),
            2 <= n,
            from <= i,
            find_crlf(s@, from as int) == find_crlf(s@, i as int),
        decreases n - i,
    {
        if s.get_char(i) == '\r' && s.get_char(i + 1) == '\n' {
            return Some(i);
        }
        i = i + 1;
    }
    None
}

/// The last line break of the whole text.
fn rfind_crlf_in(s: &str) -> (r: Option<usize>)
    ensures
        r is Some <==> rfind_crlf(s@, s@.len() - 2) is Some,
        r matches Some(i) ==> rfind_crlf(s@, s@.len() - 2) == Some(i as int),
{
    let n = s.unicode_len();
    let mut i: usize = n;
    while i > 0
        invariant
            n == s@.len(),
            i <= n,
            rfind_crlf(s@, s@.len() - 2) == rfind_crlf(s@, i as int - 1),
        decreases i,
    {
        let p = i - 1;
        if p < n && p + 1 < n && s.get_char(p) == '\r' && s.get_char(p + 1) == '\n' {
            return Some(p);
        }
        i = p;
    }
    None
}

/// One parsed request: the verb, the resource path, the trailing payload
/// and the protocol version of the request line.
#[derive(Clone, Debug, PartialEq, Eq)]
pub struct Request {
    pub method: String,
    pub path: String,
    pub payload: String,
    pub http_version: String,
}

/// The request grammar: the first line is `method path version` up to the
/// first line break, and the payload is everything after the last line
/// break (the whole text when there is none). Malformed head: no parse.
pub open spec fn parsed_request(s: Seq<char>) -> Option<(Seq<char>, Seq<char>, Seq<char>, Seq<
    char,
>)> {
    let line_end = match find_crlf(s, 0) {
        Some(i) => i,
        None => s.len() as int,
    };
    match find_char(s, ' ', 0) {
        None => None,
        Some(sp1) => if sp1 >= line_end {
            None
        } else {
            match find_char(s, ' ', sp1 + 1) {
                None => None,
                Some(sp2) => if sp2 >= line_end {
                    None
                } else {
                    let payload = match rfind_crlf(s, s.len() - 2) {
                        Some(p) => s.subrange(p + 2, s.len() as int),
                        None => s,
                    };
                    Some(
                        (
                            s.subrange(0, sp1),
                            s.subrange(sp1 + 1, sp2),
                            s.subrange(sp2 + 1, line_end),
                            payload,
                        ),
                    )
                },
            }
        },
    }
}

/// Splits a raw request into its verb, path, version and payload.
pub fn parse_request(request_str: &str) -> (r: Option<Request>)
    ensures
        r is Some <==> parsed_request(request_str@) is Some,
        r matches Some(req) ==> parsed_request(request_str@) == Some(
            (req.method@, req.path@, req.http_version@, req.payload@),
        ),
{
    proof {
        lemma_find_char_props(request_str@, ' ', 0);
        lemma_find_crlf_props(request_str@, 0);
        lemma_rfind_crlf_props(request_str@, request_str@.len() - 2);
    }
    let n = request_str.unicode_len();
    let line_end = match find_crlf_in(request_str, 0) {
        Some(i) => i,
        None => n,
    };
    let sp1 = match find_char_in(request_str, ' ', 0) {
        Some(i) => i,
        None => {
            return None;
        },
    };
    if sp1 >= line_end {
        return None;
    }
    proof {
        lemma_find_char_props(request_str@, ' ', sp1 + 1 as int);
    }
    let sp2 = match find_char_in(request_str, ' ', sp1 + 1) {
        Some(i) => i,
        None => {
            return None;
        },
    };
    if sp2 >= line_end {
        return None;
    }
    let method = request_str.substring_char(0, sp1).to_owned();
    let path = request_str.substring_char(sp1 + 1, sp2).to_owned();
    let http_version = request_str.substring_char(sp2 + 1, line_end).to_owned();
    let payload = match rfind_crlf_in(request_str) {
        Some(p) => request_str.substring_char(p + 2, n).to_owned(),
        None => request_str.to_owned(),
    };
    Some(Request { method, path, payload, http_version })
}

/// Whether a character is a hexadecimal digit.
pub open spec fn is_hex_digit(c: char) -> bool {
    let u = c as u32;
    (48 <= u && u <= 57) || (97 <= u && u <= 102) || (65 <= u && u <= 70)
}

/// The value of a hexadecimal digit.
pub open spec fn hex_val(c: char) -> nat {
    let u = c as u32;
    if 48 <= u && u <= 57 {
        (u - 48) as nat
    } else if 97 <= u && u <= 102 {
        (u - 87) as nat
    } else if 65 <= u && u <= 70 {
        (u - 55) as nat
    } else {
        0
    }
}

/// What canonical UUID text holds at one position: a hyphen at the four
/// fixed places, a hexadecimal digit everywhere else.
pub open spec fn uuid_char_ok(s: Seq<char>, i: int) -> bool {
    if i == 8 || i == 13 || i == 18 || i == 23 {
        s[i] == '-'
    } else {
        is_hex_digit(s[i])
    }
}

/// Canonical UUID text: five hyphen-separated groups of 8, 4, 4, 4 and 12
/// hexadecimal digits.
pub open spec fn is_canonical_uuid(s: Seq<char>) -> bool {
    s.len() == 36 && forall|i: int| 0 <= i < 36 ==> #[trigger] uuid_char_ok(s, i)
}

/// The hexadecimal digits among the first `i` characters, hyphen places
/// skipped.
pub open spec fn hex_prefix(s: Seq<char>, i: int) -> Seq<char>
    decreases i,
{
    if i <= 0 {
        Seq::empty()
    } else if i - 1 == 8 || i - 1 == 13 || i - 1 == 18 || i - 1 == 23 {
        hex_prefix(s, i - 1)
    } else {
        hex_prefix(s, i - 1).push(s[i - 1])
    }
}

/// The number a big-endian sequence of hexadecimal digits denotes.
pub open spec fn hex_seq_value(s: Seq<char>) -> nat
    decreases s.len(),
{
    if s.len() == 0 {
        0
    } else {
        hex_seq_value(s.drop_last()) * 16 + hex_val(s.last())
    }
}

/// The number canonical UUID text denotes.
pub open spec fn uuid_value(s: Seq<char>) -> u128 {
    hex_seq_value(hex_prefix(s, 36)) as u128
}

/// Powers of sixteen: what one more hexadecimal digit multiplies by.
pub open spec fn pow16(n: nat) -> nat
    decreases n,
{
    if n == 0 {
        1
    } else {
        16 * pow16((n - 1) as nat)
    }
}

proof fn lemma_pow16_mono(a: nat, b: nat)
    requires
        a <= b,
    ensures
        pow16(a) <= pow16(b),
    decreases b,
{
    if a < b {
        lemma_pow16_mono(a, (b - 1) as nat);
    }
}

proof fn lemma_hex_value_bound(s: Seq<char>)
    ensures
        hex_seq_value(s) < pow16(s.len()),
    decreases s.len(),
{
    if s.len() > 0 {
        lemma_hex_value_bound(s.drop_last());
    }
}

proof fn lemma_pow16_32()
    ensures
        pow16(32) == 0x100000000000000000000000000000000,
{
    reveal_with_fuel(pow16, 33);
}

/// How many digits the first `i` characters of UUID text hold.
proof fn lemma_hex_prefix_len(s: Seq<char>, i: int)
    requires
        0 <= i <= 36,
    ensures
        hex_prefix(s, i).len() <= i,
        i <= 8 ==> hex_prefix(s, i).len() == i,
        8 < i <= 13 ==> hex_prefix(s, i).len() == i - 1,
        13 < i <= 18 ==> hex_prefix(s, i).len() == i - 2,
        18 < i <= 23 ==> hex_prefix(s, i).len() == i - 3,
        23 < i ==> hex_prefix(s, i).len() == i - 4,
    decreases i,
{
    if i > 0 {
        lemma_hex_prefix_len(s, i - 1);
    }
}

/// Reads canonical UUID text; any other text reads as nothing.
pub fn parse_uuid(s: &str) -> (r: Option<u128>)
    ensures
        r is Some <==> is_canonical_uuid(s@),
        r matches Some(v) ==> v == uuid_value(s@),
{
    let n = s.unicode_len();
    if n != 36 {
        proof {
            assert(!is_canonical_uuid(s@));
        }
        return None;
    }
    let mut acc: u128 = 0;
    let mut i: usize = 0;
    while i < 36
        invariant
            s@.len() == 36,
            i <= 36,
            forall|j: int| 0 <= j < i ==> #[trigger] uuid_char_ok(s@, j),
            acc as nat == hex_seq_value(hex_prefix(s@, i as int)),
        decreases 36 - i,
    {
        let c = s.get_char(i);
        if i == 8 || i == 13 || i == 18 || i == 23 {
            if c != '-' {
                proof {
                    assert(!uuid_char_ok(s@, i as int));
                }
                return None;
            }
        } else {
            let u = c as u32;
            let v: u32 = if 48 <= u && u <= 57 {
                u - 48
            } else if 97 <= u && u <= 102 {
                u - 87
            } else if 65 <= u && u <= 70 {
                u - 55
            } else {
                proof {
                    assert(!uuid_char_ok(s@, i as int));
                }
                return None;
            };
            proof {
                lemma_hex_prefix_len(s@, i as int);
                lemma_hex_value_bound(hex_prefix(s@, i as int));
                lemma_pow16_mono(hex_prefix(s@, i as int).len(), 31);
                lemma_pow16_32();
                assert(hex_prefix(s@, i + 1 as int) == hex_prefix(s@, i as int).push(
                    s@[i as int],
                ));
                assert(hex_prefix(s@, i + 1 as int).drop_last() =~= hex_prefix(s@, i as int));
            }
            acc = acc * 16 + (v as u128);
        }
        i = i + 1;
    }
    proof {
        assert(is_canonical_uuid(s@));
    }
    Some(acc)
}

/// Whether canonical UUID text starts at one position.
pub open spec fn uuid_at(s: Seq<char>, i: int) -> bool {
    0 <= i && i + 36 <= s.len() && is_canonical_uuid(s.subrange(i, i + 36))
}

/// The first position at or after `from` where canonical UUID text starts.
pub open spec fn find_uuid_pos(s: Seq<char>, from: int) -> Option<int>
    decreases s.len() - from,
{
    if from < 0 || from + 36 > s.len() {
        None
    } else if uuid_at(s, from) {
        Some(from)
    } else {
        find_uuid_pos(s, from + 1)
    }
}

/// The identifier denoted by the first canonical UUID text in a request
/// path, if the path holds one.
pub fn extract_uuid_from_request(request_path: &str) -> (r: Option<Uid>)
    ensures
        r is Some <==> find_uuid_pos(request_path@, 0) is Some,
        r matches Some(id) ==> {
            let i = find_uuid_pos(request_path@, 0)->Some_0;
            id.value == uuid_value(request_path@.subrange(i, i + 36))
        },
{
    let n = request_path.unicode_len();
    if n < 36 {
        return None;
    }
    let mut i: usize = 0;
    while i <= n - 36
        invariant
            n == request_path@.len(),
            36 <= n,
            find_uuid_pos(request_path@, 0) == find_uuid_pos(request_path@, i as int),
        decreases n - i,
    {
        let window = request_path.substring_char(i, i + 36);
        match parse_uuid(window) {
            Some(v) => {
                proof {
                    assert(uuid_at(request_path@, i as int));
                }
                return Some(Uid { value: v });
            },
            None => {
                proof {
                    assert(!uuid_at(request_path@, i as int));
                }
            },
        }
        i = i + 1;
    }
    None
}

/// The first occurrence of one text inside another, at or after `from`.
pub open spec fn find_sub(s: Seq<char>, t: Seq<char>, from: int) -> Option<int>
    decreases s.len() - from,
{
    if from < 0 || from + t.len() > s.len() {
        None
    } else if t.len() == 0 {
        Some(from)
    } else if s.subrange(from, from + t.len() as int) == t {
        Some(from)
    } else {
        find_sub(s, t, from + 1)
    }
}

proof fn lemma_find_sub_props(s: Seq<char>, t: Seq<char>, from: int)
    ensures
        find_sub(s, t, from) matches Some(i) ==> from <= i && i + t.len() <= s.len(),
    decreases s.len() - from,
{
    if !(from < 0 || from + t.len() > s.len()) && t.len() > 0 && s.subrange(
        from,
        from + t.len() as int,
    ) != t {
        lemma_find_sub_props(s, t, from + 1);
    }
}

fn find_sub_in(s: &str, t: &str, from: usize) -> (r: Option<usize>)
    ensures
        r is Some <==> find_sub(s@, t@, from as int) is Some,
        r matches Some(i) ==> find_sub(s@, t@, from as int) == Some(i as int),
{
    let n = s.unicode_len();
    let m = t.unicode_len();
    if m == 0 {
        if from <= n {
            proof {
                assert(s@.subrange(from as int, from as int) =~= t@);
            }
            return Some(from);
        } else {
            return None;
        }
    }
    if n < m || from > n - m {
        return None;
    }
    let mut i: usize = from;
    while i <= n - m
        invariant
            n == s@.len(),
            m == t@.len(),
            0 < m <= n,
            from <= i,
            find_sub(s@, t@, from as int) == find_sub(s@, t@, i as int),
        decreases n - i,
    {
        let window = s.substring_char(i, i + m);
        if str_eq(window, t) {
            return Some(i);
        }
        i = i + 1;
    }
    None
}

/// Why a request could not be routed.
#[derive(Clone, Copy, Debug, PartialEq, Eq, Structural)]
pub enum RouteError {
    /// Only GET and POST are served.
    UnsupportedMethod,
    /// The path names no known resource.
    UnsupportedPath,
    /// The path names a resource but carries no identifier for it.
    MissingId,
}

/// The registry operation a routed request asks for.
#[derive(Clone, Copy, Debug, PartialEq, Eq, Structural)]
pub enum ApiCall {
    GetManager { manager: Uid },
    GetSpec { manager: Uid, device: Uid },
    GetFs { manager: Uid, device: Uid },
    PostManager,
    PostSpec { manager: Uid },
    PostFs { manager: Uid },
}

/// The routing of a GET path: a snapshot request when the path mentions
/// `/fs`, a descriptor request when it mentions `/spec`, the whole group
/// when it starts with `/device-manager`. Group id: the path's first UUID;
/// device id: the first UUID at or after the facet marker.
pub open spec fn routed_get(path: Seq<char>) -> Result<ApiCall, RouteError> {
    if find_sub(path, "/fs"@, 0) is Some {
        match find_uuid_pos(path, 0) {
            None => Err(RouteError::MissingId),
            Some(m) => {
                let tail = path.subrange(find_sub(path, "/fs"@, 0)->Some_0, path.len() as int);
                match find_uuid_pos(tail, 0) {
                    None => Err(RouteError::MissingId),
                    Some(d) => Ok(
                        ApiCall::GetFs {
                            manager: Uid { value: uuid_value(path.subrange(m, m + 36)) },
                            device: Uid { value: uuid_value(tail.subrange(d, d + 36)) },
                        },
                    ),
                }
            },
        }
    } else if find_sub(path, "/spec"@, 0) is Some {
        match find_uuid_pos(path, 0) {
            None => Err(RouteError::MissingId),
            Some(m) => {
                let tail = path.subrange(find_sub(path, "/spec"@, 0)->Some_0, path.len() as int);
                match find_uuid_pos(tail, 0) {
                    None => Err(RouteError::MissingId),
                    Some(d) => Ok(
                        ApiCall::GetSpec {
                            manager: Uid { value: uuid_value(path.subrange(m, m + 36)) },
                            device: Uid { value: uuid_value(tail.subrange(d, d + 36)) },
                        },
                    ),
                }
            },
        }
    } else if path.len() >= 15 && path.subrange(0, 15) == "/device-manager"@ {
        match find_uuid_pos(path, 0) {
            None => Err(RouteError::MissingId),
            Some(m) => Ok(
                ApiCall::GetManager { manager: Uid { value: uuid_value(path.subrange(m, m + 36)) } },
            ),
        }
    } else {
        Err(RouteError::UnsupportedPath)
    }
}

/// The routing of a POST path, mirroring the GET routing; creating a group
/// needs no identifier.
pub open spec fn routed_post(path: Seq<char>) -> Result<ApiCall, RouteError> {
    if find_sub(path, "/fs"@, 0) is Some {
        match find_uuid_pos(path, 0) {
            None => Err(RouteError::MissingId),
            Some(m) => Ok(
                ApiCall::PostFs { manager: Uid { value: uuid_value(path.subrange(m, m + 36)) } },
            ),
        }
    } else if find_sub(path, "/spec"@, 0) is Some {
        match find_uuid_pos(path, 0) {
            None => Err(RouteError::MissingId),
            Some(m) => Ok(
                ApiCall::PostSpec { manager: Uid { value: uuid_value(path.subrange(m, m + 36)) } },
            ),
        }
    } else if path.len() >= 15 && path.subrange(0, 15) == "/device-manager"@ {
        Ok(ApiCall::PostManager)
    } else {
        Err(RouteError::UnsupportedPath)
    }
}

/// The routing of a whole request.
pub open spec fn routed(method: Seq<char>, path: Seq<char>) -> Result<ApiCall, RouteError> {
    if method == "GET"@ {
        routed_get(path)
    } else if method == "POST"@ {
        routed_post(path)
    } else {
        Err(RouteError::UnsupportedMethod)
    }
}

fn route_get(path: &str) -> (r: Result<ApiCall, RouteError>)
    ensures
        r == routed_get(path@),
{
    let n = path.unicode_len();
    match find_sub_in(path, "/fs", 0) {
        Some(fs_pos) => {
            proof {
                lemma_find_sub_props(path@, "/fs"@, 0);
            }
            match extract_uuid_from_request(path) {
                None => Err(RouteError::MissingId),
                Some(manager) => {
                    let tail = path.substring_char(fs_pos, n);
                    match extract_uuid_from_request(tail) {
                        None => Err(RouteError::MissingId),
                        Some(device) => Ok(ApiCall::GetFs { manager, device }),
                    }
                },
            }
        },
        None => {
            match find_sub_in(path, "/spec", 0) {
                Some(spec_pos) => {
                    proof {
                        lemma_find_sub_props(path@, "/spec"@, 0);
                    }
                    match extract_uuid_from_request(path) {
                        None => Err(RouteError::MissingId),
                        Some(manager) => {
                            let tail = path.substring_char(spec_pos, n);
                            match extract_uuid_from_request(tail) {
                                None => Err(RouteError::MissingId),
                                Some(device) => Ok(ApiCall::GetSpec { manager, device }),
                            }
                        },
                    }
                },
                None => {
                    if n >= 15 && str_eq(path.substring_char(0, 15), "/device-manager") {
                        match extract_uuid_from_request(path) {
                            None => Err(RouteError::MissingId),
                            Some(manager) => Ok(ApiCall::GetManager { manager }),
                        }
                    } else {
                        Err(RouteError::UnsupportedPath)
                    }
                },
            }
        },
    }
}

fn route_post(path: &str) -> (r: Result<ApiCall, RouteError>)
    ensures
        r == routed_post(path@),
{
    let n = path.unicode_len();
    match find_sub_in(path, "/fs", 0) {
        Some(_) => {
            match extract_uuid_from_request(path) {
                None => Err(RouteError::MissingId),
                Some(manager) => Ok(ApiCall::PostFs { manager }),
            }
        },
        None => {
            match find_sub_in(path, "/spec", 0) {
                Some(_) => {
                    match extract_uuid_from_request(path) {
                        None => Err(RouteError::MissingId),
                        Some(manager) => Ok(ApiCall::PostSpec { manager }),
                    }
                },
                None => {
                    if n >= 15 && str_eq(path.substring_char(0, 15), "/device-manager") {
                        Ok(ApiCall::PostManager)
                    } else {
                        Err(RouteError::UnsupportedPath)
                    }
                },
            }
        },
    }
}

/// Maps a parsed request onto the registry operation it asks for.
pub fn method_router(request: &Request) -> (r: Result<ApiCall, RouteError>)
    ensures
        r == routed(request.method@, request.path@),
{
    if str_eq(request.method.as_str(), "GET") {
        route_get(request.path.as_str())
    } else if str_eq(request.method.as_str(), "POST") {
        route_post(request.path.as_str())
    } else {
        Err(RouteError::UnsupportedMethod)
    }
}

/// The character of one hexadecimal digit value, lowercase.
pub open spec fn hex_digit_char(d: nat) -> char {
    if d == 0 {
        '0'
    } else if d == 1 {
        '1'
    } else if d == 2 {
        '2'
    } else if d == 3 {
        '3'
    } else if d == 4 {
        '4'
    } else if d == 5 {
        '5'
    } else if d == 6 {
        '6'
    } else if d == 7 {
        '7'
    } else if d == 8 {
        '8'
    } else if d == 9 {
        '9'
    } else if d == 10 {
        'a'
    } else if d == 11 {
        'b'
    } else if d == 12 {
        'c'
    } else if d == 13 {
        'd'
    } else if d == 14 {
        'e'
    } else {
        'f'
    }
}

/// How many hyphens canonical UUID text holds before one position.
pub open spec fn hyphens_before(i: int) -> int {
    (if i > 8 {
        1int
    } else {
        0int
    }) + (if i > 13 {
        1int
    } else {
        0int
    }) + (if i > 18 {
        1int
    } else {
        0int
    }) + (if i > 23 {
        1int
    } else {
        0int
    })
}

/// The `k`-th hexadecimal digit of an identifier, most significant first.
pub open spec fn nibble(v: u128, k: int) -> nat {
    ((v as nat) / pow16((31 - k) as nat)) % 16
}

/// The canonical text of an identifier: its 32 hexadecimal digits in the
/// five hyphen-separated groups.
pub open spec fn uuid_text_of(v: u128) -> Seq<char> {
    Seq::new(
        36,
        |i: int|
            if i == 8 || i == 13 || i == 18 || i == 23 {
                '-'
            } else {
                hex_digit_char(nibble(v, i - hyphens_before(i)))
            },
    )
}

fn hex_digit_str(d: u8) -> (r: &'static str)
    requires
        d < 16,
    ensures
        r@ == seq![hex_digit_char(d as nat)],
{
    proof {
        reveal_strlit("0");
        reveal_strlit("1");
        reveal_strlit("2");
        reveal_strlit("3");
        reveal_strlit("4");
        reveal_strlit("5");
        reveal_strlit("6");
        reveal_strlit("7");
        reveal_strlit("8");
        reveal_strlit("9");
        reveal_strlit("a");
        reveal_strlit("b");
        reveal_strlit("c");
        reveal_strlit("d");
        reveal_strlit("e");
        reveal_strlit("f");
    }
    let r = if d == 0 {
        "0"
    } else if d == 1 {
        "1"
    } else if d == 2 {
        "2"
    } else if d == 3 {
        "3"
    } else if d == 4 {
        "4"
    } else if d == 5 {
        "5"
    } else if d == 6 {
        "6"
    } else if d == 7 {
        "7"
    } else if d == 8 {
        "8"
    } else if d == 9 {
        "9"
    } else if d == 10 {
        "a"
    } else if d == 11 {
        "b"
    } else if d == 12 {
        "c"
    } else if d == 13 {
        "d"
    } else if d == 14 {
        "e"
    } else {
        "f"
    };
    proof {
        assert(r@ =~= seq![hex_digit_char(d as nat)]);
    }
    r
}

proof fn lemma_pow16_pos(n: nat)
    ensures
        pow16(n) >= 1,
    decreases n,
{
    if n > 0 {
        lemma_pow16_pos((n - 1) as nat);
    }
}

/// Renders an identifier as canonical UUID text.
pub fn uuid_text(v: u128) -> (r: String)
    ensures
        r@ == uuid_text_of(v),
{
    let mut rev: Vec<u8> = Vec::new();
    let mut x = v;
    let mut j: usize = 0;
    proof {
        vstd::arithmetic::div_mod::lemma_div_basics(v as int);
        assert(pow16(0) == 1);
    }
    while j < 32
        invariant
            j <= 32,
            rev@.len() == j,
            x as nat == (v as nat) / pow16(j as nat),
            forall|t: int| 0 <= t < j ==> rev@[t] as nat == nibble(v, 31 - t),
        decreases 32 - j,
    {
        proof {
            lemma_pow16_pos(j as nat);
            vstd::arithmetic::div_mod::lemma_div_denominator(
                v as int,
                pow16(j as nat) as int,
                16,
            );
            assert(pow16((j + 1) as nat) == 16 * pow16(j as nat));
            assert(((v as nat) / pow16(j as nat)) % 16 == nibble(v, 31 - (j as int)));
        }
        let d = (x % 16) as u8;
        rev.push(d);
        x = x / 16;
        j = j + 1;
    }
    let mut out = String::new();
    let mut hy: usize = 0;
    let mut i: usize = 0;
    while i < 36
        invariant
            i <= 36,
            rev@.len() == 32,
            forall|t: int| 0 <= t < 32 ==> rev@[t] as nat == nibble(v, 31 - t),
            hy as int == hyphens_before(i as int),
            out@ == uuid_text_of(v).subrange(0, i as int),
        decreases 36 - i,
    {
        if i == 8 || i == 13 || i == 18 || i == 23 {
            out.append("-");
            proof {
                reveal_strlit("-");
                assert(out@ =~= uuid_text_of(v).subrange(0, i + 1 as int));
            }
            hy = hy + 1;
        } else {
            let di = i - hy;
            let d = rev[31 - di];
            let ds = hex_digit_str(d);
            out.append(ds);
            proof {
                assert(rev@[31 - di as int] as nat == nibble(v, di as int));
                assert(out@ =~= uuid_text_of(v).subrange(0, i + 1 as int));
            }
        }
        i = i + 1;
    }
    proof {
        assert(uuid_text_of(v).subrange(0, 36) =~= uuid_text_of(v));
    }
    out
}

proof fn lemma_hex_val_of_digit_char(d: nat)
    requires
        d < 16,
    ensures
        is_hex_digit(hex_digit_char(d)),
        hex_val(hex_digit_char(d)) == d,
{
}

/// The digit characters of rendered text, position by position.
proof fn lemma_hex_prefix_of_text(v: u128, i: int)
    requires
        0 <= i <= 36,
    ensures
        hex_prefix(uuid_text_of(v), i) =~= Seq::new(
            (i - hyphens_before(i)) as nat,
            |k: int| hex_digit_char(nibble(v, k)),
        ),
    decreases i,
{
    if i > 0 {
        lemma_hex_prefix_of_text(v, i - 1);
    }
}

/// Reading the rendered digits back, most significant first, rebuilds the
/// identifier digit by digit.
proof fn lemma_nibs_value(v: u128, k: int)
    requires
        0 <= k <= 32,
    ensures
        hex_seq_value(Seq::new(k as nat, |t: int| hex_digit_char(nibble(v, t)))) == (v as nat)
            / pow16((32 - k) as nat),
    decreases k,
{
    let f = |t: int| hex_digit_char(nibble(v, t));
    if k == 0 {
        lemma_pow16_32();
        vstd::arithmetic::div_mod::lemma_basic_div(v as int, pow16(32) as int);
        assert(Seq::new(0, f) =~= Seq::<char>::empty());
    } else {
        lemma_nibs_value(v, k - 1);
        let s = Seq::new(k as nat, f);
        assert(s.drop_last() =~= Seq::new((k - 1) as nat, f));
        assert(s.last() == f(k - 1));
        lemma_hex_val_of_digit_char(nibble(v, k - 1));
        let p = pow16((32 - k) as nat);
        let y = (v as nat) / p;
        lemma_pow16_pos((32 - k) as nat);
        vstd::arithmetic::div_mod::lemma_fundamental_div_mod(y as int, 16);
        vstd::arithmetic::div_mod::lemma_div_denominator(v as int, p as int, 16);
        assert(pow16((33 - k) as nat) == 16 * pow16((32 - k) as nat));
        assert(nibble(v, k - 1) == y % 16);
        assert(hex_seq_value(s) == hex_seq_value(s.drop_last()) * 16 + hex_val(s.last()));
        assert(hex_seq_value(s.drop_last()) == (v as nat) / pow16((33 - k) as nat));
        assert((v as nat) / pow16((33 - k) as nat) == y / 16);
        assert(y == 16 * (y / 16) + y % 16);
    }
}

/// Law: rendering an identifier as canonical UUID text and reading the
/// text back yields the identifier.
pub proof fn lemma_uuid_text_round_trip(v: u128)
    ensures
        is_canonical_uuid(uuid_text_of(v)),
        uuid_value(uuid_text_of(v)) == v,
{
    assert forall|i: int| 0 <= i < 36 implies #[trigger] uuid_char_ok(uuid_text_of(v), i) by {
        if !(i == 8 || i == 13 || i == 18 || i == 23) {
            lemma_hex_val_of_digit_char(nibble(v, i - hyphens_before(i)));
        }
    }
    lemma_hex_prefix_of_text(v, 36);
    lemma_nibs_value(v, 32);
    vstd::arithmetic::div_mod::lemma_div_basics(v as int);
    assert(pow16(0) == 1);
    assert((v as nat) / 1 == v as nat);
}

} // verus!
