//! Signed-in users, roles, session cookies and login checks.

use vstd::prelude::*;
use argon2::password_hash::{PasswordHash, PasswordHasher, PasswordVerifier, SaltString};
use base64::Engine;
use rand::RngCore;
use sha2::Digest;
use crate::text::{
    chars_of, has_prefix, push_char, push_str, starts_with, str_eq, to_owned_string, trim, trimmed,
};

verus! {

/// Name of the session cookie.
pub const SESSION_COOKIE_NAME: &'static str = "pms_session";

/// Lifetime of a session, in seconds (12 hours).
pub const SESSION_TTL_SECONDS: i64 = 43_200;

/// The user a valid session belongs to.
#[derive(Clone, Debug)]
pub struct AuthenticatedUser {
    pub id: i32,
    pub username: String,
    pub full_name: String,
    pub role: String,
}

/// Roles that may generate, approve and execute payroll.
pub open spec fn manages_payroll(role: Seq<char>) -> bool {
    role == "admin"@ || role == "payroll"@
}

impl AuthenticatedUser {
    /// Whether the user may generate, approve and execute payroll: only the
    /// `admin` and `payroll` roles may.
    pub fn can_manage_payroll(&self) -> (r: bool)
        ensures
            r == manages_payroll(self.role@),
    {
        str_eq(self.role.as_str(), "admin") || str_eq(self.role.as_str(), "payroll")
    }
}

/// A setting value that switches a feature on: `1`, `true`, `TRUE`, `yes` or
/// `YES`.
pub open spec fn is_truthy(value: Seq<char>) -> bool {
    value == "1"@ || value == "true"@ || value == "TRUE"@ || value == "yes"@ || value == "YES"@
}

/// Reads an on/off setting; an absent setting takes `default`.
pub fn setting_enabled(value: Option<&str>, default: bool) -> (r: bool)
    ensures
        r == (match value {
            Some(v) => is_truthy(v@),
            None => default,
        }),
{
    match value {
        Some(v) => str_eq(v, "1") || str_eq(v, "true") || str_eq(v, "TRUE") || str_eq(v, "yes")
            || str_eq(v, "YES"),
        None => default,
    }
}

/// The pieces of `s` between occurrences of `c`, as `str::split` yields them
/// (empty pieces included).
pub open spec fn split_on(s: Seq<char>, c: char) -> Seq<Seq<char>>
    decreases s.len(),
{
    if s.len() == 0 {
        seq![Seq::empty()]
    } else {
        let init = split_on(s.drop_last(), c);
        if s.last() == c {
            init.push(Seq::empty())
        } else {
            init.update(init.len() - 1, init.last().push(s.last()))
        }
    }
}

proof fn lemma_split_on_nonempty(s: Seq<char>, c: char)
    ensures
        split_on(s, c).len() >= 1,
    decreases s.len(),
{
    if s.len() > 0 {
        lemma_split_on_nonempty(s.drop_last(), c);
    }
}

/// Splits a string at every occurrence of `c`.
pub fn split_at_char(s: &str, c: char) -> (r: Vec<String>)
    ensures
        crate::reports::views(r@) == split_on(s@, c),
{
    let chars = chars_of(s);
    let mut pieces: Vec<String> = Vec::new();
    let mut current = String::new();
    let mut i: usize = 0;
    while i < chars.len()
        invariant
            i <= chars.len(),
            chars@ == s@,
            crate::reports::views(pieces@).push(current@) == split_on(s@.subrange(0, i as int), c),
        decreases chars.len() - i,
    {
        let ch = chars[i];
        let ghost sub = s@.subrange(0, (i + 1) as int);
        assert(sub.drop_last() == s@.subrange(0, i as int));
        assert(sub.last() == ch);
        proof {
            lemma_split_on_nonempty(s@.subrange(0, i as int), c);
        }
        if ch == c {
            let ghost old_pieces = pieces@;
            let done = current;
            pieces.push(done);
            current = String::new();
            assert(crate::reports::views(pieces@) =~= crate::reports::views(old_pieces).push(done@));
        } else {
            let ghost old_views = crate::reports::views(pieces@);
            push_char(&mut current, ch);
            assert(old_views.push(current@) =~= split_on(s@.subrange(0, i as int), c).update(
                split_on(s@.subrange(0, i as int), c).len() - 1,
                split_on(s@.subrange(0, i as int), c).last().push(ch),
            ));
        }
        i = i + 1;
    }
    assert(s@.subrange(0, chars.len() as int) == s@);
    let ghost before = pieces@;
    pieces.push(current);
    assert(crate::reports::views(pieces@) =~= crate::reports::views(before).push(current@));
    pieces
}

/// The first position of `c` in `s`, if any.
pub open spec fn first_index_of(s: Seq<char>, c: char) -> Option<int> {
    if s.contains(c) {
        Some(choose|i: int| 0 <= i < s.len() && s[i] == c && forall|j: int| 0 <= j < i ==> s[j] != c)
    } else {
        None
    }
}

/// A cookie pair: the trimmed part split at its first `=`, key and value
/// each trimmed; none when the part has no `=`.
pub open spec fn cookie_pair(part: Seq<char>) -> Option<(Seq<char>, Seq<char>)> {
    let p = trimmed(part);
    match first_index_of(p, '=') {
        Some(i) => Some((trimmed(p.subrange(0, i)), trimmed(p.subrange(i + 1, p.len() as int)))),
        None => None,
    }
}

/// The part of a cookie header whose key is `name` and whose value is not
/// empty.
pub open spec fn matches_cookie(part: Seq<char>, name: Seq<char>) -> bool {
    match cookie_pair(part) {
        Some(kv) => kv.0 == name && kv.1.len() > 0,
        None => false,
    }
}

/// The value of the first cookie named `name` with a non-empty value in a
/// `Cookie` header: the header is split at `;`, each part at its first `=`.
pub open spec fn spec_cookie_value(header: Seq<char>, name: Seq<char>) -> Option<Seq<char>> {
    let parts = split_on(header, ';');
    if exists|i: int| 0 <= i < parts.len() && matches_cookie(#[trigger] parts[i], name) {
        let i = choose|i: int|
            0 <= i < parts.len() && matches_cookie(#[trigger] parts[i], name) && forall|j: int|
                0 <= j < i ==> !matches_cookie(#[trigger] parts[j], name);
        Some(cookie_pair(parts[i]).unwrap().1)
    } else {
        None
    }
}

/// The position of the first `c` in `s`.
fn find_char(s: &Vec<char>, c: char) -> (r: Option<usize>)
    ensures
        r matches Some(i) ==> first_index_of(s@, c) == Some(i as int) && i < s@.len(),
        r is None ==> first_index_of(s@, c) is None,
{
    let mut i: usize = 0;
    while i < s.len()
        invariant
            i <= s.len(),
            forall|j: int| 0 <= j < i ==> s@[j] != c,
        decreases s.len() - i,
    {
        if s[i] == c {
            assert(s@.contains(c));
            let ghost w = choose|k: int|
                0 <= k < s@.len() && s@[k] == c && forall|j: int| 0 <= j < k ==> s@[j] != c;
            assert(0 <= i && i < s@.len() && s@[i as int] == c && forall|j: int|
                0 <= j < i ==> s@[j] != c);
            assert(w == i) by {
                if w < i {
                    assert(s@[w] != c);
                } else if w > i {
                    assert(s@[i as int] != c);
                }
            }
            return Some(i);
        }
        i = i + 1;
    }
    assert(!s@.contains(c));
    None
}

/// A string made of `chars[from..to]`.
fn slice_string(chars: &Vec<char>, from: usize, to: usize) -> (r: String)
    requires
        from <= to <= chars@.len(),
    ensures
        r@ == chars@.subrange(from as int, to as int),
{
    let mut out = String::new();
    let mut i = from;
    while i < to
        invariant
            from <= i <= to <= chars@.len(),
            out@ == chars@.subrange(from as int, i as int),
        decreases to - i,
    {
        push_char(&mut out, chars[i]);
        assert(chars@.subrange(from as int, (i + 1) as int) == chars@.subrange(from as int, i as int).push(
            chars@[i as int],
        ));
        i = i + 1;
    }
    out
}

/// The key and value of one part of a cookie header.
fn parse_cookie_pair(part: &str) -> (r: Option<(String, String)>)
    ensures
        r matches Some(kv) ==> cookie_pair(part@) == Some((kv.0@, kv.1@)),
        r is None ==> cookie_pair(part@) is None,
{
    let p = trim(part);
    let chars = chars_of(p.as_str());
    let n = chars.len();
    match find_char(&chars, '=') {
        Some(i) => {
            let key_raw = slice_string(&chars, 0, i);
            let value_raw = slice_string(&chars, i + 1, n);
            let key = trim(key_raw.as_str());
            let value = trim(value_raw.as_str());
            Some((key, value))
        },
        None => None,
    }
}

/// The value of the cookie `name` in a `Cookie` header, if the header holds
/// one with a non-empty value.
pub fn cookie_value(cookie_header: &str, name: &str) -> (r: Option<String>)
    ensures
        r matches Some(v) ==> spec_cookie_value(cookie_header@, name@) == Some(v@),
        r is None ==> spec_cookie_value(cookie_header@, name@) is None,
{
    let parts = split_at_char(cookie_header, ';');
    let ghost ps = split_on(cookie_header@, ';');
    let mut i: usize = 0;
    while i < parts.len()
        invariant
            i <= parts.len(),
            crate::reports::views(parts@) == ps,
            ps == split_on(cookie_header@, ';'),
            forall|j: int| 0 <= j < i ==> !matches_cookie(#[trigger] ps[j], name@),
        decreases parts.len() - i,
    {
        assert(ps[i as int] == parts@[i as int]@);
        match parse_cookie_pair(parts[i].as_str()) {
            Some((key, value)) => {
                let value_chars = chars_of(value.as_str());
                if str_eq(key.as_str(), name) && value_chars.len() > 0 {
                    assert(matches_cookie(ps[i as int], name@));
                    let ghost k = choose|k: int|
                        0 <= k < ps.len() && matches_cookie(#[trigger] ps[k], name@) && forall|j: int|
                            0 <= j < k ==> !matches_cookie(#[trigger] ps[j], name@);
                    assert(0 <= i < ps.len() && matches_cookie(ps[i as int], name@) && forall|j: int|
                        0 <= j < i ==> !matches_cookie(#[trigger] ps[j], name@));
                    assert(k == i) by {
                        if k < i {
                            assert(!matches_cookie(ps[k], name@));
                        } else if k > i {
                            assert(!matches_cookie(ps[i as int], name@));
                        }
                    }
                    return Some(value);
                }
            },
            None => {},
        }
        i = i + 1;
    }
    None
}

/// The `Set-Cookie` value of a new session.
pub open spec fn session_cookie_text(token: Seq<char>, max_age: int, secure: bool) -> Seq<char> {
    "pms_session="@ + token + "; Path=/; HttpOnly; SameSite=Lax; Max-Age="@ + crate::text::int_text(
        max_age,
    ) + (if secure {
        "; Secure"@
    } else {
        Seq::empty()
    })
}

/// The `Set-Cookie` value of a new session: `pms_session=<token>; Path=/;
/// HttpOnly; SameSite=Lax; Max-Age=<seconds>`, with `; Secure` when secure
/// cookies are on.
pub fn session_cookie_value(token: &str, max_age: i64, secure: bool) -> (r: String)
    ensures
        r@ == session_cookie_text(token@, max_age as int, secure),
{
    let mut out = to_owned_string("pms_session=");
    push_str(&mut out, token);
    push_str(&mut out, "; Path=/; HttpOnly; SameSite=Lax; Max-Age=");
    let age = crate::text::i64_to_string(max_age);
    push_str(&mut out, age.as_str());
    if secure {
        push_str(&mut out, "; Secure");
    }
    out
}

proof fn lemma_split_on_single(a: Seq<char>, c: char)
    requires
        !a.contains(c),
    ensures
        split_on(a, c) == seq![a],
    decreases a.len(),
{
    if a.len() > 0 {
        assert(!a.drop_last().contains(c)) by {
            if a.drop_last().contains(c) {
                let k = choose|k: int| 0 <= k < a.drop_last().len() && a.drop_last()[k] == c;
                assert(a[k] == c);
            }
        }
        lemma_split_on_single(a.drop_last(), c);
        assert(a.last() != c) by {
            assert(a[a.len() - 1] == a.last());
        }
        assert(a.drop_last().push(a.last()) == a);
        assert(split_on(a, c) =~= seq![a]);
    } else {
        assert(a =~= Seq::<char>::empty());
        assert(split_on(a, c) =~= seq![a]);
    }
}

proof fn lemma_split_on_keeps_first(x: Seq<char>, y: Seq<char>, c: char)
    requires
        x.len() > 0,
        x.last() == c,
    ensures
        split_on(x + y, c).len() >= 2,
        split_on(x + y, c)[0] == split_on(x, c)[0],
    decreases y.len(),
{
    if y.len() == 0 {
        assert(x + y == x);
        lemma_split_on_nonempty(x.drop_last(), c);
    } else {
        assert((x + y).drop_last() == x + y.drop_last());
        lemma_split_on_keeps_first(x, y.drop_last(), c);
    }
}

proof fn lemma_trimmed_unchanged(s: Seq<char>)
    requires
        s.len() > 0,
        !crate::text::is_whitespace(s[0]),
        !crate::text::is_whitespace(s.last()),
    ensures
        trimmed(s) == s,
{
    assert(crate::text::trim_start(s) == s);
}

/// A session cookie reads back as written: in the `Set-Cookie` value of a
/// session, the cookie named `pms_session` has the session's token as its
/// value, for every non-empty token without `;` and without whitespace at
/// its ends.
pub proof fn lemma_session_cookie_reads_back(token: Seq<char>, max_age: int, secure: bool)
    requires
        token.len() > 0,
        !token.contains(';'),
        !crate::text::is_whitespace(token[0]),
        !crate::text::is_whitespace(token.last()),
    ensures
        spec_cookie_value(session_cookie_text(token, max_age, secure), SESSION_COOKIE_NAME@)
            == Some(token),
{
    reveal_strlit("pms_session");
    reveal_strlit("pms_session=");
    reveal_strlit("; Path=/; HttpOnly; SameSite=Lax; Max-Age=");
    let name = "pms_session"@;
    let first = "pms_session="@ + token;
    let header = session_cookie_text(token, max_age, secure);
    let rest = "; Path=/; HttpOnly; SameSite=Lax; Max-Age="@ + crate::text::int_text(max_age) + (
    if secure {
        "; Secure"@
    } else {
        Seq::empty()
    });
    assert(header == first + rest);
    assert(rest[0] == ';');
    let x = first.push(';');
    assert(header == x + rest.drop_first()) by {
        assert(rest == seq![';'] + rest.drop_first());
    }
    assert(!first.contains(';')) by {
        if first.contains(';') {
            let k = choose|k: int| 0 <= k < first.len() && first[k] == ';';
            if k >= 12 {
                assert(token[k - 12] == ';');
            }
        }
    }
    lemma_split_on_single(first, ';');
    assert(x.drop_last() == first);
    lemma_split_on_keeps_first(x, rest.drop_first(), ';');
    let parts = split_on(header, ';');
    assert(parts[0] == first);
    // the part reads as the pair (pms_session, token)
    assert(first[0] == 'p');
    assert(first.last() == token.last());
    lemma_trimmed_unchanged(first);
    assert(first[11] == '=');
    assert(forall|j: int| 0 <= j < 11 ==> first[j] != '=');
    let i = choose|i: int|
        0 <= i < first.len() && first[i] == '=' && forall|j: int| 0 <= j < i ==> first[j] != '=';
    assert(first.contains('='));
    assert(i == 11) by {
        if i < 11 {
            assert(first[i] != '=');
        } else if i > 11 {
            assert(first[11] != '=');
        }
    }
    assert(first.subrange(0, 11) == name);
    assert(first.subrange(12, first.len() as int) == token);
    lemma_trimmed_unchanged(name);
    lemma_trimmed_unchanged(token);
    assert(cookie_pair(first) == Some((name, token)));
    assert(matches_cookie(parts[0], name));
    let k = choose|k: int|
        0 <= k < parts.len() && matches_cookie(#[trigger] parts[k], name) && forall|j: int|
            0 <= j < k ==> !matches_cookie(#[trigger] parts[j], name);
    assert(k == 0) by {
        if k > 0 {
            assert(!matches_cookie(parts[0], name));
        }
    }
}

/// How a request without a valid session is answered.
#[derive(Clone, Copy, Debug, PartialEq, Eq)]
pub enum UnauthenticatedReply {
    /// `401` with `{"error":"Unauthorized"}`, for API paths.
    Unauthorized,
    /// A redirect to `/login`, for pages.
    RedirectToLogin,
}

/// API paths (under `/api/`) are refused with 401, pages redirect to the
/// login page.
pub fn unauthenticated_reply(path: &str) -> (r: UnauthenticatedReply)
    ensures
        r == (if has_prefix(path@, "/api/"@) {
            UnauthenticatedReply::Unauthorized
        } else {
            UnauthenticatedReply::RedirectToLogin
        }),
{
    if starts_with(path, "/api/") {
        UnauthenticatedReply::Unauthorized
    } else {
        UnauthenticatedReply::RedirectToLogin
    }
}

/// The SHA-256 digest of a byte string.
pub uninterp spec fn sha256(bytes: Seq<u8>) -> Seq<u8>;

/// `Sha256::digest` (sha2).
///
/// Claims that the digest is `sha256` of the input and 32 bytes long.
#[verifier::external_body]
pub(crate) fn sha256_digest(value: &[u8]) -> (r: Vec<u8>)
    ensures
        r@ == sha256(value@),
        r@.len() == 32,
{
    sha2::Sha256::digest(value).to_vec()
}

/// The lowercase hexadecimal digit of `n` (0 to 15).
pub open spec fn hex_digit(n: int) -> char {
    if n < 10 {
        (('0' as int) + n) as char
    } else {
        (('a' as int) + n - 10) as char
    }
}

/// Bytes as lowercase hexadecimal, two digits per byte (`{:02x}`).
pub open spec fn hex_text(bytes: Seq<u8>) -> Seq<char>
    decreases bytes.len(),
{
    if bytes.len() == 0 {
        Seq::empty()
    } else {
        hex_text(bytes.drop_last()) + seq![
            hex_digit(bytes.last() as int / 16),
            hex_digit(bytes.last() as int % 16),
        ]
    }
}

proof fn lemma_hex_text_len(bytes: Seq<u8>)
    ensures
        hex_text(bytes).len() == 2 * bytes.len(),
    decreases bytes.len(),
{
    if bytes.len() > 0 {
        lemma_hex_text_len(bytes.drop_last());
    }
}

fn hex_char(n: u8) -> (r: char)
    requires
        n < 16,
    ensures
        r == hex_digit(n as int),
{
    let digits: [char; 16] = [
        '0', '1', '2', '3', '4', '5', '6', '7', '8', '9', 'a', 'b', 'c', 'd', 'e', 'f',
    ];
    let c = digits[n as usize];
    assert(c == hex_digit(n as int)) by {
        assert(digits@[n as int] == hex_digit(n as int));
    }
    c
}

/// The SHA-256 digest of a byte string as 64 lowercase hexadecimal digits.
pub fn sha256_hex(value: &[u8]) -> (r: String)
    ensures
        r@ == hex_text(sha256(value@)),
        r@.len() == 64,
{
    let digest = sha256_digest(value);
    let mut out = String::new();
    let mut i: usize = 0;
    while i < digest.len()
        invariant
            i <= digest.len(),
            out@ == hex_text(digest@.subrange(0, i as int)),
        decreases digest.len() - i,
    {
        let byte = digest[i];
        assert(digest@.subrange(0, (i + 1) as int).drop_last() == digest@.subrange(0, i as int));
        push_char(&mut out, hex_char(byte / 16));
        push_char(&mut out, hex_char(byte % 16));
        i = i + 1;
    }
    assert(digest@.subrange(0, digest.len() as int) == digest@);
    proof {
        lemma_hex_text_len(digest@);
    }
    out
}

/// The hash under which a session token is stored: the SHA-256 of its UTF-8
/// bytes, in hexadecimal.
pub fn session_token_hash(token: &str) -> (r: String)
    ensures
        r@ == hex_text(sha256(vstd::utf8::encode_utf8(token@))),
{
    sha256_hex(token.as_bytes())
}

/// Fills 32 bytes from the operating system's random source (`OsRng`).
///
/// Claims only the length; the bytes are random.
#[verifier::external_body]
pub(crate) fn random_token_bytes() -> (r: Vec<u8>)
    ensures
        r@.len() == 32,
{
    let mut bytes = [0u8; 32];
    rand::rngs::OsRng.fill_bytes(&mut bytes);
    bytes.to_vec()
}

/// The character of a six-bit value in the URL-safe base64 alphabet
/// (`A-Z`, `a-z`, `0-9`, `-`, `_`).
pub open spec fn base64_url_char(v: int) -> char {
    if v < 26 {
        (('A' as int) + v) as char
    } else if v < 52 {
        (('a' as int) + v - 26) as char
    } else if v < 62 {
        (('0' as int) + v - 52) as char
    } else if v == 62 {
        '-'
    } else {
        '_'
    }
}

/// The URL-safe base64 text of bytes, without padding: each group of three
/// bytes as four characters of six bits each, most significant bits first; a
/// last group of two bytes as three characters and of one byte as two, the
/// missing low bits zero.
pub open spec fn base64_url_text(bytes: Seq<u8>) -> Seq<char>
    decreases bytes.len(),
{
    let b0 = if bytes.len() > 0 { bytes[0] as int } else { 0 };
    let b1 = if bytes.len() > 1 { bytes[1] as int } else { 0 };
    let b2 = if bytes.len() > 2 { bytes[2] as int } else { 0 };
    if bytes.len() == 0 {
        Seq::empty()
    } else if bytes.len() == 1 {
        seq![base64_url_char(b0 / 4), base64_url_char((b0 % 4) * 16)]
    } else if bytes.len() == 2 {
        seq![
            base64_url_char(b0 / 4),
            base64_url_char((b0 % 4) * 16 + b1 / 16),
            base64_url_char((b1 % 16) * 4),
        ]
    } else {
        seq![
            base64_url_char(b0 / 4),
            base64_url_char((b0 % 4) * 16 + b1 / 16),
            base64_url_char((b1 % 16) * 4 + b2 / 64),
            base64_url_char(b2 % 64),
        ] + base64_url_text(bytes.skip(3))
    }
}

/// Encodes bytes with base64's `URL_SAFE_NO_PAD` engine.
///
/// Claims that the text is [`base64_url_text`] of the bytes, which has four
/// characters for each three bytes and no padding (`ceil(4n/3)` characters).
#[verifier::external_body]
pub(crate) fn base64_url_no_pad(bytes: &[u8]) -> (r: String)
    ensures
        r@ == base64_url_text(bytes@),
        r@.len() == (4 * bytes@.len() + 2) / 3,
{
    base64::engine::general_purpose::URL_SAFE_NO_PAD.encode(bytes)
}

/// A new session token: 32 random bytes in URL-safe base64 without padding
/// (43 characters).
pub fn create_session_token() -> (r: String)
    ensures
        r@.len() == 43,
        exists|bytes: Seq<u8>| bytes.len() == 32 && r@ == base64_url_text(bytes),
{
    let bytes = random_token_bytes();
    let token = base64_url_no_pad(bytes.as_slice());
    assert(token@ == base64_url_text(bytes@));
    token
}

/// Whether a password matches a stored PHC hash string under Argon2: absent
/// when the hash string does not parse.
pub uninterp spec fn password_check(password: Seq<char>, phc: Seq<char>) -> Option<bool>;

/// `PasswordHash::new` then `Argon2::default().verify_password`.
///
/// Claims that the outcome is `password_check` of the password and hash:
/// `None` when the hash does not parse, otherwise whether it verifies.
#[verifier::external_body]
pub(crate) fn verify_password(password: &str, phc: &str) -> (r: Option<bool>)
    ensures
        r == password_check(password@, phc@),
{
    match PasswordHash::new(phc) {
        Ok(hash) => Some(argon2::Argon2::default().verify_password(password.as_bytes(), &hash).is_ok()),
        Err(_) => None,
    }
}

/// `Argon2::default().hash_password` with a fresh random salt.
///
/// Claims that a produced hash verifies the password it was made from (the
/// salt, and so the text, is random), and that hashing succeeds whenever the
/// password has at most `argon2::MAX_PWD_LEN` (2^32 - 1) bytes: with the
/// default parameters and a generated 16-byte salt, an over-long password is
/// the only input `hash_password` refuses.
#[verifier::external_body]
pub(crate) fn hash_new_password(password: &str) -> (r: Option<String>)
    ensures
        r matches Some(h) ==> password_check(password@, h@) == Some(true),
        vstd::utf8::encode_utf8(password@).len() <= 0xFFFF_FFFF ==> r is Some,
{
    let salt = SaltString::generate(&mut rand::rngs::OsRng);
    match argon2::Argon2::default().hash_password(password.as_bytes(), &salt) {
        Ok(hash) => Some(hash.to_string()),
        Err(_) => None,
    }
}

/// Why a login is refused.
#[derive(Clone, Copy, Debug, PartialEq, Eq)]
pub enum LoginRefusal {
    /// The username or password is blank.
    MissingCredentials,
    /// No such user, or the password does not match.
    InvalidCredentials,
    /// The account is switched off.
    InactiveAccount,
    /// The stored hash cannot be read.
    InvalidPasswordHash,
}

/// The HTTP status of a login refusal.
pub open spec fn login_refusal_status(r: LoginRefusal) -> u16 {
    match r {
        LoginRefusal::MissingCredentials => 400,
        LoginRefusal::InvalidCredentials => 401,
        LoginRefusal::InactiveAccount => 403,
        LoginRefusal::InvalidPasswordHash => 500,
    }
}

/// The message of a login refusal.
pub open spec fn login_refusal_message(r: LoginRefusal) -> Seq<char> {
    match r {
        LoginRefusal::MissingCredentials => "Username and password are required"@,
        LoginRefusal::InvalidCredentials => "Invalid credentials"@,
        LoginRefusal::InactiveAccount => "User account is inactive"@,
        LoginRefusal::InvalidPasswordHash => "Invalid password hash"@,
    }
}

impl LoginRefusal {
    /// The HTTP status code of the refusal.
    pub fn status_code(&self) -> (r: u16)
        ensures
            r == login_refusal_status(*self),
    {
        match self {
            LoginRefusal::MissingCredentials => 400,
            LoginRefusal::InvalidCredentials => 401,
            LoginRefusal::InactiveAccount => 403,
            LoginRefusal::InvalidPasswordHash => 500,
        }
    }

    /// The message the refusal is answered with.
    pub fn message(&self) -> (r: String)
        ensures
            r@ == login_refusal_message(*self),
    {
        match self {
            LoginRefusal::MissingCredentials => to_owned_string("Username and password are required"),
            LoginRefusal::InvalidCredentials => to_owned_string("Invalid credentials"),
            LoginRefusal::InactiveAccount => to_owned_string("User account is inactive"),
            LoginRefusal::InvalidPasswordHash => to_owned_string("Invalid password hash"),
        }
    }
}

/// Reads the credentials of a login request: both are trimmed and must not be
/// blank.
pub fn check_login_input(username: &str, password: &str) -> (r: Result<(String, String), LoginRefusal>)
    ensures
        match r {
            Ok((u, p)) => u@ == trimmed(username@) && p@ == trimmed(password@) && u@.len() > 0
                && p@.len() > 0,
            Err(e) => e == LoginRefusal::MissingCredentials && (trimmed(username@).len() == 0
                || trimmed(password@).len() == 0),
        },
{
    let u = trim(username);
    let p = trim(password);
    if chars_of(u.as_str()).len() == 0 || chars_of(p.as_str()).len() == 0 {
        return Err(LoginRefusal::MissingCredentials);
    }
    Ok((u, p))
}

/// An account as stored, found by username.
#[derive(Debug)]
pub struct StoredAccount {
    pub id: i32,
    pub username: String,
    pub full_name: String,
    pub role: String,
    pub password_hash: String,
    pub is_active: bool,
}

/// The refusal, if any, of a login with `password` for the account found.
pub open spec fn login_refusal(account: Option<StoredAccount>, password: Seq<char>) -> Option<
    LoginRefusal,
> {
    match account {
        None => Some(LoginRefusal::InvalidCredentials),
        Some(a) => if !a.is_active {
            Some(LoginRefusal::InactiveAccount)
        } else {
            match password_check(password, a.password_hash@) {
                None => Some(LoginRefusal::InvalidPasswordHash),
                Some(false) => Some(LoginRefusal::InvalidCredentials),
                Some(true) => None,
            }
        },
    }
}

/// Checks a password against the account found for the username: unknown
/// users and wrong passwords are refused alike, inactive accounts are refused
/// before the password is checked.
pub fn authenticate(account: Option<StoredAccount>, password: &str) -> (r: Result<
    AuthenticatedUser,
    LoginRefusal,
>)
    ensures
        match r {
            Ok(user) => {
                &&& login_refusal(account, password@) is None
                &&& account matches Some(a) && user.id == a.id && user.username@ == a.username@
                    && user.full_name@ == a.full_name@ && user.role@ == a.role@
            },
            Err(e) => login_refusal(account, password@) == Some(e),
        },
{
    match account {
        None => Err(LoginRefusal::InvalidCredentials),
        Some(a) => {
            if !a.is_active {
                return Err(LoginRefusal::InactiveAccount);
            }
            match verify_password(password, a.password_hash.as_str()) {
                None => Err(LoginRefusal::InvalidPasswordHash),
                Some(false) => Err(LoginRefusal::InvalidCredentials),
                Some(true) => Ok(
                    AuthenticatedUser {
                        id: a.id,
                        username: a.username,
                        full_name: a.full_name,
                        role: a.role,
                    },
                ),
            }
        },
    }
}

/// The user name, full name and password of the default administrator: the
/// configured values, or `Bullly2003`, `Tobi McGuire` and `SpideySenes5!`.
pub fn default_admin(
    username: Option<String>,
    full_name: Option<String>,
    password: Option<String>,
) -> (r: (String, String, String))
    ensures
        r.0@ == (match username {
            Some(u) => u@,
            None => "Bullly2003"@,
        }),
        r.1@ == (match full_name {
            Some(f) => f@,
            None => "Tobi McGuire"@,
        }),
        r.2@ == (match password {
            Some(p) => p@,
            None => "SpideySenes5!"@,
        }),
{
    let u = match username {
        Some(u) => u,
        None => to_owned_string("Bullly2003"),
    };
    let f = match full_name {
        Some(f) => f,
        None => to_owned_string("Tobi McGuire"),
    };
    let p = match password {
        Some(p) => p,
        None => to_owned_string("SpideySenes5!"),
    };
    (u, f, p)
}

/// The password of the default administrator: the configured one, or the
/// default.
pub open spec fn admin_password(password: Option<String>) -> Seq<char> {
    match password {
        Some(p) => p@,
        None => "SpideySenes5!"@,
    }
}

/// The default administrator to create: the configured user name and full
/// name (or the defaults), and a fresh hash of the configured password (or
/// the default one) that verifies against it; none only when hashing fails,
/// which it does not for a password of at most 2^32 - 1 bytes.
pub fn default_admin_account(
    username: Option<String>,
    full_name: Option<String>,
    password: Option<String>,
) -> (r: Option<(String, String, String)>)
    ensures
        r matches Some(account) ==> {
            &&& account.0@ == (match username {
                Some(u) => u@,
                None => "Bullly2003"@,
            })
            &&& account.1@ == (match full_name {
                Some(f) => f@,
                None => "Tobi McGuire"@,
            })
            &&& password_check(admin_password(password), account.2@) == Some(true)
        },
        vstd::utf8::encode_utf8(admin_password(password)).len() <= 0xFFFF_FFFF ==> r is Some,
{
    let (u, f, p) = default_admin(username, full_name, password);
    match hash_new_password(p.as_str()) {
        Some(hash) => Some((u, f, hash)),
        None => None,
    }
}

} // verus!
