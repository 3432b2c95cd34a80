//! Token claims and their wire form.
//!
//! A signed token carries a JSON object as its payload. This module defines
//! the two claim shapes (access and refresh), the exact JSON text each one
//! serializes to, and a parser for that canonical form. Both directions are
//! specified at the character level, so that the token codec's contracts can
//! speak about the precise payload text that is signed and verified.

use vstd::prelude::*;
use crate::text::{dec_int, hex_digit, i64_to_string, char_to_string, hex_digit_str};

verus! {

// ---------------------------------------------------------------------------
// Claim shapes
// ---------------------------------------------------------------------------

/// Spec-level image of access-token claims: each field as a char sequence.
pub struct AccessClaimsView {
    pub aud: Seq<char>,
    pub exp: int,
    pub id: Seq<char>,
    pub email: Seq<char>,
    pub full_name: Seq<char>,
    pub username: Seq<char>,
    pub picture_url: Seq<char>,
}

/// The claims of an access token: audience, expiry instant (seconds since the
/// epoch), and the identity projection embedded at issuance.
#[derive(Debug)]
pub struct JwtTokenPayload {
    pub aud: String,
    pub exp: i64,
    pub id: String,
    pub email: String,
    pub full_name: String,
    pub username: String,
    pub picture_url: String,
}

impl View for JwtTokenPayload {
    type V = AccessClaimsView;

    open spec fn view(&self) -> AccessClaimsView {
        AccessClaimsView {
            aud: self.aud@,
            exp: self.exp as int,
            id: self.id@,
            email: self.email@,
            full_name: self.full_name@,
            username: self.username@,
            picture_url: self.picture_url@,
        }
    }
}

/// Spec-level image of refresh-token claims.
pub struct RefreshClaimsView {
    pub aud: Seq<char>,
    pub exp: int,
    pub username: Seq<char>,
    pub used_for: Seq<char>,
    pub user_ip: Seq<char>,
}

/// The claims of a refresh token: audience, expiry, the subject username, the
/// discriminator tag marking it as a refresh token, and the network address
/// observed at issuance.
#[derive(Debug)]
pub struct JwtRefreshTokenPayload {
    pub aud: String,
    pub exp: i64,
    pub username: String,
    pub used_for: String,
    pub user_ip: String,
}

impl View for JwtRefreshTokenPayload {
    type V = RefreshClaimsView;

    open spec fn view(&self) -> RefreshClaimsView {
        RefreshClaimsView {
            aud: self.aud@,
            exp: self.exp as int,
            username: self.username@,
            used_for: self.used_for@,
            user_ip: self.user_ip@,
        }
    }
}

// ---------------------------------------------------------------------------
// JSON string escaping
// ---------------------------------------------------------------------------

/// The four hex digits of `v` (v < 0x10000), most significant first.
pub open spec fn hex4(v: int) -> Seq<char>
    recommends
        0 <= v < 0x10000,
{
    seq![
        hex_digit(v / 4096 % 16),
        hex_digit(v / 256 % 16),
        hex_digit(v / 16 % 16),
        hex_digit(v % 16),
    ]
}

/// The escape of one character inside a JSON string: quote and backslash get
/// a backslash escape, control characters a `\u` escape, everything else
/// stands as itself.
pub open spec fn esc_char(c: char) -> Seq<char> {
    if c == '"' {
        seq!['\\', '"']
    } else if c == '\\' {
        seq!['\\', '\\']
    } else if (c as u32) < 0x20 {
        seq!['\\', 'u'] + hex4(c as u32 as int)
    } else {
        seq![c]
    }
}

/// The escaped body of a JSON string holding exactly the characters of `s`.
pub open spec fn esc(s: Seq<char>) -> Seq<char>
    decreases s.len(),
{
    if s.len() == 0 {
        Seq::<char>::empty()
    } else {
        esc_char(s[0]) + esc(s.skip(1))
    }
}

pub proof fn lemma_esc_append(a: Seq<char>, b: Seq<char>)
    ensures
        esc(a + b) == esc(a) + esc(b),
    decreases a.len(),
{
    if a.len() == 0 {
        assert(a + b =~= b);
        assert(esc(a) + esc(b) =~= esc(b));
    } else {
        assert((a + b).skip(1) =~= a.skip(1) + b);
        lemma_esc_append(a.skip(1), b);
        assert((a + b)[0] == a[0]);
        assert(esc(a + b) =~= esc(a) + esc(b));
    }
}

/// Appends the escaped body of `s` to `out`.
pub fn escape_into(out: &mut String, s: &str)
    ensures
        final(out)@ == old(out)@ + esc(s@),
{
    let n = s.unicode_len();
    let mut i: usize = 0;
    proof {
        assert(s@.take(0) =~= Seq::<char>::empty());
        assert(out@ =~= old(out)@ + esc(s@.take(0)));
    }
    while i < n
        invariant
            i <= n,
            n == s@.len(),
            out@ == old(out)@ + esc(s@.take(i as int)),
        decreases n - i,
    {
        let c = s.get_char(i);
        let u = c as u32;
        if c == '"' {
            out.append("\\\"");
        } else if c == '\\' {
            out.append("\\\\");
        } else if u < 0x20 {
            out.append("\\u");
            out.append(hex_digit_str(u / 4096 % 16));
            out.append(hex_digit_str(u / 256 % 16));
            out.append(hex_digit_str(u / 16 % 16));
            out.append(hex_digit_str(u % 16));
        } else {
            out.append(char_to_string(c).as_str());
        }
        proof {
            reveal_strlit("\\\"");
            reveal_strlit("\\\\");
            reveal_strlit("\\u");
            let prev = i as int;
            assert(s@.take(prev + 1) =~= s@.take(prev) + seq![s@[prev]]);
            lemma_esc_append(s@.take(prev), seq![s@[prev]]);
            assert(seq![s@[prev]].skip(1) =~= Seq::<char>::empty());
            assert(esc(Seq::<char>::empty()) =~= Seq::<char>::empty());
            assert(seq![s@[prev]][0] == s@[prev]);
            assert(esc(seq![s@[prev]]) =~= esc_char(s@[prev]) + esc(Seq::<char>::empty()));
            assert(esc(seq![s@[prev]]) =~= esc_char(s@[prev]));
            assert(out@ =~= old(out)@ + esc(s@.take(prev + 1)));
        }
        i += 1;
    }
    proof {
        assert(s@.take(n as int) =~= s@);
    }
}

// ---------------------------------------------------------------------------
// Canonical claims JSON
// ---------------------------------------------------------------------------

/// The JSON text of the fixed token header: type JWT, algorithm RS256.
pub open spec fn header_json() -> Seq<char> {
    "{\"typ\":\"JWT\",\"alg\":\"RS256\"}"@
}

/// The canonical JSON text of access claims: fixed field order, camelCase
/// field names, escaped string values.
pub open spec fn access_json(v: AccessClaimsView) -> Seq<char> {
    "{\"aud\":\""@ + esc(v.aud) + "\",\"exp\":"@ + dec_int(v.exp) + ",\"id\":\""@ + esc(v.id)
        + "\",\"email\":\""@ + esc(v.email) + "\",\"fullName\":\""@ + esc(v.full_name)
        + "\",\"username\":\""@ + esc(v.username) + "\",\"pictureUrl\":\""@ + esc(v.picture_url)
        + "\"}"@
}

/// The canonical JSON text of refresh claims.
pub open spec fn refresh_json(v: RefreshClaimsView) -> Seq<char> {
    "{\"aud\":\""@ + esc(v.aud) + "\",\"exp\":"@ + dec_int(v.exp) + ",\"username\":\""@
        + esc(v.username) + "\",\"usedFor\":\""@ + esc(v.used_for) + "\",\"userIp\":\""@
        + esc(v.user_ip) + "\"}"@
}

pub fn header_json_text() -> (r: String)
    ensures
        r@ == header_json(),
{
    "{\"typ\":\"JWT\",\"alg\":\"RS256\"}".to_owned()
}

pub fn access_json_text(c: &JwtTokenPayload) -> (r: String)
    ensures
        r@ == access_json(c@),
{
    let mut s = "{\"aud\":\"".to_owned();
    escape_into(&mut s, c.aud.as_str());
    s.append("\",\"exp\":");
    s.append(i64_to_string(c.exp).as_str());
    s.append(",\"id\":\"");
    escape_into(&mut s, c.id.as_str());
    s.append("\",\"email\":\"");
    escape_into(&mut s, c.email.as_str());
    s.append("\",\"fullName\":\"");
    escape_into(&mut s, c.full_name.as_str());
    s.append("\",\"username\":\"");
    escape_into(&mut s, c.username.as_str());
    s.append("\",\"pictureUrl\":\"");
    escape_into(&mut s, c.picture_url.as_str());
    s.append("\"}");
    proof {
        assert(s@ =~= access_json(c@));
    }
    s
}

pub fn refresh_json_text(c: &JwtRefreshTokenPayload) -> (r: String)
    ensures
        r@ == refresh_json(c@),
{
    let mut s = "{\"aud\":\"".to_owned();
    escape_into(&mut s, c.aud.as_str());
    s.append("\",\"exp\":");
    s.append(i64_to_string(c.exp).as_str());
    s.append(",\"username\":\"");
    escape_into(&mut s, c.username.as_str());
    s.append("\",\"usedFor\":\"");
    escape_into(&mut s, c.used_for.as_str());
    s.append("\",\"userIp\":\"");
    escape_into(&mut s, c.user_ip.as_str());
    s.append("\"}");
    proof {
        assert(s@ =~= refresh_json(c@));
    }
    s
}

} // verus!
