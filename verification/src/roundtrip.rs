//! Round-trip laws of the claims codec: parsing the canonical JSON text of a
//! claims value yields exactly that value. These lemmas carry the payload
//! half of the token round-trip guarantee.

use vstd::prelude::*;
use crate::claims::{AccessClaimsView, RefreshClaimsView, esc, esc_char, access_json, refresh_json};
use crate::parse::{
    parse_jstr, parse_int, parse_uint, parse_access_claims, parse_refresh_claims, expect_prefix,
    jstr_cons, hex_val, is_digit, digit_val, digit_prefix_len, digits_val, unescaped, pow10,
    lemma_digit_prefix, lemma_pow10_values,
};
use crate::text::{dec_digit, dec_nat, dec_int, hex_digit};

verus! {

/// An exact literal prefix is consumed, leaving the rest.
proof fn lemma_expect_concat(lit: Seq<char>, rest: Seq<char>)
    ensures
        expect_prefix(lit + rest, lit) == Some(rest),
{
    assert((lit + rest).take(lit.len() as int) =~= lit);
    assert((lit + rest).skip(lit.len() as int) =~= rest);
}

proof fn lemma_hex_digit_val(d: int)
    requires
        0 <= d < 16,
    ensures
        hex_val(hex_digit(d)) == d,
{
    if d < 10 {
        assert(hex_digit(d) as u32 == d + 48);
    } else {
        assert(hex_digit(d) as u32 == d + 87);
    }
}

proof fn lemma_dec_digit_val(d: int)
    requires
        0 <= d < 10,
    ensures
        is_digit(dec_digit(d)),
        digit_val(dec_digit(d)) == d,
{
    assert(dec_digit(d) as u32 == d + 48);
}

/// Parsing a JSON string body that is the escape of `x`, followed by the
/// closing quote and then `rest`, yields `x` and `rest`.
proof fn lemma_parse_jstr_esc(x: Seq<char>, rest: Seq<char>)
    ensures
        parse_jstr(esc(x) + seq!['"'] + rest) == Some((x, rest)),
    decreases x.len(),
{
    let s = esc(x) + seq!['"'] + rest;
    if x.len() == 0 {
        assert(esc(x) =~= Seq::<char>::empty());
        assert(s =~= seq!['"'] + rest);
        assert(s[0] == '"');
        assert(s.skip(1) =~= rest);
        assert(parse_jstr(s) == Some((Seq::<char>::empty(), rest)));
        assert(Seq::<char>::empty() =~= x);
    } else {
        let c = x[0];
        let x1 = x.skip(1);
        let tail = esc(x1) + seq!['"'] + rest;
        assert(esc(x) == esc_char(c) + esc(x1));
        assert(s =~= esc_char(c) + tail);
        lemma_parse_jstr_esc(x1, rest);
        if c == '"' {
            assert(s[0] == '\\');
            assert(s[1] == '"');
            assert(s.len() >= 2);
            assert(s.skip(2) =~= tail);
            assert(unescaped('"') == '"');
            assert(parse_jstr(s) == jstr_cons('"', Some((x1, rest))));
            assert(seq!['"'] + x1 =~= x);
        } else if c == '\\' {
            assert(s[0] == '\\');
            assert(s[1] == '\\');
            assert(s.len() >= 2);
            assert(s.skip(2) =~= tail);
            assert(unescaped('\\') == '\\');
            assert(parse_jstr(s) == jstr_cons('\\', Some((x1, rest))));
            assert(seq!['\\'] + x1 =~= x);
        } else if (c as u32) < 0x20 {
            let u = c as u32 as int;
            assert(s[0] == '\\');
            assert(s[1] == 'u');
            assert(s.len() >= 6);
            assert(s[2] == hex_digit(u / 4096 % 16));
            assert(s[3] == hex_digit(u / 256 % 16));
            assert(s[4] == hex_digit(u / 16 % 16));
            assert(s[5] == hex_digit(u % 16));
            lemma_hex_digit_val(u / 4096 % 16);
            lemma_hex_digit_val(u / 256 % 16);
            lemma_hex_digit_val(u / 16 % 16);
            lemma_hex_digit_val(u % 16);
            assert(u / 4096 % 16 == 0);
            assert(u / 256 % 16 == 0);
            let h = hex_val(s[2]) * 4096 + hex_val(s[3]) * 256 + hex_val(s[4]) * 16 + hex_val(
                s[5],
            );
            assert(h == (u / 16 % 16) * 16 + u % 16);
            assert(u / 16 % 16 == u / 16);
            assert(h == u);
            assert(!(0xD800 <= h && h < 0xE000));
            assert(h as u32 == c as u32);
            vstd::utf8::char_u32_cast(c, h as u32);
            assert((h as u32) as char == c);
            assert(s.skip(6) =~= tail);
            assert(parse_jstr(s) == jstr_cons(c, Some((x1, rest))));
            assert(seq![c] + x1 =~= x);
        } else {
            assert(s[0] == c);
            assert(c != '"' && c != '\\');
            assert(s.skip(1) =~= tail);
            assert(parse_jstr(s) == jstr_cons(c, Some((x1, rest))));
            assert(seq![c] + x1 =~= x);
        }
    }
}

/// The decimal rendering of `n` consists of digits and denotes `n`.
proof fn lemma_dec_nat_digits(n: int)
    requires
        n >= 0,
    ensures
        dec_nat(n).len() >= 1,
        forall|m: int| 0 <= m < dec_nat(n).len() ==> is_digit(#[trigger] dec_nat(n)[m]),
        digits_val(dec_nat(n)) == n,
    decreases n,
{
    if n < 10 {
        lemma_dec_digit_val(n);
        assert(dec_nat(n) =~= seq![dec_digit(n)]);
        assert(dec_nat(n).take(0) =~= Seq::<char>::empty());
        assert(digits_val(dec_nat(n)) == digits_val(Seq::<char>::empty()) * 10 + digit_val(
            dec_digit(n),
        ));
    } else {
        lemma_dec_nat_digits(n / 10);
        lemma_dec_digit_val(n % 10);
        let d = dec_nat(n);
        assert(d == dec_nat(n / 10).push(dec_digit(n % 10)));
        assert(d.take(d.len() - 1) =~= dec_nat(n / 10));
        assert(d[d.len() - 1] == dec_digit(n % 10));
        assert(digits_val(d) == (n / 10) * 10 + n % 10);
        assert forall|m: int| 0 <= m < d.len() implies is_digit(#[trigger] d[m]) by {
            if m < d.len() - 1 {
                assert(d[m] == dec_nat(n / 10)[m]);
            }
        }
    }
}

/// A value below `pow10(k)` renders in at most `k` digits.
proof fn lemma_dec_nat_len(n: int, k: nat)
    requires
        n >= 0,
        k >= 1,
        n < pow10(k),
    ensures
        dec_nat(n).len() <= k,
    decreases k,
{
    if n < 10 {
    } else {
        assert(k >= 2) by {
            if k == 1 {
                assert(pow10(1) == 10 * pow10(0));
            }
        }
        assert(pow10(k) == 10 * pow10((k - 1) as nat));
        assert(n / 10 < pow10((k - 1) as nat)) by {
            if n / 10 >= pow10((k - 1) as nat) {
                assert(n >= 10 * (n / 10)) by (nonlinear_arith);
                assert(10 * (n / 10) >= 10 * pow10((k - 1) as nat)) by (nonlinear_arith)
                    requires
                        n / 10 >= pow10((k - 1) as nat),
                ;
            }
        }
        lemma_dec_nat_len(n / 10, (k - 1) as nat);
    }
}

/// Parsing the decimal rendering of an in-range `n`, followed by text that
/// does not begin with a digit, yields `n` and that text.
proof fn lemma_parse_int_dec(n: int, rest: Seq<char>)
    requires
        -0x8000000000000000 <= n <= 0x7fffffffffffffff,
        rest.len() > 0,
        !is_digit(rest[0]),
    ensures
        parse_int(dec_int(n) + rest) == Some((n, rest)),
{
    lemma_pow10_values();
    let s = dec_int(n) + rest;
    if n >= 0 {
        lemma_dec_nat_digits(n);
        lemma_dec_nat_len(n, 19);
        let d = dec_nat(n);
        let ln = d.len() as int;
        assert(s =~= d + rest);
        assert forall|m: int| 0 <= m < ln implies is_digit(s[m]) by {
            assert(s[m] == d[m]);
        }
        assert(s[ln] == rest[0]);
        lemma_digit_prefix(s, ln);
        assert(digit_prefix_len(s) == ln);
        assert(s[0] == d[0]);
        assert(is_digit(s[0]));
        assert(s[0] as u32 != 45);
        assert(s[0] != '-') by {
            if s[0] == '-' {
                assert(s[0] as u32 == 45);
            }
        }
        assert(s.take(ln) =~= d);
        assert(s.skip(ln) =~= rest);
        assert(parse_uint(s) == Some((n, rest)));
    } else {
        let m = -n;
        lemma_dec_nat_digits(m);
        lemma_dec_nat_len(m, 19);
        let d = dec_nat(m);
        let ln = d.len() as int;
        assert(dec_int(n) == seq!['-'] + d);
        assert(s =~= seq!['-'] + (d + rest));
        assert(s[0] == '-');
        assert(s.len() > 0);
        let s1 = s.skip(1);
        assert(s1 =~= d + rest);
        assert forall|q: int| 0 <= q < ln implies is_digit(s1[q]) by {
            assert(s1[q] == d[q]);
        }
        assert(s1[ln] == rest[0]);
        lemma_digit_prefix(s1, ln);
        assert(digit_prefix_len(s1) == ln);
        assert(s1.take(ln) =~= d);
        assert(s1.skip(ln) =~= rest);
        assert(parse_uint(s1) == Some((m, rest)));
        assert(m <= 0x8000000000000000);
    }
}

/// Parsing the canonical JSON of access claims yields exactly those claims.
#[verifier::rlimit(100)]
pub proof fn lemma_access_claims_roundtrip(c: AccessClaimsView)
    requires
        -0x8000000000000000 <= c.exp <= 0x7fffffffffffffff,
    ensures
        parse_access_claims(access_json(c)) == Some(c),
{
    reveal_strlit("{\"aud\":\"");
    reveal_strlit("\",\"exp\":");
    reveal_strlit(",\"exp\":");
    reveal_strlit(",\"id\":\"");
    reveal_strlit("\",\"email\":\"");
    reveal_strlit(",\"email\":\"");
    reveal_strlit("\",\"fullName\":\"");
    reveal_strlit(",\"fullName\":\"");
    reveal_strlit("\",\"username\":\"");
    reveal_strlit(",\"username\":\"");
    reveal_strlit("\",\"pictureUrl\":\"");
    reveal_strlit(",\"pictureUrl\":\"");
    reveal_strlit("\"}");
    reveal_strlit("}");
    let s = access_json(c);
    let l0 = "{\"aud\":\""@;
    let l1 = ",\"exp\":"@;
    let l2 = ",\"id\":\""@;
    let l3 = ",\"email\":\""@;
    let l4 = ",\"fullName\":\""@;
    let l5 = ",\"username\":\""@;
    let l6 = ",\"pictureUrl\":\""@;
    let lend = "}"@;
    // the text after each successive field
    let t7 = lend;
    let t6 = esc(c.picture_url) + seq!['"'] + t7;
    let t5 = esc(c.username) + seq!['"'] + (l6 + t6);
    let t4 = esc(c.full_name) + seq!['"'] + (l5 + t5);
    let t3 = esc(c.email) + seq!['"'] + (l4 + t4);
    let t2 = esc(c.id) + seq!['"'] + (l3 + t3);
    let t1 = dec_int(c.exp) + (l2 + t2);
    let t0 = esc(c.aud) + seq!['"'] + (l1 + t1);
    assert("\",\"exp\":"@ =~= seq!['"'] + l1);
    assert("\",\"email\":\""@ =~= seq!['"'] + l3);
    assert("\",\"fullName\":\""@ =~= seq!['"'] + l4);
    assert("\",\"username\":\""@ =~= seq!['"'] + l5);
    assert("\",\"pictureUrl\":\""@ =~= seq!['"'] + l6);
    assert("\"}"@ =~= seq!['"'] + lend);
    assert(s =~= l0 + t0);
    lemma_expect_concat(l0, t0);
    lemma_parse_jstr_esc(c.aud, l1 + t1);
    assert(parse_jstr(t0) == Some((c.aud, l1 + t1)));
    lemma_expect_concat(l1, t1);
    assert((l2 + t2).len() > 0);
    assert((l2 + t2)[0] == ',');
    assert(!is_digit(','));
    lemma_parse_int_dec(c.exp, l2 + t2);
    assert(parse_int(t1) == Some((c.exp, l2 + t2)));
    lemma_expect_concat(l2, t2);
    lemma_parse_jstr_esc(c.id, l3 + t3);
    lemma_expect_concat(l3, t3);
    lemma_parse_jstr_esc(c.email, l4 + t4);
    lemma_expect_concat(l4, t4);
    lemma_parse_jstr_esc(c.full_name, l5 + t5);
    lemma_expect_concat(l5, t5);
    lemma_parse_jstr_esc(c.username, l6 + t6);
    lemma_expect_concat(l6, t6);
    lemma_parse_jstr_esc(c.picture_url, t7);
    assert(parse_access_claims(s) == Some(
        AccessClaimsView {
            aud: c.aud,
            exp: c.exp,
            id: c.id,
            email: c.email,
            full_name: c.full_name,
            username: c.username,
            picture_url: c.picture_url,
        },
    ));
}

/// Parsing the canonical JSON of refresh claims yields exactly those claims.
pub proof fn lemma_refresh_claims_roundtrip(c: RefreshClaimsView)
    requires
        -0x8000000000000000 <= c.exp <= 0x7fffffffffffffff,
    ensures
        parse_refresh_claims(refresh_json(c)) == Some(c),
{
    reveal_strlit("{\"aud\":\"");
    reveal_strlit("\",\"exp\":");
    reveal_strlit(",\"exp\":");
    reveal_strlit("\",\"username\":\"");
    reveal_strlit(",\"username\":\"");
    reveal_strlit("\",\"usedFor\":\"");
    reveal_strlit(",\"usedFor\":\"");
    reveal_strlit("\",\"userIp\":\"");
    reveal_strlit(",\"userIp\":\"");
    reveal_strlit("\"}");
    reveal_strlit("}");
    let s = refresh_json(c);
    let l0 = "{\"aud\":\""@;
    let l1 = ",\"exp\":"@;
    let l2 = ",\"username\":\""@;
    let l3 = ",\"usedFor\":\""@;
    let l4 = ",\"userIp\":\""@;
    let lend = "}"@;
    let t5 = lend;
    let t4 = esc(c.user_ip) + seq!['"'] + t5;
    let t3 = esc(c.used_for) + seq!['"'] + (l4 + t4);
    let t2 = esc(c.username) + seq!['"'] + (l3 + t3);
    let t1 = dec_int(c.exp) + (l2 + t2);
    let t0 = esc(c.aud) + seq!['"'] + (l1 + t1);
    assert("\",\"exp\":"@ =~= seq!['"'] + l1);
    assert("\",\"usedFor\":\""@ =~= seq!['"'] + l3);
    assert("\",\"userIp\":\""@ =~= seq!['"'] + l4);
    assert("\"}"@ =~= seq!['"'] + lend);
    assert(s =~= l0 + t0);
    lemma_expect_concat(l0, t0);
    lemma_parse_jstr_esc(c.aud, l1 + t1);
    lemma_expect_concat(l1, t1);
    assert((l2 + t2).len() > 0);
    assert((l2 + t2)[0] == ',');
    assert(!is_digit(','));
    lemma_parse_int_dec(c.exp, l2 + t2);
    lemma_expect_concat(l2, t2);
    lemma_parse_jstr_esc(c.username, l3 + t3);
    lemma_expect_concat(l3, t3);
    lemma_parse_jstr_esc(c.used_for, l4 + t4);
    lemma_expect_concat(l4, t4);
    lemma_parse_jstr_esc(c.user_ip, t5);
    assert(parse_refresh_claims(s) == Some(
        RefreshClaimsView {
            aud: c.aud,
            exp: c.exp,
            username: c.username,
            used_for: c.used_for,
            user_ip: c.user_ip,
        },
    ));
}

} // verus!
