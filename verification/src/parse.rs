//! Parser for the canonical claims JSON of `claims`.
//!
//! The wire form accepted here is exactly the canonical serialization: fixed
//! field order and no surrounding whitespace, with JSON string bodies allowing
//! the usual escapes. Every parsing function is specified by a spec-level
//! parser over `Seq<char>`; the executable functions return precisely what the
//! spec parser denotes.

use vstd::prelude::*;
use crate::claims::{AccessClaimsView, RefreshClaimsView, JwtTokenPayload, JwtRefreshTokenPayload};
use crate::text::{char_to_string, char_from_u32};

verus! {

// ---------------------------------------------------------------------------
// Characters
// ---------------------------------------------------------------------------

/// Hex digit value of `c`, or -1 when `c` is not a hex digit.
pub open spec fn hex_val(c: char) -> int {
    let u = c as u32;
    if 48 <= u && u <= 57 {
        u - 48
    } else if 97 <= u && u <= 102 {
        u - 87
    } else if 65 <= u && u <= 70 {
        u - 55
    } else {
        -1
    }
}

pub open spec fn is_digit(c: char) -> bool {
    48 <= c as u32 <= 57
}

pub open spec fn digit_val(c: char) -> int {
    c as u32 - 48
}

/// The character denoted by a single-character escape `\e`.
pub open spec fn unescaped(e: char) -> char {
    if e == 'n' {
        '\n'
    } else if e == 't' {
        '\t'
    } else if e == 'r' {
        '\r'
    } else if e == 'b' {
        (8u8) as char
    } else if e == 'f' {
        (12u8) as char
    } else {
        e
    }
}

fn hex_val_exec(c: char) -> (r: Option<u32>)
    ensures
        match r {
            Some(h) => hex_val(c) == h && h < 16,
            None => hex_val(c) < 0,
        },
{
    let u = c as u32;
    if 48 <= u && u <= 57 {
        Some(u - 48)
    } else if 97 <= u && u <= 102 {
        Some(u - 87)
    } else if 65 <= u && u <= 70 {
        Some(u - 55)
    } else {
        None
    }
}

fn unescaped_exec(e: char) -> (c: char)
    ensures
        c == unescaped(e),
{
    match e {
        'n' => '\n',
        't' => '\t',
        'r' => '\r',
        'b' => 8u8 as char,
        'f' => 12u8 as char,
        _ => e,
    }
}

// ---------------------------------------------------------------------------
// JSON string bodies
// ---------------------------------------------------------------------------

/// Prepends `c` to the value of a string-body parse result.
pub open spec fn jstr_cons(c: char, o: Option<(Seq<char>, Seq<char>)>) -> Option<
    (Seq<char>, Seq<char>),
> {
    match o {
        Some(p) => Some((seq![c] + p.0, p.1)),
        None => None,
    }
}

/// Parses a JSON string body up to and including the closing quote, returning
/// the decoded characters and the text after the quote.
pub open spec fn parse_jstr(s: Seq<char>) -> Option<(Seq<char>, Seq<char>)>
    decreases s.len(),
{
    if s.len() == 0 {
        None
    } else if s[0] == '"' {
        Some((Seq::<char>::empty(), s.skip(1)))
    } else if s[0] == '\\' {
        if s.len() < 2 {
            None
        } else {
            let e = s[1];
            if e == '"' || e == '\\' || e == '/' || e == 'n' || e == 't' || e == 'r' || e == 'b'
                || e == 'f' {
                jstr_cons(unescaped(e), parse_jstr(s.skip(2)))
            } else if e == 'u' {
                if s.len() < 6 {
                    None
                } else if hex_val(s[2]) >= 0 && hex_val(s[3]) >= 0 && hex_val(s[4]) >= 0 && hex_val(
                    s[5],
                ) >= 0 {
                    let h = hex_val(s[2]) * 4096 + hex_val(s[3]) * 256 + hex_val(s[4]) * 16
                        + hex_val(s[5]);
                    if 0xD800 <= h && h < 0xE000 {
                        None
                    } else {
                        jstr_cons((h as u32) as char, parse_jstr(s.skip(6)))
                    }
                } else {
                    None
                }
            } else {
                None
            }
        }
    } else if (s[0] as u32) < 0x20 {
        None
    } else {
        jstr_cons(s[0], parse_jstr(s.skip(1)))
    }
}

/// Prepends already-decoded characters to a parse result.
pub open spec fn prepend_val(p: Seq<char>, o: Option<(Seq<char>, Seq<char>)>) -> Option<
    (Seq<char>, Seq<char>),
> {
    match o {
        Some(q) => Some((p + q.0, q.1)),
        None => None,
    }
}

proof fn lemma_prepend_cons(p: Seq<char>, c: char, o: Option<(Seq<char>, Seq<char>)>)
    ensures
        prepend_val(p, jstr_cons(c, o)) == prepend_val(p.push(c), o),
{
    match o {
        Some(q) => {
            assert(p + (seq![c] + q.0) =~= p.push(c) + q.0);
        },
        None => {},
    }
}

pub fn parse_jstr_at(v: &Vec<char>, i: usize) -> (r: Option<(String, usize)>)
    requires
        i <= v@.len(),
    ensures
        match r {
            Some(p) => i <= p.1 <= v@.len() && parse_jstr(v@.skip(i as int)) == Some(
                (p.0@, v@.skip(p.1 as int)),
            ),
            None => parse_jstr(v@.skip(i as int)) is None,
        },
{
    let mut acc = String::new();
    let mut j: usize = i;
    loop
        invariant
            i <= j <= v@.len(),
            prepend_val(acc@, parse_jstr(v@.skip(j as int))) == parse_jstr(v@.skip(i as int)),
        decreases v@.len() - j,
    {
        let ghost su = v@.skip(j as int);
        if j >= v.len() {
            proof {
                assert(su.len() == 0);
            }
            return None;
        }
        let c = v[j];
        proof {
            assert(su[0] == v@[j as int]);
        }
        if c == '"' {
            proof {
                assert(su.skip(1) =~= v@.skip(j + 1));
                assert(acc@ + Seq::<char>::empty() =~= acc@);
            }
            return Some((acc, j + 1));
        } else if c == '\\' {
            if v.len() - j < 2 {
                proof {
                    assert(su.len() < 2);
                }
                return None;
            }
            let e = v[j + 1];
            proof {
                assert(su.len() >= 2);
                assert(su[1] == v@[j + 1]);
            }
            if e == '"' || e == '\\' || e == '/' || e == 'n' || e == 't' || e == 'r' || e == 'b'
                || e == 'f' {
                let uc = unescaped_exec(e);
                proof {
                    assert(su.skip(2) =~= v@.skip(j + 2));
                    lemma_prepend_cons(acc@, uc, parse_jstr(v@.skip(j + 2)));
                    assert(acc@.push(uc) =~= acc@ + seq![uc]);
                }
                acc.append(char_to_string(uc).as_str());
                j += 2;
            } else if e == 'u' {
                if v.len() - j < 6 {
                    proof {
                        assert(su.len() < 6);
                    }
                    return None;
                }
                proof {
                    assert(su.len() >= 6);
                    assert(su[2] == v@[j + 2]);
                    assert(su[3] == v@[j + 3]);
                    assert(su[4] == v@[j + 4]);
                    assert(su[5] == v@[j + 5]);
                }
                let h2 = match hex_val_exec(v[j + 2]) {
                    Some(h) => h,
                    None => {
                        return None;
                    },
                };
                let h3 = match hex_val_exec(v[j + 3]) {
                    Some(h) => h,
                    None => {
                        return None;
                    },
                };
                let h4 = match hex_val_exec(v[j + 4]) {
                    Some(h) => h,
                    None => {
                        return None;
                    },
                };
                let h5 = match hex_val_exec(v[j + 5]) {
                    Some(h) => h,
                    None => {
                        return None;
                    },
                };
                let h: u32 = h2 * 4096 + h3 * 256 + h4 * 16 + h5;
                if 0xD800 <= h && h < 0xE000 {
                    return None;
                }
                let uc = char_from_u32(h);
                proof {
                    assert(su.skip(6) =~= v@.skip(j + 6));
                    lemma_prepend_cons(acc@, uc, parse_jstr(v@.skip(j + 6)));
                    assert(acc@.push(uc) =~= acc@ + seq![uc]);
                }
                acc.append(char_to_string(uc).as_str());
                j += 6;
            } else {
                return None;
            }
        } else if (c as u32) < 0x20 {
            return None;
        } else {
            proof {
                assert(su.skip(1) =~= v@.skip(j + 1));
                lemma_prepend_cons(acc@, c, parse_jstr(v@.skip(j + 1)));
                assert(acc@.push(c) =~= acc@ + seq![c]);
            }
            acc.append(char_to_string(c).as_str());
            j += 1;
        }
    }
}

// ---------------------------------------------------------------------------
// Integers
// ---------------------------------------------------------------------------

/// Length of the longest digit prefix of `s`.
pub open spec fn digit_prefix_len(s: Seq<char>) -> int
    decreases s.len(),
{
    if s.len() == 0 || !is_digit(s[0]) {
        0
    } else {
        1 + digit_prefix_len(s.skip(1))
    }
}

/// The value of a sequence of decimal digits.
pub open spec fn digits_val(s: Seq<char>) -> int
    decreases s.len(),
{
    if s.len() == 0 {
        0
    } else {
        digits_val(s.take(s.len() - 1)) * 10 + digit_val(s[s.len() - 1])
    }
}

pub open spec fn pow10(k: nat) -> int
    decreases k,
{
    if k == 0 {
        1
    } else {
        10 * pow10((k - 1) as nat)
    }
}

/// Parses a non-empty digit run of at most 19 digits.
pub open spec fn parse_uint(s: Seq<char>) -> Option<(int, Seq<char>)> {
    let k = digit_prefix_len(s);
    if k == 0 || k > 19 {
        None
    } else {
        Some((digits_val(s.take(k)), s.skip(k)))
    }
}

/// Parses an optionally negated digit run whose value fits a 64-bit signed
/// integer.
pub open spec fn parse_int(s: Seq<char>) -> Option<(int, Seq<char>)> {
    if s.len() > 0 && s[0] == '-' {
        match parse_uint(s.skip(1)) {
            Some(p) => if p.0 <= 0x8000000000000000 {
                Some((-p.0, p.1))
            } else {
                None
            },
            None => None,
        }
    } else {
        match parse_uint(s) {
            Some(p) => if p.0 <= 0x7fffffffffffffff {
                Some(p)
            } else {
                None
            },
            None => None,
        }
    }
}

pub(crate) proof fn lemma_pow10_values()
    ensures
        pow10(18) == 0xDE0B6B3A7640000,
        pow10(19) == 0x8AC7230489E80000,
{
    assert(pow10(0) == 1);
    assert(pow10(1) == 10);
    assert(pow10(2) == 100);
    assert(pow10(3) == 1000);
    assert(pow10(4) == 10000);
    assert(pow10(5) == 100000);
    assert(pow10(6) == 1000000);
    assert(pow10(7) == 10000000);
    assert(pow10(8) == 100000000);
    assert(pow10(9) == 1000000000);
    assert(pow10(10) == 10000000000);
    assert(pow10(11) == 100000000000);
    assert(pow10(12) == 1000000000000);
    assert(pow10(13) == 10000000000000);
    assert(pow10(14) == 100000000000000);
    assert(pow10(15) == 1000000000000000);
    assert(pow10(16) == 10000000000000000);
    assert(pow10(17) == 100000000000000000);
    assert(pow10(18) == 1000000000000000000);
    assert(pow10(19) == 10000000000000000000);
}

pub(crate) proof fn lemma_digit_prefix_nonneg(s: Seq<char>)
    ensures
        digit_prefix_len(s) >= 0,
    decreases s.len(),
{
    if !(s.len() == 0 || !is_digit(s[0])) {
        lemma_digit_prefix_nonneg(s.skip(1));
    }
}

/// A sequence whose first `k` characters are digits has a digit prefix of at
/// least `k`; if character `k` is absent or not a digit, exactly `k`.
pub(crate) proof fn lemma_digit_prefix(s: Seq<char>, k: int)
    requires
        0 <= k <= s.len(),
        forall|m: int| 0 <= m < k ==> is_digit(s[m]),
    ensures
        digit_prefix_len(s) >= k,
        (k == s.len() || !is_digit(s[k])) ==> digit_prefix_len(s) == k,
    decreases k,
{
    if k > 0 {
        assert(is_digit(s[0]));
        assert forall|m: int| 0 <= m < k - 1 implies is_digit(s.skip(1)[m]) by {
            assert(s.skip(1)[m] == s[m + 1]);
        }
        lemma_digit_prefix(s.skip(1), k - 1);
        assert(digit_prefix_len(s) == 1 + digit_prefix_len(s.skip(1)));
        if k < s.len() {
            assert(s.skip(1)[k - 1] == s[k]);
        }
    } else {
        lemma_digit_prefix_nonneg(s);
        if k < s.len() && !is_digit(s[k]) {
            assert(digit_prefix_len(s) == 0);
        }
    }
}

pub fn parse_u64_at(v: &Vec<char>, i: usize) -> (r: Option<(u64, usize)>)
    requires
        i <= v@.len(),
    ensures
        match r {
            Some(p) => i <= p.1 <= v@.len() && parse_uint(v@.skip(i as int)) == Some(
                (p.0 as int, v@.skip(p.1 as int)),
            ),
            None => parse_uint(v@.skip(i as int)) is None,
        },
{
    proof {
        lemma_pow10_values();
    }
    let total = v.len();
    let mut j: usize = i;
    let mut val: u64 = 0;
    while j < total && 48 <= (v[j] as u32) && (v[j] as u32) <= 57
        invariant
            i <= j <= total,
            total == v@.len(),
            j - i <= 19,
            forall|m: int| i <= m < j ==> is_digit(v@[m]),
            val == digits_val(v@.subrange(i as int, j as int)),
            val < pow10((j - i) as nat),
            pow10(18) == 0xDE0B6B3A7640000,
            pow10(19) == 0x8AC7230489E80000,
        decreases v@.len() - j,
    {
        let c = v[j];
        let u = c as u32;
        if j - i == 19 {
            // a twentieth digit: the run is too long
            proof {
                assert(v@.skip(i as int).len() >= 20);
                assert forall|m: int| 0 <= m < 20 implies is_digit(v@.skip(i as int)[m]) by {
                    assert(v@.skip(i as int)[m] == v@[i + m]);
                }
                lemma_digit_prefix(v@.skip(i as int), 20);
            }
            return None;
        }
        proof {
            assert(val <= pow10((j - i) as nat) - 1);
            assert(pow10((j - i) as nat) <= pow10(18)) by {
                lemma_pow10_increases((j - i) as nat, 18);
            }
            assert(10 * val + 9 < 10 * pow10((j - i) as nat));
            let ghost jj = j as int;
            assert(v@.subrange(i as int, jj + 1).take(jj - i) =~= v@.subrange(i as int, jj));
            assert(v@.subrange(i as int, jj + 1)[jj - i] == v@[jj]);
        }
        val = val * 10 + ((u - 48) as u64);
        j += 1;
    }
    let k = j - i;
    proof {
        assert forall|m: int| 0 <= m < k implies is_digit(v@.skip(i as int)[m]) by {
            assert(v@.skip(i as int)[m] == v@[i + m]);
        }
        if j < v@.len() {
            assert(v@.skip(i as int)[k as int] == v@[j as int]);
            assert(!is_digit(v@[j as int]));
        }
        lemma_digit_prefix(v@.skip(i as int), k as int);
        assert(digit_prefix_len(v@.skip(i as int)) == k);
    }
    if k == 0 {
        return None;
    }
    proof {
        assert(v@.skip(i as int).take(k as int) =~= v@.subrange(i as int, j as int));
        assert(v@.skip(i as int).skip(k as int) =~= v@.skip(j as int));
    }
    Some((val, j))
}

pub fn parse_i64_at(v: &Vec<char>, i: usize) -> (r: Option<(i64, usize)>)
    requires
        i <= v@.len(),
    ensures
        match r {
            Some(p) => i <= p.1 <= v@.len() && parse_int(v@.skip(i as int)) == Some(
                (p.0 as int, v@.skip(p.1 as int)),
            ),
            None => parse_int(v@.skip(i as int)) is None,
        },
{
    let ghost su = v@.skip(i as int);
    if i < v.len() && v[i] == '-' {
        proof {
            assert(su[0] == v@[i as int]);
            assert(su.skip(1) =~= v@.skip(i + 1));
        }
        match parse_u64_at(v, i + 1) {
            Some((m, j)) => {
                if m <= 0x8000000000000000u64 {
                    let val: i64 = if m == 0x8000000000000000u64 {
                        i64::MIN
                    } else {
                        -(m as i64)
                    };
                    Some((val, j))
                } else {
                    None
                }
            },
            None => None,
        }
    } else {
        proof {
            if su.len() > 0 {
                assert(su[0] == v@[i as int]);
            }
        }
        match parse_u64_at(v, i) {
            Some((m, j)) => {
                if m <= 0x7fffffffffffffffu64 {
                    Some((m as i64, j))
                } else {
                    None
                }
            },
            None => None,
        }
    }
}

pub(crate) proof fn lemma_pow10_increases(a: nat, b: nat)
    requires
        a <= b,
    ensures
        pow10(a) <= pow10(b),
        pow10(a) >= 1,
    decreases b,
{
    if b == 0 {
    } else if a == b {
        lemma_pow10_increases((a - 1) as nat, (b - 1) as nat);
        assert(pow10(b) == 10 * pow10((b - 1) as nat));
    } else {
        lemma_pow10_increases(a, (b - 1) as nat);
        assert(pow10(b) == 10 * pow10((b - 1) as nat));
    }
}

// ---------------------------------------------------------------------------
// Claims objects
// ---------------------------------------------------------------------------

/// Consumes an exact literal prefix.
pub open spec fn expect_prefix(s: Seq<char>, lit: Seq<char>) -> Option<Seq<char>> {
    if lit.len() <= s.len() && s.take(lit.len() as int) == lit {
        Some(s.skip(lit.len() as int))
    } else {
        None
    }
}

pub fn expect_lit(v: &Vec<char>, i: usize, lit: &str) -> (r: Option<usize>)
    requires
        i <= v@.len(),
    ensures
        match r {
            Some(j) => i <= j <= v@.len() && expect_prefix(v@.skip(i as int), lit@) == Some(
                v@.skip(j as int),
            ),
            None => expect_prefix(v@.skip(i as int), lit@) is None,
        },
{
    let n = lit.unicode_len();
    let total = v.len();
    if total - i < n {
        proof {
            assert(v@.skip(i as int).len() < lit@.len());
        }
        return None;
    }
    let mut k: usize = 0;
    while k < n
        invariant
            0 <= k <= n,
            n == lit@.len(),
            total == v@.len(),
            i + n <= total,
            forall|m: int| 0 <= m < k ==> v@[i + m] == lit@[m],
        decreases n - k,
    {
        if v[i + k] != lit.get_char(k) {
            proof {
                assert(v@.skip(i as int).take(lit@.len() as int)[k as int] == v@[i + k]);
            }
            return None;
        }
        k += 1;
    }
    proof {
        assert(v@.skip(i as int).take(lit@.len() as int) =~= lit@);
        assert(v@.skip(i as int).skip(lit@.len() as int) =~= v@.skip(i + n));
    }
    Some(i + n)
}

/// The spec-level parse of canonical access-claims JSON.
pub open spec fn parse_access_claims(s: Seq<char>) -> Option<AccessClaimsView> {
    match expect_prefix(s, "{\"aud\":\""@) {
        None => None,
        Some(s1) => match parse_jstr(s1) {
            None => None,
            Some((aud, s2)) => match expect_prefix(s2, ",\"exp\":"@) {
                None => None,
                Some(s3) => match parse_int(s3) {
                    None => None,
                    Some((exp, s4)) => match expect_prefix(s4, ",\"id\":\""@) {
                        None => None,
                        Some(s5) => match parse_jstr(s5) {
                            None => None,
                            Some((id, s6)) => match expect_prefix(s6, ",\"email\":\""@) {
                                None => None,
                                Some(s7) => match parse_jstr(s7) {
                                    None => None,
                                    Some((email, s8)) => match expect_prefix(
                                        s8,
                                        ",\"fullName\":\""@,
                                    ) {
                                        None => None,
                                        Some(s9) => match parse_jstr(s9) {
                                            None => None,
                                            Some((full_name, s10)) => match expect_prefix(
                                                s10,
                                                ",\"username\":\""@,
                                            ) {
                                                None => None,
                                                Some(s11) => match parse_jstr(s11) {
                                                    None => None,
                                                    Some((username, s12)) => match expect_prefix(
                                                        s12,
                                                        ",\"pictureUrl\":\""@,
                                                    ) {
                                                        None => None,
                                                        Some(s13) => match parse_jstr(s13) {
                                                            None => None,
                                                            Some((picture_url, s14)) => if s14
                                                                == "}"@ {
                                                                Some(
                                                                    AccessClaimsView {
                                                                        aud,
                                                                        exp,
                                                                        id,
                                                                        email,
                                                                        full_name,
                                                                        username,
                                                                        picture_url,
                                                                    },
                                                                )
                                                            } else {
                                                                None
                                                            },
                                                        },
                                                    },
                                                },
                                            },
                                        },
                                    },
                                },
                            },
                        },
                    },
                },
            },
        },
    }
}

/// The spec-level parse of canonical refresh-claims JSON.
pub open spec fn parse_refresh_claims(s: Seq<char>) -> Option<RefreshClaimsView> {
    match expect_prefix(s, "{\"aud\":\""@) {
        None => None,
        Some(s1) => match parse_jstr(s1) {
            None => None,
            Some((aud, s2)) => match expect_prefix(s2, ",\"exp\":"@) {
                None => None,
                Some(s3) => match parse_int(s3) {
                    None => None,
                    Some((exp, s4)) => match expect_prefix(s4, ",\"username\":\""@) {
                        None => None,
                        Some(s5) => match parse_jstr(s5) {
                            None => None,
                            Some((username, s6)) => match expect_prefix(s6, ",\"usedFor\":\""@) {
                                None => None,
                                Some(s7) => match parse_jstr(s7) {
                                    None => None,
                                    Some((used_for, s8)) => match expect_prefix(
                                        s8,
                                        ",\"userIp\":\""@,
                                    ) {
                                        None => None,
                                        Some(s9) => match parse_jstr(s9) {
                                            None => None,
                                            Some((user_ip, s10)) => if s10 == "}"@ {
                                                Some(
                                                    RefreshClaimsView {
                                                        aud,
                                                        exp,
                                                        username,
                                                        used_for,
                                                        user_ip,
                                                    },
                                                )
                                            } else {
                                                None
                                            },
                                        },
                                    },
                                },
                            },
                        },
                    },
                },
            },
        },
    }
}

/// Checks that the text at `i` is exactly a closing brace and nothing more.
fn expect_end(v: &Vec<char>, i: usize) -> (r: bool)
    requires
        i <= v@.len(),
    ensures
        r == (v@.skip(i as int) == "}"@),
{
    proof {
        reveal_strlit("}");
    }
    if v.len() - i == 1 && v[i] == '}' {
        proof {
            assert(v@.skip(i as int) =~= "}"@);
        }
        true
    } else {
        proof {
            if v@.skip(i as int) == "}"@ {
                assert(v@.skip(i as int).len() == 1);
                assert(v@.skip(i as int)[0] == v@[i as int]);
                assert(v@[i as int] == '}');
            }
        }
        false
    }
}

pub fn parse_access_at(v: &Vec<char>) -> (r: Option<JwtTokenPayload>)
    ensures
        match r {
            Some(c) => parse_access_claims(v@) == Some(c@),
            None => parse_access_claims(v@) is None,
        },
{
    proof {
        assert(v@.skip(0) =~= v@);
    }
    let s1 = match expect_lit(v, 0, "{\"aud\":\"") {
        Some(j) => j,
        None => {
            return None;
        },
    };
    let (aud, s2) = match parse_jstr_at(v, s1) {
        Some(p) => p,
        None => {
            return None;
        },
    };
    let s3 = match expect_lit(v, s2, ",\"exp\":") {
        Some(j) => j,
        None => {
            return None;
        },
    };
    let (exp, s4) = match parse_i64_at(v, s3) {
        Some(p) => p,
        None => {
            return None;
        },
    };
    let s5 = match expect_lit(v, s4, ",\"id\":\"") {
        Some(j) => j,
        None => {
            return None;
        },
    };
    let (id, s6) = match parse_jstr_at(v, s5) {
        Some(p) => p,
        None => {
            return None;
        },
    };
    let s7 = match expect_lit(v, s6, ",\"email\":\"") {
        Some(j) => j,
        None => {
            return None;
        },
    };
    let (email, s8) = match parse_jstr_at(v, s7) {
        Some(p) => p,
        None => {
            return None;
        },
    };
    let s9 = match expect_lit(v, s8, ",\"fullName\":\"") {
        Some(j) => j,
        None => {
            return None;
        },
    };
    let (full_name, s10) = match parse_jstr_at(v, s9) {
        Some(p) => p,
        None => {
            return None;
        },
    };
    let s11 = match expect_lit(v, s10, ",\"username\":\"") {
        Some(j) => j,
        None => {
            return None;
        },
    };
    let (username, s12) = match parse_jstr_at(v, s11) {
        Some(p) => p,
        None => {
            return None;
        },
    };
    let s13 = match expect_lit(v, s12, ",\"pictureUrl\":\"") {
        Some(j) => j,
        None => {
            return None;
        },
    };
    let (picture_url, s14) = match parse_jstr_at(v, s13) {
        Some(p) => p,
        None => {
            return None;
        },
    };
    if !expect_end(v, s14) {
        return None;
    }
    Some(JwtTokenPayload { aud, exp, id, email, full_name, username, picture_url })
}

pub fn parse_refresh_at(v: &Vec<char>) -> (r: Option<JwtRefreshTokenPayload>)
    ensures
        match r {
            Some(c) => parse_refresh_claims(v@) == Some(c@),
            None => parse_refresh_claims(v@) is None,
        },
{
    proof {
        assert(v@.skip(0) =~= v@);
    }
    let s1 = match expect_lit(v, 0, "{\"aud\":\"") {
        Some(j) => j,
        None => {
            return None;
        },
    };
    let (aud, s2) = match parse_jstr_at(v, s1) {
        Some(p) => p,
        None => {
            return None;
        },
    };
    let s3 = match expect_lit(v, s2, ",\"exp\":") {
        Some(j) => j,
        None => {
            return None;
        },
    };
    let (exp, s4) = match parse_i64_at(v, s3) {
        Some(p) => p,
        None => {
            return None;
        },
    };
    let s5 = match expect_lit(v, s4, ",\"username\":\"") {
        Some(j) => j,
        None => {
            return None;
        },
    };
    let (username, s6) = match parse_jstr_at(v, s5) {
        Some(p) => p,
        None => {
            return None;
        },
    };
    let s7 = match expect_lit(v, s6, ",\"usedFor\":\"") {
        Some(j) => j,
        None => {
            return None;
        },
    };
    let (used_for, s8) = match parse_jstr_at(v, s7) {
        Some(p) => p,
        None => {
            return None;
        },
    };
    let s9 = match expect_lit(v, s8, ",\"userIp\":\"") {
        Some(j) => j,
        None => {
            return None;
        },
    };
    let (user_ip, s10) = match parse_jstr_at(v, s9) {
        Some(p) => p,
        None => {
            return None;
        },
    };
    if !expect_end(v, s10) {
        return None;
    }
    Some(JwtRefreshTokenPayload { aud, exp, username, used_for, user_ip })
}

} // verus!
