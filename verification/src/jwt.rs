//! The token codec: compact signed tokens over the claims of `claims`.
//!
//! A token is `b64url(header) "." b64url(claims-json) "." signature`, signed
//! with RSA-SHA256 under a fixed header and a fixed audience. The RSA and
//! base64 primitives are outside calls behind trusted wrappers; everything
//! around them — the wire layout, the claims text, audience and expiry
//! checks — is verified, and `spec_sign` / `spec_verify` state the exact
//! result of each operation.

use vstd::prelude::*;
use crate::claims::{
    AccessClaimsView, RefreshClaimsView, JwtTokenPayload, JwtRefreshTokenPayload, access_json,
    refresh_json, header_json, access_json_text, refresh_json_text, header_json_text,
};
use crate::configuration::JwtSettings;
use crate::parse::{parse_access_claims, parse_refresh_claims, parse_access_at, parse_refresh_at};
use crate::text::{str_to_chars, chars_to_string, string_eq};

verus! {

// ---------------------------------------------------------------------------
// Named results of the outside calls
// ---------------------------------------------------------------------------

/// The base64url (no padding) encoding of the UTF-8 bytes of `s`.
pub uninterp spec fn b64url(s: Seq<char>) -> Seq<char>;

/// The text whose base64url encoding is `s`, when `s` is such an encoding of
/// well-formed UTF-8.
pub uninterp spec fn b64url_decoded(s: Seq<char>) -> Option<Seq<char>>;

/// The bytes that standard base64 decoding of `s` yields, when `s` decodes.
pub uninterp spec fn b64std_decoded(s: Seq<char>) -> Option<Seq<u8>>;

/// The base64url RSA-SHA256 signature of `msg` under the private key PEM
/// `pem`, when that key material is usable.
pub uninterp spec fn rs256_signature(msg: Seq<char>, pem: Seq<u8>) -> Option<Seq<char>>;

/// Whether `pem` parses as an RSA public key.
pub uninterp spec fn rsa_pubkey_ok(pem: Seq<u8>) -> bool;

/// Whether signature text `sig` validates `msg` under the public key `pem`.
pub uninterp spec fn rs256_sig_valid(sig: Seq<char>, msg: Seq<char>, pem: Seq<u8>) -> bool;

/// Holds when no character of `s` is the segment separator.
pub open spec fn no_dot(s: Seq<char>) -> bool {
    forall|k: int| 0 <= k < s.len() ==> s[k] != '.'
}

// ---------------------------------------------------------------------------
// Trusted wrappers
// ---------------------------------------------------------------------------

/// Relies on base64's `URL_SAFE_NO_PAD` engine: the encoding is a function of
/// the input text alone, decodes back to it, and uses an alphabet without `.`.
#[verifier::external_body]
fn b64url_encode(s: &str) -> (r: String)
    ensures
        r@ == b64url(s@),
        b64url_decoded(r@) == Some(s@),
        no_dot(r@),
{
    base64::Engine::encode(&base64::engine::general_purpose::URL_SAFE_NO_PAD, s.as_bytes())
}

/// Relies on base64's `URL_SAFE_NO_PAD` decode and `String::from_utf8`: both
/// are functions of the input text alone.
#[verifier::external_body]
fn b64url_decode(s: &str) -> (r: Option<String>)
    ensures
        (r is Some) == (b64url_decoded(s@) is Some),
        r matches Some(t) ==> b64url_decoded(s@) == Some(t@),
{
    match base64::Engine::decode(&base64::engine::general_purpose::URL_SAFE_NO_PAD, s.as_bytes()) {
        Ok(b) => String::from_utf8(b).ok(),
        Err(_) => None,
    }
}

/// Relies on base64's `STANDARD` engine: decoding is a function of the input
/// text alone.
#[verifier::external_body]
fn b64std_decode(s: &str) -> (r: Option<Vec<u8>>)
    ensures
        (r is Some) == (b64std_decoded(s@) is Some),
        r matches Some(b) ==> b64std_decoded(s@) == Some(b@),
{
    base64::Engine::decode(&base64::engine::general_purpose::STANDARD, s.as_bytes()).ok()
}

/// Relies on rsa's PKCS#8/PKCS#1 PEM decoding, its RSASSA-PKCS1-v1_5
/// `SigningKey` with SHA-256 (`try_sign_with_rng` is fallible — a key too
/// small for the digest yields an error, never an abort — and the rng only
/// blinds, so the signature is a function of message and key alone), and
/// base64's `URL_SAFE_NO_PAD` encoding of the signature.
#[verifier::external_body]
fn rs256_sign(msg: &str, pem: &Vec<u8>) -> (r: Option<String>)
    ensures
        (r is Some) == (rs256_signature(msg@, pem@) is Some),
        r matches Some(sig) ==> rs256_signature(msg@, pem@) == Some(sig@),
{
    let text = core::str::from_utf8(pem).ok()?;
    let parsed: Result<rsa::RsaPrivateKey, _> = rsa::pkcs8::DecodePrivateKey::from_pkcs8_pem(text);
    let key = match parsed {
        Ok(k) => k,
        Err(_) => rsa::pkcs1::DecodeRsaPrivateKey::from_pkcs1_pem(text).ok()?,
    };
    let signer = rsa::pkcs1v15::SigningKey::<rsa::sha2::Sha256>::new(key);
    let sig = rsa::signature::RandomizedSigner::try_sign_with_rng(
        &signer, &mut rand::thread_rng(), msg.as_bytes()).ok()?;
    let bytes = rsa::signature::SignatureEncoding::to_vec(&sig);
    Some(base64::Engine::encode(&base64::engine::general_purpose::URL_SAFE_NO_PAD, bytes))
}

/// Relies on jsonwebtoken's `DecodingKey::from_rsa_pem` and `crypto::verify`
/// with `Algorithm::RS256`: whether a signature text validates a message
/// under a public key is a function of the three values; a signature that
/// does not even decode validates nothing. The call yields no answer only
/// when the public key material is unusable.
#[verifier::external_body]
fn rs256_check(sig: &str, msg: &str, pem: &Vec<u8>) -> (r: Option<bool>)
    ensures
        (r is Some) == rsa_pubkey_ok(pem@),
        r matches Some(b) ==> b == rs256_sig_valid(sig@, msg@, pem@),
{
    let key = match jsonwebtoken::DecodingKey::from_rsa_pem(pem) {
        Ok(k) => k,
        Err(_) => return None,
    };
    match jsonwebtoken::crypto::verify(sig, msg.as_bytes(), &key, jsonwebtoken::Algorithm::RS256) {
        Ok(b) => Some(b),
        Err(_) => Some(false),
    }
}

/// Relies on jsonwebtoken's `DecodingKey::from_rsa_pem`: whether the public
/// key material parses is a function of the bytes alone.
#[verifier::external_body]
fn rsa_pubkey_check(pem: &Vec<u8>) -> (r: bool)
    ensures
        r == rsa_pubkey_ok(pem@),
{
    jsonwebtoken::DecodingKey::from_rsa_pem(pem).is_ok()
}

// ---------------------------------------------------------------------------
// Token model
// ---------------------------------------------------------------------------

/// How the codec classifies a failed operation: unusable key material (a
/// server fault), a token that fails structure, signature, audience or expiry
/// checks, or a cryptographically valid token whose payload is not the
/// requested claim shape.
#[derive(Clone, Copy, Debug, PartialEq, Eq, Structural)]
pub enum TokenError {
    KeyMaterial,
    Malformed,
    PayloadMismatch,
}

/// The claim shape a caller asks `verify` to enforce.
#[derive(Clone, Copy, Debug, PartialEq, Eq, Structural)]
pub enum TokenKind {
    Access,
    Refresh,
}

/// Spec-level image of a signed payload of either shape.
pub enum ClaimsView {
    Access(AccessClaimsView),
    Refresh(RefreshClaimsView),
}

/// A signed payload of either shape.
#[derive(Debug)]
pub enum TokenClaims {
    Access(JwtTokenPayload),
    Refresh(JwtRefreshTokenPayload),
}

impl View for TokenClaims {
    type V = ClaimsView;

    open spec fn view(&self) -> ClaimsView {
        match self {
            TokenClaims::Access(c) => ClaimsView::Access(c@),
            TokenClaims::Refresh(c) => ClaimsView::Refresh(c@),
        }
    }
}

/// The audience value every token of this system carries.
pub open spec fn audience() -> Seq<char> {
    "instaclone"@
}

pub open spec fn claims_kind(c: ClaimsView) -> TokenKind {
    match c {
        ClaimsView::Access(_) => TokenKind::Access,
        ClaimsView::Refresh(_) => TokenKind::Refresh,
    }
}

pub open spec fn claims_aud(c: ClaimsView) -> Seq<char> {
    match c {
        ClaimsView::Access(a) => a.aud,
        ClaimsView::Refresh(r) => r.aud,
    }
}

pub open spec fn claims_exp(c: ClaimsView) -> int {
    match c {
        ClaimsView::Access(a) => a.exp,
        ClaimsView::Refresh(r) => r.exp,
    }
}

/// The canonical JSON text of a payload of either shape.
pub open spec fn claims_json(c: ClaimsView) -> Seq<char> {
    match c {
        ClaimsView::Access(a) => access_json(a),
        ClaimsView::Refresh(r) => refresh_json(r),
    }
}

/// The text that is signed: encoded header, separator, encoded claims.
pub open spec fn signing_input(payload_json: Seq<char>) -> Seq<char> {
    b64url(header_json()) + seq!['.'] + b64url(payload_json)
}

/// What signing yields: the signed text with the signature appended, or
/// `KeyMaterial` when the private key cannot be decoded or used.
pub open spec fn spec_sign(c: ClaimsView, key_b64: Seq<char>) -> Result<Seq<char>, TokenError> {
    match b64std_decoded(key_b64) {
        None => Err(TokenError::KeyMaterial),
        Some(pem) => {
            let msg = signing_input(claims_json(c));
            match rs256_signature(msg, pem) {
                None => Err(TokenError::KeyMaterial),
                Some(sig) => Ok(msg + seq!['.'] + sig),
            }
        },
    }
}

/// Index of the first `.` in `s`, or -1 when there is none.
pub open spec fn first_dot(s: Seq<char>) -> int
    decreases s.len(),
{
    if s.len() == 0 {
        -1
    } else if s[0] == '.' {
        0
    } else {
        let d = first_dot(s.skip(1));
        if d < 0 {
            -1
        } else {
            1 + d
        }
    }
}

/// Parses the decoded payload text as the requested shape.
pub open spec fn parse_payload(kind: TokenKind, payload: Seq<char>) -> Option<ClaimsView> {
    match kind {
        TokenKind::Access => match parse_access_claims(payload) {
            Some(a) => Some(ClaimsView::Access(a)),
            None => None,
        },
        TokenKind::Refresh => match parse_refresh_claims(payload) {
            Some(r) => Some(ClaimsView::Refresh(r)),
            None => None,
        },
    }
}

/// What verification yields for token text `t`, requested shape `kind`,
/// public key `key_b64` and current time `now`: the claims exactly when the
/// key material is usable and the token has our fixed header, a signature
/// that validates the signed text, a payload of the requested shape, the
/// fixed audience, and an expiry after `now` — otherwise the error class of
/// the first failing check. Unusable key material is classified before
/// anything is read from the token.
pub open spec fn spec_verify(t: Seq<char>, kind: TokenKind, key_b64: Seq<char>, now: int) -> Result<
    ClaimsView,
    TokenError,
> {
    match b64std_decoded(key_b64) {
        None => Err(TokenError::KeyMaterial),
        Some(pem) => {
            if !rsa_pubkey_ok(pem) {
                Err(TokenError::KeyMaterial)
            } else {
                let hseg = b64url(header_json());
                let hl = hseg.len() as int;
                if !(t.len() > hl && t.take(hl) == hseg && t[hl] == '.') {
                    Err(TokenError::Malformed)
                } else {
                    let rest = t.skip(hl + 1);
                    let d = first_dot(rest);
                    if d < 0 {
                        Err(TokenError::Malformed)
                    } else {
                        let pseg = rest.take(d);
                        let sig = rest.skip(d + 1);
                        let msg = t.take(hl + 1 + d);
                        if !rs256_sig_valid(sig, msg, pem) {
                            Err(TokenError::Malformed)
                        } else {
                            match b64url_decoded(pseg) {
                                None => Err(TokenError::Malformed),
                                Some(payload) => match parse_payload(kind, payload) {
                                    None => Err(TokenError::PayloadMismatch),
                                    Some(c) => if claims_exp(c) <= now {
                                        Err(TokenError::Malformed)
                                    } else if claims_aud(c) != audience() {
                                        Err(TokenError::Malformed)
                                    } else {
                                        Ok(c)
                                    },
                                },
                            }
                        }
                    }
                }
            }
        },
    }
}

// ---------------------------------------------------------------------------
// Executable codec
// ---------------------------------------------------------------------------

/// Signs `claims` with the configured private key.
pub fn sign(claims: &TokenClaims, config: &JwtSettings) -> (r: Result<String, TokenError>)
    ensures
        ({
            let res = spec_sign(claims@, config.private_key@);
            match r {
                Ok(t) => res == Ok::<Seq<char>, TokenError>(t@),
                Err(e) => res == Err::<Seq<char>, TokenError>(e),
            }
        }),
{
    let pem = match b64std_decode(config.private_key.as_str()) {
        Some(p) => p,
        None => {
            return Err(TokenError::KeyMaterial);
        },
    };
    let json = match claims {
        TokenClaims::Access(c) => access_json_text(c),
        TokenClaims::Refresh(c) => refresh_json_text(c),
    };
    let mut msg = b64url_encode(header_json_text().as_str());
    msg.append(".");
    msg.append(b64url_encode(json.as_str()).as_str());
    proof {
        reveal_strlit(".");
        assert("."@ =~= seq!['.']);
        assert(msg@ =~= signing_input(claims_json(claims@)));
    }
    let sig = match rs256_sign(msg.as_str(), &pem) {
        Some(s) => s,
        None => {
            return Err(TokenError::KeyMaterial);
        },
    };
    let mut token = msg;
    token.append(".");
    token.append(sig.as_str());
    proof {
        assert(token@ =~= signing_input(claims_json(claims@)) + seq!['.'] + sig@);
    }
    Ok(token)
}

/// True when `v` starts with the characters of `p`.
fn starts_with_chars(v: &Vec<char>, p: &Vec<char>) -> (r: bool)
    ensures
        r == (v@.len() >= p@.len() && v@.take(p@.len() as int) == p@),
{
    if v.len() < p.len() {
        return false;
    }
    let mut k: usize = 0;
    while k < p.len()
        invariant
            0 <= k <= p@.len(),
            p@.len() <= v@.len(),
            forall|m: int| 0 <= m < k ==> v@[m] == p@[m],
        decreases p@.len() - k,
    {
        if v[k] != p[k] {
            proof {
                assert(v@.take(p@.len() as int)[k as int] == v@[k as int]);
            }
            return false;
        }
        k += 1;
    }
    proof {
        assert(v@.take(p@.len() as int) =~= p@);
    }
    true
}

proof fn lemma_first_dot(s: Seq<char>, k: int)
    requires
        0 <= k <= s.len(),
        forall|m: int| 0 <= m < k ==> s[m] != '.',
        k < s.len() ==> s[k] == '.',
    ensures
        k == s.len() ==> first_dot(s) == -1,
        k < s.len() ==> first_dot(s) == k,
    decreases k,
{
    if k == 0 {
    } else {
        assert(s[0] != '.');
        assert forall|m: int| 0 <= m < k - 1 implies s.skip(1)[m] != '.' by {
            assert(s.skip(1)[m] == s[m + 1]);
        }
        if k < s.len() {
            assert(s.skip(1)[k - 1] == s[k]);
        }
        lemma_first_dot(s.skip(1), k - 1);
    }
}

/// Finds the first `.` at or after `from`.
fn find_dot(v: &Vec<char>, from: usize) -> (r: Option<usize>)
    requires
        from <= v@.len(),
    ensures
        match r {
            Some(j) => from <= j < v@.len() && first_dot(v@.skip(from as int)) == j - from,
            None => first_dot(v@.skip(from as int)) == -1,
        },
{
    let mut j = from;
    while j < v.len() && v[j] != '.'
        invariant
            from <= j <= v@.len(),
            forall|m: int| from <= m < j ==> v@[m] != '.',
        decreases v@.len() - j,
    {
        j += 1;
    }
    proof {
        let su = v@.skip(from as int);
        assert forall|m: int| 0 <= m < j - from implies su[m] != '.' by {
            assert(su[m] == v@[from + m]);
        }
        if j < v@.len() {
            assert(su[j - from] == v@[j as int]);
        }
        lemma_first_dot(su, j - from);
    }
    if j < v.len() {
        Some(j)
    } else {
        None
    }
}

/// Copies `v[a..b]` into a fresh vector.
fn chars_range(v: &Vec<char>, a: usize, b: usize) -> (r: Vec<char>)
    requires
        a <= b <= v@.len(),
    ensures
        r@ == v@.subrange(a as int, b as int),
{
    let mut out: Vec<char> = Vec::new();
    let mut k = a;
    while k < b
        invariant
            a <= k <= b <= v@.len(),
            out@ == v@.subrange(a as int, k as int),
        decreases b - k,
    {
        out.push(v[k]);
        k += 1;
        proof {
            assert(out@ =~= v@.subrange(a as int, k as int));
        }
    }
    out
}

/// Verifies `token` as a claims payload of shape `kind`: checks the fixed
/// header, the RSA-SHA256 signature over the signed text, the payload shape,
/// the audience and the expiry against `now`.
pub fn verify(token: &str, kind: TokenKind, config: &JwtSettings, now: i64) -> (r: Result<
    TokenClaims,
    TokenError,
>)
    ensures
        ({
            let res = spec_verify(token@, kind, config.public_key@, now as int);
            match r {
                Ok(c) => res == Ok::<ClaimsView, TokenError>(c@) && claims_kind(c@) == kind,
                Err(e) => res == Err::<ClaimsView, TokenError>(e),
            }
        }),
{
    let pem = match b64std_decode(config.public_key.as_str()) {
        Some(p) => p,
        None => {
            return Err(TokenError::KeyMaterial);
        },
    };
    if !rsa_pubkey_check(&pem) {
        return Err(TokenError::KeyMaterial);
    }
    let tv = str_to_chars(token);
    let hseg = b64url_encode(header_json_text().as_str());
    let hv = str_to_chars(hseg.as_str());
    let hl = hv.len();
    let ghost ghl = hl as int;
    if !(tv.len() > hl && starts_with_chars(&tv, &hv)) {
        return Err(TokenError::Malformed);
    }
    if tv[hl] != '.' {
        return Err(TokenError::Malformed);
    }
    let d = match find_dot(&tv, hl + 1) {
        Some(j) => j,
        None => {
            proof {
                assert(token@.skip(ghl + 1) =~= tv@.skip(ghl + 1));
            }
            return Err(TokenError::Malformed);
        },
    };
    proof {
        assert(token@.skip(ghl + 1) =~= tv@.skip(ghl + 1));
    }
    let ghost rest = token@.skip(ghl + 1);
    let ghost gd = d - (ghl + 1);
    let pseg_v = chars_range(&tv, hl + 1, d);
    let sig_v = chars_range(&tv, d + 1, tv.len());
    let msg_v = chars_range(&tv, 0, d);
    proof {
        assert(pseg_v@ =~= rest.take(gd));
        assert(sig_v@ =~= rest.skip(gd + 1));
        assert(msg_v@ =~= token@.take(ghl + 1 + gd));
    }
    let pseg = chars_to_string(&pseg_v);
    let sig = chars_to_string(&sig_v);
    let msg = chars_to_string(&msg_v);
    let ok = match rs256_check(sig.as_str(), msg.as_str(), &pem) {
        Some(b) => b,
        None => {
            // the key already parsed, so the check always answers
            proof {
                assert(false);
            }
            return Err(TokenError::KeyMaterial);
        },
    };
    if !ok {
        return Err(TokenError::Malformed);
    }
    let payload = match b64url_decode(pseg.as_str()) {
        Some(p) => p,
        None => {
            return Err(TokenError::Malformed);
        },
    };
    let pv = str_to_chars(payload.as_str());
    match kind {
        TokenKind::Access => {
            let c = match parse_access_at(&pv) {
                Some(c) => c,
                None => {
                    return Err(TokenError::PayloadMismatch);
                },
            };
            if c.exp <= now {
                return Err(TokenError::Malformed);
            }
            if !string_eq(c.aud.as_str(), "instaclone") {
                return Err(TokenError::Malformed);
            }
            Ok(TokenClaims::Access(c))
        },
        TokenKind::Refresh => {
            let c = match parse_refresh_at(&pv) {
                Some(c) => c,
                None => {
                    return Err(TokenError::PayloadMismatch);
                },
            };
            if c.exp <= now {
                return Err(TokenError::Malformed);
            }
            if !string_eq(c.aud.as_str(), "instaclone") {
                return Err(TokenError::Malformed);
            }
            Ok(TokenClaims::Refresh(c))
        },
    }
}

// ---------------------------------------------------------------------------
// Token-level laws
// ---------------------------------------------------------------------------

/// A token accepted by `spec_verify` carries the requested claim shape, the
/// fixed audience, an expiry strictly after `now`, begins with the fixed
/// RS256 header segment, and its signature validates the signed text under
/// the key. Contrapositively: a token whose header names any other
/// algorithm, whose audience differs, or whose expiry has passed is rejected
/// even under the correct key.
pub proof fn lemma_verify_accepts_only_valid(
    t: Seq<char>,
    kind: TokenKind,
    key_b64: Seq<char>,
    now: int,
    c: ClaimsView,
)
    requires
        spec_verify(t, kind, key_b64, now) == Ok::<ClaimsView, TokenError>(c),
    ensures
        claims_kind(c) == kind,
        claims_aud(c) == audience(),
        claims_exp(c) > now,
        t.len() > b64url(header_json()).len(),
        t.take(b64url(header_json()).len() as int) == b64url(header_json()),
        b64std_decoded(key_b64) is Some,
        ({
            let pem = match b64std_decoded(key_b64) {
                Some(p) => p,
                None => Seq::<u8>::empty(),
            };
            let hl = b64url(header_json()).len() as int;
            let rest = t.skip(hl + 1);
            let d = first_dot(rest);
            &&& rsa_pubkey_ok(pem)
            &&& d >= 0
            &&& rs256_sig_valid(rest.skip(d + 1), t.take(hl + 1 + d), pem)
        }),
{
}

/// The hypotheses under which the round trip holds: the private key decodes
/// and signs, the paired public key decodes and validates that signature
/// over the signed text, the base64url segments decode back (as the encode
/// wrapper states of every encoding), and the claims carry the fixed
/// audience, an expiry after `now` that fits 64 signed bits.
pub open spec fn roundtrip_conditions(
    c: ClaimsView,
    priv_b64: Seq<char>,
    pub_b64: Seq<char>,
    now: int,
) -> bool {
    match b64std_decoded(priv_b64) {
        None => false,
        Some(priv_pem) => match rs256_signature(signing_input(claims_json(c)), priv_pem) {
            None => false,
            Some(sig) => match b64std_decoded(pub_b64) {
                None => false,
                Some(pub_pem) => {
                    &&& rsa_pubkey_ok(pub_pem)
                    &&& rs256_sig_valid(sig, signing_input(claims_json(c)), pub_pem)
                    &&& no_dot(b64url(claims_json(c)))
                    &&& b64url_decoded(b64url(claims_json(c))) == Some(claims_json(c))
                    &&& claims_aud(c) == audience()
                    &&& claims_exp(c) > now
                    &&& -0x8000000000000000 <= claims_exp(c) <= 0x7fffffffffffffff
                },
            },
        },
    }
}

/// Round trip: under `roundtrip_conditions`, a token this codec signs
/// verifies back to exactly the claims it was built from.
#[verifier::rlimit(100)]
pub proof fn lemma_sign_verify_roundtrip(
    c: ClaimsView,
    priv_b64: Seq<char>,
    pub_b64: Seq<char>,
    now: int,
)
    ensures
        roundtrip_conditions(c, priv_b64, pub_b64, now) ==> ({
            &&& spec_sign(c, priv_b64) is Ok
            &&& spec_verify(
                match spec_sign(c, priv_b64) {
                    Ok(t) => t,
                    Err(_) => Seq::<char>::empty(),
                },
                claims_kind(c),
                pub_b64,
                now,
            ) == Ok::<ClaimsView, TokenError>(c)
        }),
{
    if roundtrip_conditions(c, priv_b64, pub_b64, now) {
        let priv_pem = match b64std_decoded(priv_b64) {
            Some(p) => p,
            None => Seq::<u8>::empty(),
        };
        let pub_pem = match b64std_decoded(pub_b64) {
            Some(p) => p,
            None => Seq::<u8>::empty(),
        };
        let hseg = b64url(header_json());
        let pseg = b64url(claims_json(c));
        let msg = signing_input(claims_json(c));
        let sig = match rs256_signature(msg, priv_pem) {
            Some(s) => s,
            None => Seq::<char>::empty(),
        };
        let t = msg + seq!['.'] + sig;
        assert(spec_sign(c, priv_b64) == Ok::<Seq<char>, TokenError>(t));
        let hl = hseg.len() as int;
        assert(msg == hseg + seq!['.'] + pseg);
        assert(t.len() == hl + 1 + pseg.len() + 1 + sig.len());
        assert(t.take(hl) =~= hseg);
        assert(t[hl] == '.');
        let rest = t.skip(hl + 1);
        assert(rest =~= pseg + seq!['.'] + sig);
        let pl = pseg.len() as int;
        assert forall|m: int| 0 <= m < pl implies rest[m] != '.' by {
            assert(rest[m] == pseg[m]);
        }
        assert(rest[pl] == '.');
        lemma_first_dot(rest, pl);
        assert(first_dot(rest) == pl);
        assert(rest.take(pl) =~= pseg);
        assert(rest.skip(pl + 1) =~= sig);
        assert(t.take(hl + 1 + pl) =~= msg);
        assert(b64url_decoded(pseg) == Some(claims_json(c)));
        match c {
            ClaimsView::Access(a) => {
                crate::roundtrip::lemma_access_claims_roundtrip(a);
                assert(parse_payload(claims_kind(c), claims_json(c)) == Some(c));
            },
            ClaimsView::Refresh(r) => {
                crate::roundtrip::lemma_refresh_claims_roundtrip(r);
                assert(parse_payload(claims_kind(c), claims_json(c)) == Some(c));
            },
        }
        assert(spec_verify(t, claims_kind(c), pub_b64, now) == Ok::<ClaimsView, TokenError>(c));
    }
}

impl JwtTokenPayload {
    /// The audience written into every token.
    pub fn get_audience() -> (r: String)
        ensures
            r@ == audience(),
    {
        "instaclone".to_owned()
    }

    /// The expiry of an access token issued at `now`: sixty minutes later.
    pub fn get_exp(now: i64) -> (r: i64)
        requires
            now + 3600 <= i64::MAX,
        ensures
            r == now + 3600,
    {
        now + 3600
    }
}

} // verus!
