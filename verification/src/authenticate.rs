//! The request-time gate: extracts a bearer credential from an inbound
//! request's authorization header and validates it as an access token.
//!
//! This is a synchronous, side-effect-free check. The serving layer hands in
//! the raw header bytes, if any; a missing header, a header that is not
//! printable text, and a header without the bearer prefix are each their own
//! rejection, and everything after the prefix is judged by the token codec.

use vstd::prelude::*;
use crate::auth_service::token_error_response;
use crate::claims::JwtTokenPayload;
use crate::configuration::JwtSettings;
use crate::error::{HttpResponseError, is_error_response, is_internal_error};
use crate::jwt::{TokenClaims, TokenKind, ClaimsView, spec_verify, verify};
use crate::text::char_to_string;

verus! {

/// Whether the header bytes are printable text a header value may carry.
pub open spec fn header_is_text(bs: Seq<u8>) -> bool {
    forall|k: int| 0 <= k < bs.len() ==> 32 <= #[trigger] bs[k] <= 126
}

/// The header bytes read as characters.
pub open spec fn header_text(bs: Seq<u8>) -> Seq<char> {
    bs.map(|i: int, b: u8| b as char)
}

/// Authenticates a request from its authorization header bytes: requires the
/// header to be present, printable text, and `Bearer `-prefixed, then
/// validates the remainder as an access token against `config` at time
/// `now`. Yields the verified claims or the classified rejection.
#[verifier::rlimit(100)]
pub fn authenticate(header: Option<&Vec<u8>>, config: &JwtSettings, now: i64) -> (r: Result<
    JwtTokenPayload,
    HttpResponseError,
>)
    ensures
        ({
            match header {
                None => r matches Err(e) && is_error_response(
                    e,
                    400,
                    "Missing Authorization from the header"@,
                ),
                Some(h) => {
                    if !header_is_text(h@) {
                        r matches Err(e) && is_error_response(
                            e,
                            400,
                            "Invalid Authorization header value"@,
                        )
                    } else {
                        let text = header_text(h@);
                        if !(text.len() >= 7 && text.take(7) == "Bearer "@) {
                            r matches Err(e) && is_error_response(
                                e,
                                400,
                                "Missing bearer token in authorization header"@,
                            )
                        } else {
                            let res = spec_verify(
                                text.skip(7),
                                TokenKind::Access,
                                config.public_key@,
                                now as int,
                            );
                            match r {
                                Ok(c) => res == Ok::<ClaimsView, crate::jwt::TokenError>(
                                    ClaimsView::Access(c@),
                                ),
                                Err(e) => res matches Err(te) && ({
                                    &&& te is KeyMaterial ==> is_internal_error(e)
                                    &&& te is Malformed ==> is_error_response(
                                        e,
                                        400,
                                        "Invalid JWT token"@,
                                    )
                                    &&& te is PayloadMismatch ==> is_error_response(
                                        e,
                                        400,
                                        "Invalid payload"@,
                                    )
                                }),
                            }
                        }
                    }
                },
            }
        }),
{
    let h = match header {
        Some(h) => h,
        None => {
            return Err(
                HttpResponseError::default().set_code(400).set_error_message(
                    "Missing Authorization from the header",
                ),
            );
        },
    };
    let n = h.len();
    let mut i: usize = 0;
    while i < n
        invariant
            header == Some(h),
            i <= n,
            n == h@.len(),
            forall|m: int| 0 <= m < i ==> 32 <= #[trigger] h@[m] <= 126,
        decreases n - i,
    {
        let b = h[i];
        if b < 32 || b > 126 {
            proof {
                assert(!(32 <= h@[i as int] <= 126));
                assert(!header_is_text(h@));
            }
            return Err(
                HttpResponseError::default().set_code(400).set_error_message(
                    "Invalid Authorization header value",
                ),
            );
        }
        i += 1;
    }
    proof {
        reveal_strlit("Bearer ");
    }
    let bearer = "Bearer ";
    let bn = bearer.unicode_len();
    if n < bn {
        return Err(
            HttpResponseError::default().set_code(400).set_error_message(
                "Missing bearer token in authorization header",
            ),
        );
    }
    let mut k: usize = 0;
    while k < bn
        invariant
            header == Some(h),
            k <= bn,
            bn == 7,
            bearer@.len() == 7,
            bn <= n == h@.len(),
            bearer@ == "Bearer "@,
            header_is_text(h@),
            forall|m: int| 0 <= m < k ==> header_text(h@)[m] == "Bearer "@[m],
        decreases bn - k,
    {
        if (h[k] as char) != bearer.get_char(k) {
            proof {
                assert(header_text(h@)[k as int] == (h@[k as int] as char));
                assert(header_text(h@).take(7)[k as int] == header_text(h@)[k as int]);
            }
            return Err(
                HttpResponseError::default().set_code(400).set_error_message(
                    "Missing bearer token in authorization header",
                ),
            );
        }
        proof {
            assert(header_text(h@)[k as int] == (h@[k as int] as char));
        }
        k += 1;
    }
    proof {
        assert(header_text(h@).take(7) =~= "Bearer "@);
    }
    let mut token = String::new();
    let mut j: usize = bn;
    while j < n
        invariant
            bn <= j <= n,
            bn == 7,
            n == h@.len(),
            header_is_text(h@),
            token@ == header_text(h@).subrange(7, j as int),
        decreases n - j,
    {
        token.append(char_to_string(h[j] as char).as_str());
        j += 1;
        proof {
            assert(header_text(h@)[j - 1] == (h@[j - 1] as char));
            assert(token@ =~= header_text(h@).subrange(7, j as int));
        }
    }
    proof {
        assert(token@ =~= header_text(h@).skip(7));
    }
    match verify(token.as_str(), TokenKind::Access, config, now) {
        Ok(TokenClaims::Access(c)) => Ok(c),
        Ok(TokenClaims::Refresh(_)) => {
            proof {
                assert(false);
            }
            Err(HttpResponseError::internal_server_error())
        },
        Err(te) => Err(token_error_response(te)),
    }
}

} // verus!
