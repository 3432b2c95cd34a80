//! The credential service: signup, sign-in, token refresh and whoami.
//!
//! All four operations are stateless functions. The user repository is an
//! external collaborator: the serving layer performs the lookups and inserts
//! and hands the records in and out as plain values, so every decision made
//! here is verified. Sign-in deliberately answers an unknown identifier and
//! a wrong password with one and the same response.

use vstd::prelude::*;
use crate::claims::{JwtTokenPayload, JwtRefreshTokenPayload, AccessClaimsView, RefreshClaimsView};
use crate::configuration::JwtSettings;
use crate::error::{HttpResponseError, is_error_response, is_internal_error};
use crate::ident::{uuid_text, uuid_string, new_uuid_bytes};
use crate::jwt::{
    TokenClaims, TokenError, TokenKind, ClaimsView, audience, spec_sign, spec_verify, sign, verify,
};
use crate::password::{phc_parses, password_matches, hash_password, verify_password};
use crate::validation::{SignUpPayload, opt_view};

verus! {

// ---------------------------------------------------------------------------
// Identities
// ---------------------------------------------------------------------------

/// A stored identity, as the repository holds it: a 16-byte unique id, the
/// unique email and username, display data, and the opaque password hash.
#[derive(Debug)]
pub struct UserRecord {
    pub id: Vec<u8>,
    pub email: String,
    pub name: String,
    pub username: String,
    pub bio: Option<String>,
    pub picture_url: String,
    pub password: String,
}

/// Spec-level image of a stored identity.
pub struct UserRecordView {
    pub id: Seq<u8>,
    pub email: Seq<char>,
    pub name: Seq<char>,
    pub username: Seq<char>,
    pub bio: Option<Seq<char>>,
    pub picture_url: Seq<char>,
    pub password: Seq<char>,
}

impl View for UserRecord {
    type V = UserRecordView;

    open spec fn view(&self) -> UserRecordView {
        UserRecordView {
            id: self.id@,
            email: self.email@,
            name: self.name@,
            username: self.username@,
            bio: match self.bio {
                Some(b) => Some(b@),
                None => None,
            },
            picture_url: self.picture_url@,
            password: self.password@,
        }
    }
}

/// The public-safe projection of an identity returned at sign-in: no
/// password hash, the id in its hyphenated text form.
#[derive(Debug)]
pub struct UserProjection {
    pub id: String,
    pub email: String,
    pub full_name: String,
    pub username: String,
    pub picture_url: String,
}

/// Spec-level image of the projection.
pub struct UserProjectionView {
    pub id: Seq<char>,
    pub email: Seq<char>,
    pub full_name: Seq<char>,
    pub username: Seq<char>,
    pub picture_url: Seq<char>,
}

impl View for UserProjection {
    type V = UserProjectionView;

    open spec fn view(&self) -> UserProjectionView {
        UserProjectionView {
            id: self.id@,
            email: self.email@,
            full_name: self.full_name@,
            username: self.username@,
            picture_url: self.picture_url@,
        }
    }
}

/// The projection a stored identity maps to.
pub open spec fn projection_of(u: UserRecordView) -> UserProjectionView {
    UserProjectionView {
        id: uuid_text(u.id),
        email: u.email,
        full_name: u.name,
        username: u.username,
        picture_url: u.picture_url,
    }
}

/// The picture URL given to a fresh identity.
pub open spec fn default_picture() -> Seq<char> {
    "https://bit.ly/3REd7XG"@
}

/// The one message for a failed sign-in, whether the identifier was unknown
/// or the password wrong.
pub open spec fn wrong_credentials_msg() -> Seq<char> {
    "Your email/username and password are wrong!"@
}

// ---------------------------------------------------------------------------
// Signup
// ---------------------------------------------------------------------------

/// Decides a signup against the result of the repository's email lookup and
/// builds the record to insert: a duplicate email is refused with one fixed
/// message; otherwise the record carries the given fields, a fresh 16-byte
/// id, the default picture, and a hash that the given password matches.
pub fn signup(existing: Option<&UserRecord>, data: &SignUpPayload) -> (r: Result<
    UserRecord,
    HttpResponseError,
>)
    requires
        data.email is Some,
        data.full_name is Some,
        data.username is Some,
        data.password is Some,
    ensures
        existing is Some ==> (r matches Err(e) && is_error_response(
            e,
            400,
            "This email is already taken"@,
        )),
        existing is None ==> (r matches Err(e) ==> is_internal_error(e)),
        r matches Ok(u) ==> ({
            &&& existing is None
            &&& u.id@.len() == 16
            &&& u.email@ == opt_view(data.email)
            &&& u.name@ == opt_view(data.full_name)
            &&& u.username@ == opt_view(data.username)
            &&& u@.bio == (match data.bio {
                Some(b) => Some::<Seq<char>>(b@),
                None => None::<Seq<char>>,
            })
            &&& u.picture_url@ == default_picture()
            &&& phc_parses(u.password@)
            &&& password_matches(opt_view(data.password), u.password@)
        }),
{
    if existing.is_some() {
        return Err(
            HttpResponseError::default().set_code(400).set_error_message(
                "This email is already taken",
            ),
        );
    }
    let password = match &data.password {
        Some(p) => p,
        None => {
            return Err(HttpResponseError::internal_server_error());
        },
    };
    let hashed = match hash_password(password.as_str()) {
        Ok(h) => h,
        Err(e) => {
            return Err(e);
        },
    };
    let email = match &data.email {
        Some(s) => s.clone(),
        None => {
            return Err(HttpResponseError::internal_server_error());
        },
    };
    let name = match &data.full_name {
        Some(s) => s.clone(),
        None => {
            return Err(HttpResponseError::internal_server_error());
        },
    };
    let username = match &data.username {
        Some(s) => s.clone(),
        None => {
            return Err(HttpResponseError::internal_server_error());
        },
    };
    let bio = match &data.bio {
        Some(s) => Some(s.clone()),
        None => None,
    };
    Ok(
        UserRecord {
            id: new_uuid_bytes(),
            email,
            name,
            username,
            bio,
            picture_url: "https://bit.ly/3REd7XG".to_owned(),
            password: hashed,
        },
    )
}

// ---------------------------------------------------------------------------
// Sign-in
// ---------------------------------------------------------------------------

/// Which repository key a sign-in identifier selects.
#[derive(Clone, Copy, Debug, PartialEq, Eq, Structural)]
pub enum LookupBy {
    Email,
    Username,
}

pub open spec fn contains_at(s: Seq<char>) -> bool {
    exists|k: int| 0 <= k < s.len() && s[k] == '@'
}

/// An identifier holding `@` is an email, anything else a username.
pub fn lookup_key(email_username: &str) -> (r: LookupBy)
    ensures
        r == (if contains_at(email_username@) {
            LookupBy::Email
        } else {
            LookupBy::Username
        }),
{
    let n = email_username.unicode_len();
    let mut i: usize = 0;
    while i < n
        invariant
            i <= n,
            n == email_username@.len(),
            forall|m: int| 0 <= m < i ==> email_username@[m] != '@',
        decreases n - i,
    {
        if email_username.get_char(i) == '@' {
            return LookupBy::Email;
        }
        i += 1;
    }
    LookupBy::Username
}

/// Decides a sign-in against the result of the repository lookup: no such
/// identity and a wrong password yield the identical response; a matching
/// password yields the identity's projection.
pub fn sign_in(user: Option<&UserRecord>, password: &str) -> (r: Result<
    UserProjection,
    HttpResponseError,
>)
    requires
        user matches Some(u) ==> u.id@.len() == 16,
    ensures
        user is None ==> (r matches Err(e) && is_error_response(e, 400, wrong_credentials_msg())),
        user matches Some(u) ==> ({
            if !phc_parses(u.password@) {
                r matches Err(e) && is_internal_error(e)
            } else if password_matches(password@, u.password@) {
                r matches Ok(p) && p@ == projection_of(u@)
            } else {
                r matches Err(e) && is_error_response(e, 400, wrong_credentials_msg())
            }
        }),
{
    let u = match user {
        Some(u) => u,
        None => {
            return Err(
                HttpResponseError::default().set_code(400).set_error_message(
                    "Your email/username and password are wrong!",
                ),
            );
        },
    };
    let ok = match verify_password(password, u.password.as_str()) {
        Ok(b) => b,
        Err(e) => {
            return Err(e);
        },
    };
    if ok {
        Ok(
            UserProjection {
                id: uuid_string(&u.id),
                email: u.email.clone(),
                full_name: u.name.clone(),
                username: u.username.clone(),
                picture_url: u.picture_url.clone(),
            },
        )
    } else {
        Err(
            HttpResponseError::default().set_code(400).set_error_message(
                "Your email/username and password are wrong!",
            ),
        )
    }
}

// ---------------------------------------------------------------------------
// Token issuance
// ---------------------------------------------------------------------------

/// The access claims minted for a projection at instant `now`.
pub open spec fn access_claims_of(u: UserProjectionView, now: int) -> AccessClaimsView {
    AccessClaimsView {
        aud: audience(),
        exp: now + 3600,
        id: u.id,
        email: u.email,
        full_name: u.full_name,
        username: u.username,
        picture_url: u.picture_url,
    }
}

/// The refresh claims minted at sign-in: three years of validity, the
/// refresh discriminator tag, and the caller's observed network address.
pub open spec fn refresh_claims_of(username: Seq<char>, now: int, user_ip: Seq<char>) -> RefreshClaimsView {
    RefreshClaimsView {
        aud: audience(),
        exp: now + 94608000,
        username: username,
        used_for: "refreshToken"@,
        user_ip: user_ip,
    }
}

/// Maps a token codec failure to the client-facing response: unusable key
/// material is a server fault, everything else a plain rejection.
pub fn token_error_response(e: TokenError) -> (r: HttpResponseError)
    ensures
        e is KeyMaterial ==> is_internal_error(r),
        e is Malformed ==> is_error_response(r, 400, "Invalid JWT token"@),
        e is PayloadMismatch ==> is_error_response(r, 400, "Invalid payload"@),
{
    match e {
        TokenError::KeyMaterial => HttpResponseError::internal_server_error(),
        TokenError::Malformed => HttpResponseError::default().set_code(400).set_error_message(
            "Invalid JWT token",
        ),
        TokenError::PayloadMismatch => HttpResponseError::default().set_code(400).set_error_message(
            "Invalid payload",
        ),
    }
}

/// Mints the two tokens of a successful sign-in: one access token for the
/// projection and one refresh token bound to the caller's observed address.
pub fn issue_tokens(user: &UserProjection, config: &JwtSettings, now: i64, user_ip: &str) -> (r:
    Result<(String, String), HttpResponseError>)
    requires
        now + 94608000 <= i64::MAX,
    ensures
        r matches Ok(ts) ==> ({
            &&& spec_sign(ClaimsView::Access(access_claims_of(user@, now as int)), config.private_key@)
                == Ok::<Seq<char>, TokenError>(ts.0@)
            &&& spec_sign(
                ClaimsView::Refresh(refresh_claims_of(user@.username, now as int, user_ip@)),
                config.private_key@,
            ) == Ok::<Seq<char>, TokenError>(ts.1@)
        }),
        r matches Err(e) ==> is_internal_error(e),
        (r is Err) <==> (spec_sign(
            ClaimsView::Access(access_claims_of(user@, now as int)),
            config.private_key@,
        ) is Err || spec_sign(
            ClaimsView::Refresh(refresh_claims_of(user@.username, now as int, user_ip@)),
            config.private_key@,
        ) is Err),
{
    proof {
        reveal_strlit("refreshToken");
        reveal_strlit("instaclone");
    }
    let access = JwtTokenPayload {
        aud: JwtTokenPayload::get_audience(),
        exp: JwtTokenPayload::get_exp(now),
        id: user.id.clone(),
        email: user.email.clone(),
        full_name: user.full_name.clone(),
        username: user.username.clone(),
        picture_url: user.picture_url.clone(),
    };
    let token = match sign(&TokenClaims::Access(access), config) {
        Ok(t) => t,
        Err(e) => {
            return Err(token_error_response(e));
        },
    };
    let refresh = JwtRefreshTokenPayload {
        aud: JwtTokenPayload::get_audience(),
        exp: now + 94608000,
        username: user.username.clone(),
        used_for: "refreshToken".to_owned(),
        user_ip: user_ip.to_owned(),
    };
    let refresh_token = match sign(&TokenClaims::Refresh(refresh), config) {
        Ok(t) => t,
        Err(e) => {
            return Err(token_error_response(e));
        },
    };
    Ok((token, refresh_token))
}

// ---------------------------------------------------------------------------
// Refresh
// ---------------------------------------------------------------------------

/// Checks a presented refresh token: it must verify as refresh claims, be
/// bound to the presenting address, and carry the refresh discriminator
/// tag. A token bound to another address is rejected, so a stolen token
/// replayed elsewhere fails. On success yields the subject username for the
/// repository lookup.
pub fn check_refresh_token(refresh_token: &str, config: &JwtSettings, user_ip: &str, now: i64) -> (r:
    Result<String, HttpResponseError>)
    ensures
        ({
            let res = spec_verify(refresh_token@, TokenKind::Refresh, config.public_key@, now as int);
            match r {
                Ok(username) => res matches Ok(c) && (c matches ClaimsView::Refresh(rc)
                    && rc.user_ip == user_ip@ && rc.used_for == "refreshToken"@ && username@
                    == rc.username),
                Err(e) => match res {
                    Err(te) => {
                        &&& te is KeyMaterial ==> is_internal_error(e)
                        &&& te is Malformed ==> is_error_response(e, 400, "Invalid JWT token"@)
                        &&& te is PayloadMismatch ==> is_error_response(e, 400, "Invalid payload"@)
                    },
                    Ok(c) => c matches ClaimsView::Refresh(rc) && ({
                        &&& rc.user_ip != user_ip@ ==> is_error_response(
                            e,
                            400,
                            "Invalid refresh token"@,
                        )
                        &&& rc.user_ip == user_ip@ && rc.used_for != "refreshToken"@
                            ==> is_error_response(e, 400, "Invalid refresh token. Please re-login"@)
                        &&& (rc.user_ip != user_ip@ || rc.used_for != "refreshToken"@)
                    }),
                },
            }
        }),
{
    proof {
        reveal_strlit("refreshToken");
    }
    let claims = match verify(refresh_token, TokenKind::Refresh, config, now) {
        Ok(c) => c,
        Err(te) => {
            return Err(token_error_response(te));
        },
    };
    match claims {
        TokenClaims::Refresh(rc) => {
            if !crate::text::string_eq(rc.user_ip.as_str(), user_ip) {
                return Err(
                    HttpResponseError::default().set_code(400).set_error_message(
                        "Invalid refresh token",
                    ),
                );
            }
            if !crate::text::string_eq(rc.used_for.as_str(), "refreshToken") {
                return Err(
                    HttpResponseError::default().set_code(400).set_error_message(
                        "Invalid refresh token. Please re-login",
                    ),
                );
            }
            Ok(rc.username)
        },
        TokenClaims::Access(_) => {
            proof {
                assert(false);
            }
            Err(HttpResponseError::internal_server_error())
        },
    }
}

/// Mints the fresh access token of a completed refresh, against the result
/// of the repository lookup for the token's subject username: a vanished
/// identity is its own failure, distinct from an invalid token.
pub fn get_new_token(user: Option<&UserRecord>, config: &JwtSettings, now: i64) -> (r: Result<
    String,
    HttpResponseError,
>)
    requires
        now + 3600 <= i64::MAX,
        user matches Some(u) ==> u.id@.len() == 16,
    ensures
        user is None ==> (r matches Err(e) && is_error_response(
            e,
            400,
            "Somehow your account is missing from our database"@,
        )),
        user matches Some(u) ==> match r {
            Ok(t) => spec_sign(
                ClaimsView::Access(access_claims_of(projection_of(u@), now as int)),
                config.private_key@,
            ) == Ok::<Seq<char>, TokenError>(t@),
            Err(e) => is_internal_error(e),
        },
        user matches Some(u) ==> ((r is Err) <==> spec_sign(
            ClaimsView::Access(access_claims_of(projection_of(u@), now as int)),
            config.private_key@,
        ) is Err),
{
    proof {
        reveal_strlit("instaclone");
    }
    let u = match user {
        Some(u) => u,
        None => {
            return Err(
                HttpResponseError::default().set_code(400).set_error_message(
                    "Somehow your account is missing from our database",
                ),
            );
        },
    };
    let payload = JwtTokenPayload {
        aud: JwtTokenPayload::get_audience(),
        exp: JwtTokenPayload::get_exp(now),
        id: uuid_string(&u.id),
        email: u.email.clone(),
        full_name: u.name.clone(),
        username: u.username.clone(),
        picture_url: u.picture_url.clone(),
    };
    match sign(&TokenClaims::Access(payload), config) {
        Ok(t) => Ok(t),
        Err(e) => Err(token_error_response(e)),
    }
}

/// Returns already-verified access claims as the caller's identity: the
/// token alone is the source of truth, with no repository access.
pub fn whoami(claims: JwtTokenPayload) -> (r: JwtTokenPayload)
    ensures
        r == claims,
{
    claims
}

} // verus!
