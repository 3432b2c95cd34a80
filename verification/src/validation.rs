//! Request payloads and their validation.
//!
//! Each inbound payload carries optional fields; validation yields one
//! field-scoped message per failing field, in declaration order, with the
//! exact static messages the clients see. Email acceptance is the one check
//! delegated to an outside call; every other rule is stated and verified
//! here.

use vstd::prelude::*;
use crate::error::{ResponseError, HttpResponseError, is_validation_error};

verus! {

// ---------------------------------------------------------------------------
// Payloads
// ---------------------------------------------------------------------------

pub struct SignUpPayload {
    pub email: Option<String>,
    pub full_name: Option<String>,
    pub username: Option<String>,
    pub bio: Option<String>,
    pub password: Option<String>,
    pub confirm_password: Option<String>,
}

pub struct SignInPayload {
    pub email_username: Option<String>,
    pub password: Option<String>,
}

pub struct GetNewTokenPayload {
    pub refresh_token: Option<String>,
}

/// The text of an optional field, empty when absent.
pub open spec fn opt_view(o: Option<String>) -> Seq<char> {
    match o {
        Some(s) => s@,
        None => Seq::<char>::empty(),
    }
}

// ---------------------------------------------------------------------------
// Field rules
// ---------------------------------------------------------------------------

/// Whether validator's email check accepts `s`.
pub uninterp spec fn email_valid(s: Seq<char>) -> bool;

/// Relies on validator's `ValidateEmail::validate_email` for `&str`: the
/// result is a function of the text alone.
#[verifier::external_body]
fn email_valid_exec(s: &str) -> (r: bool)
    ensures
        r == email_valid(s@),
{
    validator::ValidateEmail::validate_email(&s)
}

/// The characters a username may not contain.
pub open spec fn is_disallowed_symbol(c: char) -> bool {
    c == '-' || c == '!' || c == '$' || c == '%' || c == '^' || c == '&' || c == '@' || c == '*'
        || c == '(' || c == ')' || c == '+' || c == '|' || c == '~' || c == '=' || c == '`' || c
        == '{' || c == '}' || c == '[' || c == ']' || c == ':' || c == ';' || c == '<' || c == '>'
        || c == '?' || c == ',' || c == '/'
}

pub open spec fn has_symbol(s: Seq<char>) -> bool {
    exists|k: int| 0 <= k < s.len() && is_disallowed_symbol(s[k])
}

fn is_symbol_char(c: char) -> (r: bool)
    ensures
        r == is_disallowed_symbol(c),
{
    match c {
        '-' | '!' | '$' | '%' | '^' | '&' | '@' | '*' | '(' | ')' | '+' | '|' | '~' | '=' | '`'
            | '{' | '}' | '[' | ']' | ':' | ';' | '<' | '>' | '?' | ',' | '/' => true,
        _ => false,
    }
}

/// True when `username` holds none of the disallowed symbols.
pub fn no_symbols(username: &str) -> (r: bool)
    ensures
        r == !has_symbol(username@),
{
    let n = username.unicode_len();
    let mut i: usize = 0;
    while i < n
        invariant
            i <= n,
            n == username@.len(),
            forall|m: int| 0 <= m < i ==> !is_disallowed_symbol(username@[m]),
        decreases n - i,
    {
        if is_symbol_char(username.get_char(i)) {
            return false;
        }
        i += 1;
    }
    true
}

// ---------------------------------------------------------------------------
// Per-payload validation
// ---------------------------------------------------------------------------

pub open spec fn required_msg() -> Seq<char> {
    "This field is required"@
}

/// The field/message pairs signup validation reports, in field order, one
/// per failing field: the first failing rule of each field, rules in the
/// order length, then content.
pub open spec fn signup_field_errors(d: SignUpPayload) -> Seq<(Seq<char>, Seq<char>)> {
    let email_errs: Seq<(Seq<char>, Seq<char>)> = match d.email {
        None => seq![("email"@, required_msg())],
        Some(s) => if !email_valid(s@) {
            seq![("email"@, "Please provide proper email"@)]
        } else {
            Seq::empty()
        },
    };
    let full_name_errs: Seq<(Seq<char>, Seq<char>)> = match d.full_name {
        None => seq![("fullName"@, required_msg())],
        Some(s) => if s@.len() < 4 {
            seq![("fullName"@, "Full name must be at least 4 characters"@)]
        } else {
            Seq::empty()
        },
    };
    let username_errs: Seq<(Seq<char>, Seq<char>)> = match d.username {
        None => seq![("username"@, required_msg())],
        Some(s) => if s@.len() < 4 {
            seq![("username"@, "Username must be at least 4 characters"@)]
        } else if has_symbol(s@) {
            seq![("username"@, "Username should not contains non-allowed character"@)]
        } else {
            Seq::empty()
        },
    };
    let password_errs: Seq<(Seq<char>, Seq<char>)> = match d.password {
        None => seq![("password"@, required_msg())],
        Some(s) => if s@.len() < 3 {
            seq![("password"@, "Password must be at least 3 characters"@)]
        } else {
            Seq::empty()
        },
    };
    let confirm_errs: Seq<(Seq<char>, Seq<char>)> = match d.confirm_password {
        None => seq![("confirmPassword"@, required_msg())],
        Some(c) => if !(d.password matches Some(p) && p@ == c@) {
            seq![("confirmPassword"@, "Password confirmation must match password"@)]
        } else {
            Seq::empty()
        },
    };
    email_errs + full_name_errs + username_errs + password_errs + confirm_errs
}

/// The field/message pairs sign-in validation reports.
pub open spec fn signin_field_errors(d: SignInPayload) -> Seq<(Seq<char>, Seq<char>)> {
    let eu_errs: Seq<(Seq<char>, Seq<char>)> = match d.email_username {
        None => seq![("emailUsername"@, required_msg())],
        Some(_) => Seq::empty(),
    };
    let pw_errs: Seq<(Seq<char>, Seq<char>)> = match d.password {
        None => seq![("password"@, required_msg())],
        Some(_) => Seq::empty(),
    };
    eu_errs + pw_errs
}

/// The field/message pairs token-refresh validation reports.
pub open spec fn token_field_errors(d: GetNewTokenPayload) -> Seq<(Seq<char>, Seq<char>)> {
    match d.refresh_token {
        None => seq![
            (
                "refreshToken"@,
                "Please provide your refresh token to get a new access token"@,
            ),
        ],
        Some(_) => Seq::empty(),
    }
}

/// A signup whose username is long enough but carries a disallowed symbol is
/// rejected by validation, so it never reaches the repository; and when every
/// other field is valid, the rejection is exactly the one username message.
pub proof fn lemma_symbol_username_rejected(d: SignUpPayload)
    requires
        d.username matches Some(u) && u@.len() >= 4 && has_symbol(u@),
    ensures
        signup_field_errors(d).len() != 0,
        ({
            &&& d.email matches Some(e) && email_valid(e@)
            &&& d.full_name matches Some(f) && f@.len() >= 4
            &&& d.password matches Some(p) && p@.len() >= 3
            &&& d.confirm_password matches Some(c) && (d.password matches Some(p2) && p2@ == c@)
        }) ==> signup_field_errors(d) == seq![
            ("username"@, "Username should not contains non-allowed character"@),
        ],
{
    let errs = signup_field_errors(d);
    let pair = ("username"@, "Username should not contains non-allowed character"@);
    assert(errs.len() != 0);
    if {
        &&& d.email matches Some(e) && email_valid(e@)
        &&& d.full_name matches Some(f) && f@.len() >= 4
        &&& d.password matches Some(p) && p@.len() >= 3
        &&& d.confirm_password matches Some(c) && (d.password matches Some(p2) && p2@ == c@)
    } {
        assert(errs =~= seq![pair]);
    }
}

/// Holds when `errs` carries exactly the field/message pairs of `pairs`.
pub open spec fn matches_pairs(errs: Seq<ResponseError>, pairs: Seq<(Seq<char>, Seq<char>)>) -> bool {
    &&& errs.len() == pairs.len()
    &&& forall|i: int|
        0 <= i < pairs.len() ==> is_validation_error(#[trigger] errs[i], pairs[i].0, pairs[i].1)
}

/// A validation failure: status 400 and exactly the given pairs.
pub open spec fn is_validation_failure(
    r: HttpResponseError,
    pairs: Seq<(Seq<char>, Seq<char>)>,
) -> bool {
    &&& r.code == Some(400u16)
    &&& matches_pairs(r.errors@, pairs)
}

pub fn validate_signup(data: &SignUpPayload) -> (r: Result<(), HttpResponseError>)
    ensures
        signup_field_errors(*data).len() == 0 ==> r is Ok,
        signup_field_errors(*data).len() != 0 ==> (r matches Err(e) && is_validation_failure(
            e,
            signup_field_errors(*data),
        )),
{
    let ghost pairs = signup_field_errors(*data);
    let mut errs: Vec<ResponseError> = Vec::new();
    match &data.email {
        None => errs.push(ResponseError::for_validation("email", "This field is required")),
        Some(s) => {
            if !email_valid_exec(s.as_str()) {
                errs.push(ResponseError::for_validation("email", "Please provide proper email"));
            }
        },
    }
    let ghost p1 = errs@;
    match &data.full_name {
        None => errs.push(ResponseError::for_validation("fullName", "This field is required")),
        Some(s) => {
            if s.unicode_len() < 4 {
                errs.push(
                    ResponseError::for_validation(
                        "fullName",
                        "Full name must be at least 4 characters",
                    ),
                );
            }
        },
    }
    let ghost p2 = errs@;
    match &data.username {
        None => errs.push(ResponseError::for_validation("username", "This field is required")),
        Some(s) => {
            if s.unicode_len() < 4 {
                errs.push(
                    ResponseError::for_validation(
                        "username",
                        "Username must be at least 4 characters",
                    ),
                );
            } else if !no_symbols(s.as_str()) {
                errs.push(
                    ResponseError::for_validation(
                        "username",
                        "Username should not contains non-allowed character",
                    ),
                );
            }
        },
    }
    let ghost p3 = errs@;
    match &data.password {
        None => errs.push(ResponseError::for_validation("password", "This field is required")),
        Some(s) => {
            if s.unicode_len() < 3 {
                errs.push(
                    ResponseError::for_validation(
                        "password",
                        "Password must be at least 3 characters",
                    ),
                );
            }
        },
    }
    let ghost p4 = errs@;
    match &data.confirm_password {
        None => errs.push(
            ResponseError::for_validation("confirmPassword", "This field is required"),
        ),
        Some(c) => {
            let same = match &data.password {
                Some(p) => crate::text::string_eq(p.as_str(), c.as_str()),
                None => false,
            };
            if !same {
                errs.push(
                    ResponseError::for_validation(
                        "confirmPassword",
                        "Password confirmation must match password",
                    ),
                );
            }
        },
    }
    proof {
        assert(matches_pairs(errs@, pairs));
    }
    if errs.len() == 0 {
        Ok(())
    } else {
        Err(HttpResponseError { code: Some(400), errors: errs })
    }
}

pub fn validate_signin(data: &SignInPayload) -> (r: Result<(), HttpResponseError>)
    ensures
        signin_field_errors(*data).len() == 0 ==> r is Ok,
        signin_field_errors(*data).len() != 0 ==> (r matches Err(e) && is_validation_failure(
            e,
            signin_field_errors(*data),
        )),
{
    let ghost pairs = signin_field_errors(*data);
    let mut errs: Vec<ResponseError> = Vec::new();
    if data.email_username.is_none() {
        errs.push(ResponseError::for_validation("emailUsername", "This field is required"));
    }
    if data.password.is_none() {
        errs.push(ResponseError::for_validation("password", "This field is required"));
    }
    proof {
        assert(matches_pairs(errs@, pairs));
    }
    if errs.len() == 0 {
        Ok(())
    } else {
        Err(HttpResponseError { code: Some(400), errors: errs })
    }
}

pub fn validate_get_new_token(data: &GetNewTokenPayload) -> (r: Result<(), HttpResponseError>)
    ensures
        token_field_errors(*data).len() == 0 ==> r is Ok,
        token_field_errors(*data).len() != 0 ==> (r matches Err(e) && is_validation_failure(
            e,
            token_field_errors(*data),
        )),
{
    let ghost pairs = token_field_errors(*data);
    let mut errs: Vec<ResponseError> = Vec::new();
    if data.refresh_token.is_none() {
        errs.push(
            ResponseError::for_validation(
                "refreshToken",
                "Please provide your refresh token to get a new access token",
            ),
        );
    }
    proof {
        assert(matches_pairs(errs@, pairs));
    }
    if errs.len() == 0 {
        Ok(())
    } else {
        Err(HttpResponseError { code: Some(400), errors: errs })
    }
}

// ---------------------------------------------------------------------------
// Flattening collected field errors
// ---------------------------------------------------------------------------

/// One field's collected validation messages, as handed over by the caller.
pub struct FieldMessages {
    pub field: String,
    pub messages: Vec<Option<String>>,
}

/// The single message reported for a field: the first collected one, with a
/// fixed fallback for a missing text.
pub open spec fn first_message(ms: Seq<Option<String>>) -> Seq<char> {
    if ms.len() == 0 {
        "Bad value"@
    } else {
        match ms[0] {
            Some(m) => m@,
            None => "Bad value"@,
        }
    }
}

/// Flattens per-field message lists into one validation entry per field,
/// keeping field order.
pub fn parse_validation_errors(fields: &Vec<FieldMessages>) -> (r: Vec<ResponseError>)
    ensures
        r@.len() == fields@.len(),
        forall|i: int|
            0 <= i < fields@.len() ==> is_validation_error(
                #[trigger] r@[i],
                fields@[i].field@,
                first_message(fields@[i].messages@),
            ),
{
    let mut out: Vec<ResponseError> = Vec::new();
    let mut i: usize = 0;
    while i < fields.len()
        invariant
            i <= fields@.len(),
            out@.len() == i,
            forall|m: int|
                0 <= m < i ==> is_validation_error(
                    #[trigger] out@[m],
                    fields@[m].field@,
                    first_message(fields@[m].messages@),
                ),
        decreases fields@.len() - i,
    {
        let f = &fields[i];
        let e = if f.messages.len() == 0 {
            ResponseError::for_validation(f.field.as_str(), "Bad value")
        } else {
            match &f.messages[0] {
                Some(m) => ResponseError::for_validation(f.field.as_str(), m.as_str()),
                None => ResponseError::for_validation(f.field.as_str(), "Bad value"),
            }
        };
        out.push(e);
        i += 1;
    }
    out
}

} // verus!
