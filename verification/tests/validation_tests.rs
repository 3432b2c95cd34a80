// Tests of request-payload validation: required fields, length rules, the
// username symbol rule, password confirmation, and the flattening of
// collected field messages.

use insta_auth::error::HttpResponseError;
use insta_auth::ident::{check_valid_uuid, uuid_string};
use insta_auth::validation::{
    no_symbols, parse_validation_errors, validate_get_new_token, validate_signin, validate_signup,
    FieldMessages, GetNewTokenPayload, SignInPayload, SignUpPayload,
};

fn valid_signup() -> SignUpPayload {
    SignUpPayload {
        email: Some("a@b.com".to_string()),
        full_name: Some("Jane Doe".to_string()),
        username: Some("janedoe".to_string()),
        bio: None,
        password: Some("secret1".to_string()),
        confirm_password: Some("secret1".to_string()),
    }
}

fn field_and_message(e: &HttpResponseError, i: usize) -> (String, String) {
    (e.errors[i].field.clone().unwrap(), e.errors[i].message.clone().unwrap())
}

#[test]
fn valid_signup_passes() {
    assert!(validate_signup(&valid_signup()).is_ok());
}

#[test]
fn signup_should_required_signup_data() {
    let empty = SignUpPayload {
        email: None,
        full_name: None,
        username: None,
        bio: None,
        password: None,
        confirm_password: None,
    };
    let e = validate_signup(&empty).unwrap_err();
    assert_eq!(e.code, Some(400));
    assert_eq!(e.errors.len(), 5);
    let expected = ["email", "fullName", "username", "password", "confirmPassword"];
    for (i, field) in expected.iter().enumerate() {
        let (f, m) = field_and_message(&e, i);
        assert_eq!(&f, field);
        assert_eq!(m, "This field is required");
    }
}

#[test]
fn signup_password_and_c_password_should_match() {
    let mut d = valid_signup();
    d.confirm_password = Some("different1".to_string());
    let e = validate_signup(&d).unwrap_err();
    assert_eq!(e.code, Some(400));
    assert_eq!(e.errors.len(), 1);
    let (f, m) = field_and_message(&e, 0);
    assert_eq!(f, "confirmPassword");
    assert_eq!(m, "Password confirmation must match password");
}

#[test]
fn signup_should_not_allow_username_with_non_allowed_character() {
    let mut d = valid_signup();
    d.username = Some("john@doe".to_string());
    let e = validate_signup(&d).unwrap_err();
    assert_eq!(e.code, Some(400));
    assert_eq!(e.errors.len(), 1);
    let (f, m) = field_and_message(&e, 0);
    assert_eq!(f, "username");
    assert_eq!(m, "Username should not contains non-allowed character");
}

#[test]
fn short_fields_are_reported_per_field() {
    let mut d = valid_signup();
    d.full_name = Some("Jo".to_string());
    d.username = Some("jo".to_string());
    d.password = Some("xy".to_string());
    d.confirm_password = Some("xy".to_string());
    let e = validate_signup(&d).unwrap_err();
    assert_eq!(e.errors.len(), 3);
    assert_eq!(field_and_message(&e, 0), (
        "fullName".to_string(),
        "Full name must be at least 4 characters".to_string(),
    ));
    assert_eq!(field_and_message(&e, 1), (
        "username".to_string(),
        "Username must be at least 4 characters".to_string(),
    ));
    assert_eq!(field_and_message(&e, 2), (
        "password".to_string(),
        "Password must be at least 3 characters".to_string(),
    ));
}

#[test]
fn bad_email_is_reported() {
    let mut d = valid_signup();
    d.email = Some("not-an-email".to_string());
    let e = validate_signup(&d).unwrap_err();
    assert_eq!(e.errors.len(), 1);
    let (f, m) = field_and_message(&e, 0);
    assert_eq!(f, "email");
    assert_eq!(m, "Please provide proper email");
}

#[test]
fn signin_should_required_signin_data() {
    let d = SignInPayload { email_username: None, password: None };
    let e = validate_signin(&d).unwrap_err();
    assert_eq!(e.code, Some(400));
    assert_eq!(e.errors.len(), 2);
    assert_eq!(field_and_message(&e, 0).0, "emailUsername");
    assert_eq!(field_and_message(&e, 1).0, "password");
    let ok = SignInPayload {
        email_username: Some("janedoe".to_string()),
        password: Some("secret1".to_string()),
    };
    assert!(validate_signin(&ok).is_ok());
}

#[test]
fn getnewtoken_should_required_refresh_token() {
    let d = GetNewTokenPayload { refresh_token: None };
    let e = validate_get_new_token(&d).unwrap_err();
    assert_eq!(e.code, Some(400));
    let (f, m) = field_and_message(&e, 0);
    assert_eq!(f, "refreshToken");
    assert_eq!(m, "Please provide your refresh token to get a new access token");
    let ok = GetNewTokenPayload { refresh_token: Some("tok".to_string()) };
    assert!(validate_get_new_token(&ok).is_ok());
}

#[test]
fn no_symbols_matches_the_symbol_set() {
    assert!(no_symbols("janedoe"));
    assert!(no_symbols("jane_doe2"));
    assert!(!no_symbols("xx@&_hello"));
    assert!(!no_symbols("john@doe"));
    assert!(!no_symbols("semi;colon"));
    assert!(!no_symbols("sl/ash"));
    assert!(no_symbols(""));
}

#[test]
fn parse_validation_errors_takes_first_message() {
    let fields = vec![
        FieldMessages {
            field: "email".to_string(),
            messages: vec![Some("first".to_string()), Some("second".to_string())],
        },
        FieldMessages { field: "username".to_string(), messages: vec![None] },
        FieldMessages { field: "bio".to_string(), messages: vec![] },
    ];
    let out = parse_validation_errors(&fields);
    assert_eq!(out.len(), 3);
    assert_eq!(out[0].field.clone().unwrap(), "email");
    assert_eq!(out[0].message.clone().unwrap(), "first");
    assert_eq!(out[1].message.clone().unwrap(), "Bad value");
    assert_eq!(out[2].message.clone().unwrap(), "Bad value");
}

#[test]
fn uuid_text_is_checked_and_rendered() {
    assert!(check_valid_uuid("f81d4fae-7dec-11d0-a765-00a0c91e6bf6"));
    assert!(!check_valid_uuid("not-a-uuid"));
    assert!(!check_valid_uuid(""));
    let bytes: Vec<u8> = vec![
        0xf8, 0x1d, 0x4f, 0xae, 0x7d, 0xec, 0x11, 0xd0, 0xa7, 0x65, 0x00, 0xa0, 0xc9, 0x1e, 0x6b,
        0xf6,
    ];
    assert_eq!(uuid_string(&bytes), "f81d4fae-7dec-11d0-a765-00a0c91e6bf6");
}
