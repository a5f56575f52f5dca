use banter::error::CommandError;
use banter::models::{login_tokens, OAuthTokens};
use banter::user::{current_user, username_from_token};

fn tokens(id: Option<&str>) -> OAuthTokens {
    OAuthTokens::builder("SECRET-REDACTED".to_string()).id_token(id.map(|s| s.to_string())).build()
}

#[test]
fn token_payload_names_user() {
    let tok = "eyJhbGciOiJSUzI1NiJ9.eyJwcmVmZXJyZWRfdXNlcm5hbWUiOiJhbGljZSJ9.sig";
    assert_eq!(username_from_token(tok), Ok("alice".to_string()));
}

#[test]
fn token_payload_url_alphabet_and_padding() {
    // `_` stands for `/`, and three characters past a multiple of four need one `=`
    let tok = "h.eyJwcmVmZXJyZWRfdXNlcm5hbWUiOiJqfj4_In0.s";
    assert_eq!(username_from_token(tok), Ok("j~>?".to_string()));
    // two past a multiple of four need `==`
    let tok2 = "h.eyJwcmVmZXJyZWRfdXNlcm5hbWUiOiJib2IiLCJ4IjoxfQ.s";
    assert_eq!(username_from_token(tok2), Ok("bob".to_string()));
}

#[test]
fn token_without_payload_segment_is_malformed() {
    assert_eq!(username_from_token("nodots"), Err(CommandError::MalformedIdentity));
}

#[test]
fn token_with_bad_base64_is_malformed() {
    assert_eq!(username_from_token("h.!!!!.s"), Err(CommandError::MalformedIdentity));
}

#[test]
fn token_without_username_field_is_malformed() {
    assert_eq!(username_from_token("h.eyJzdWIiOiIxIn0.s"), Err(CommandError::MalformedIdentity));
}

#[test]
fn current_user_errors() {
    assert_eq!(current_user(None), Err(CommandError::NoSession));
    assert_eq!(current_user(Some(&tokens(None))), Err(CommandError::MissingIdentity));
    assert_eq!(current_user(Some(&tokens(Some("bad")))), Err(CommandError::MalformedIdentity));
    let ok = tokens(Some("h.eyJwcmVmZXJyZWRfdXNlcm5hbWUiOiJhbGljZSJ9.s"));
    assert_eq!(current_user(Some(&ok)), Ok("alice".to_string()));
}

#[test]
fn builder_sets_fields() {
    let t = OAuthTokens::builder("tok".to_string())
        .id_token(Some("id".to_string()))
        .scope(Some(vec!["chat:read".to_string()]))
        .build();
    assert_eq!(t.access_token, "tok");
    assert_eq!(t.id_token, Some("id".to_string()));
    assert_eq!(t.scope, Some(vec!["chat:read".to_string()]));
    let bare = OAuthTokens::builder("t".to_string()).build();
    assert_eq!(bare.id_token, None);
    assert_eq!(bare.scope, None);
}

#[test]
fn login_requires_access_token() {
    assert_eq!(login_tokens("  ".to_string(), None).err(), Some(CommandError::EmptyAccessToken));
    assert_eq!(login_tokens(String::new(), None).err(), Some(CommandError::EmptyAccessToken));
    let t = login_tokens("abc".to_string(), Some("id".to_string())).unwrap();
    assert_eq!(t.access_token, "abc");
    assert_eq!(t.id_token, Some("id".to_string()));
    assert_eq!(t.scope, None);
}
