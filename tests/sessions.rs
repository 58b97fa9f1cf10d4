use axum_db::app_error::{AppError, StatusCode};
use axum_db::jwt::TokenConfig;
use axum_db::user::{
    bearer_token, check_authentication, create_user, get_all_users, login, logout, register_hashed,
    validate_user_request, UserRequest, UserTable,
};

const NOW: u64 = 1_700_000_000;

fn config() -> TokenConfig {
    TokenConfig::new("session-secret".to_owned())
}

fn req(username: &str, password: &str) -> UserRequest {
    UserRequest { username: username.to_owned(), password: password.to_owned() }
}

fn bearer(token: &str) -> String {
    format!("Bearer {}", token)
}

#[test]
fn bearer_header_forms() {
    assert_eq!(bearer_token(Some("Bearer abc")), Ok("abc".to_owned()));
    assert_eq!(bearer_token(Some("Bearer ")), Ok(String::new()));
    let err = bearer_token(None).unwrap_err();
    assert_eq!(err, AppError::new(StatusCode::Unauthorized, "No token found!".to_owned()));
    assert_eq!(bearer_token(Some("Basic abc")).unwrap_err().code, StatusCode::Unauthorized);
    assert_eq!(bearer_token(Some("Bear")).unwrap_err().code, StatusCode::Unauthorized);
}

#[test]
fn signup_request_validation() {
    assert!(validate_user_request(&req("a@example.com", "Longenough1!")).is_ok());
    assert_eq!(validate_user_request(&req("not-an-email", "Longenough1!")).unwrap_err().code, StatusCode::BadRequest);
    let err = validate_user_request(&req("a@example.com", "short1!")).unwrap_err();
    assert_eq!(err.code, StatusCode::BadRequest);
    assert_eq!(err.message, "Password needs to be at least 8 characters long.");
    let err = validate_user_request(&req("not-an-email", "short1!")).unwrap_err();
    assert_eq!(err.message, "Password needs to be at least 8 characters long.");
}

#[test]
fn signup_rejects_bad_input_without_storing() {
    let mut table = UserTable::new();
    let err = create_user(&mut table, &config(), req("a@example.com", "longenough1"), NOW).unwrap_err();
    assert_eq!(err.code, StatusCode::BadRequest);
    assert!(table.users.is_empty());
}

#[test]
fn signup_stores_account_with_live_token() {
    let cfg = config();
    let mut table = UserTable::new();
    let r = create_user(&mut table, &cfg, req("a@example.com", "Longenough1!"), NOW).unwrap();
    assert_eq!(r.id, 1);
    assert_eq!(r.username, "a@example.com");
    let token = r.token.unwrap();
    assert_ne!(table.users[0].password, "Longenough1!");
    assert_eq!(check_authentication(&table, &cfg, Some(&bearer(&token)), NOW), Ok(1));
    let err = create_user(&mut table, &cfg, req("a@example.com", "Longenough1!"), NOW).unwrap_err();
    assert_eq!(err.code, StatusCode::InternalServerError);
    let all = get_all_users(&table);
    assert_eq!(all.len(), 1);
    assert_eq!(all[0].id, 1);
}

#[test]
fn login_errors() {
    let cfg = config();
    let mut table = UserTable::new();
    create_user(&mut table, &cfg, req("a@example.com", "Longenough1!"), NOW).unwrap();
    assert_eq!(login(&mut table, &cfg, req("", "x"), NOW).unwrap_err().code, StatusCode::BadRequest);
    assert_eq!(login(&mut table, &cfg, req("a@example.com", ""), NOW).unwrap_err().code, StatusCode::BadRequest);
    let err = login(&mut table, &cfg, req("b@example.com", "Longenough1!"), NOW).unwrap_err();
    assert_eq!(err, AppError::new(StatusCode::NotFound, "Username not found.".to_owned()));
    let err = login(&mut table, &cfg, req("a@example.com", "Wrongpass1!"), NOW).unwrap_err();
    assert_eq!(err, AppError::new(StatusCode::Unauthorized, "Wrong credentials.".to_owned()));
}

#[test]
fn second_login_revokes_first_token() {
    let cfg = config();
    let mut table = UserTable::new();
    create_user(&mut table, &cfg, req("a@example.com", "Longenough1!"), NOW).unwrap();
    let first = login(&mut table, &cfg, req("a@example.com", "Longenough1!"), NOW + 1).unwrap().token.unwrap();
    let second = login(&mut table, &cfg, req("a@example.com", "Longenough1!"), NOW + 2).unwrap().token.unwrap();
    assert_ne!(first, second);
    let err = check_authentication(&table, &cfg, Some(&bearer(&first)), NOW + 2).unwrap_err();
    assert_eq!(err.code, StatusCode::Unauthorized);
    assert_eq!(check_authentication(&table, &cfg, Some(&bearer(&second)), NOW + 2), Ok(1));
}

#[test]
fn gate_rejects_expired_and_missing_credentials() {
    let cfg = config();
    let mut table = UserTable::new();
    let token = create_user(&mut table, &cfg, req("a@example.com", "Longenough1!"), NOW).unwrap().token.unwrap();
    let err = check_authentication(&table, &cfg, Some(&bearer(&token)), NOW + 30).unwrap_err();
    assert_eq!(err.message, "Invalid token.");
    assert_eq!(check_authentication(&table, &cfg, None, NOW).unwrap_err().code, StatusCode::Unauthorized);
    assert_eq!(check_authentication(&table, &cfg, Some(&token), NOW).unwrap_err().code, StatusCode::Unauthorized);
}

#[test]
fn logout_clears_credential() {
    let cfg = config();
    let mut table = UserTable::new();
    let token = create_user(&mut table, &cfg, req("a@example.com", "Longenough1!"), NOW).unwrap().token.unwrap();
    logout(&mut table, 1).unwrap();
    assert_eq!(table.users[0].token, None);
    let err = check_authentication(&table, &cfg, Some(&bearer(&token)), NOW).unwrap_err();
    assert_eq!(err.code, StatusCode::Unauthorized);
    assert_eq!(logout(&mut table, 99).unwrap_err().code, StatusCode::NotFound);
}

fn account(id: i32, name: &str) -> axum_db::user::User {
    axum_db::user::User { id, username: name.to_owned(), password: "h".to_owned(), token: None }
}

#[test]
fn user_table_from_stored_rows() {
    let table = UserTable::from_rows(vec![account(3, "a@x.io"), account(8, "b@x.io")]).unwrap();
    assert_eq!(table.next_id, 9);
    assert!(UserTable::from_rows(vec![account(3, "a@x.io"), account(4, "a@x.io")]).is_none());
    assert!(UserTable::from_rows(vec![account(3, "a@x.io"), account(3, "b@x.io")]).is_none());
    assert!(UserTable::from_rows(vec![account(-1, "a@x.io")]).is_none());
    let all = get_all_users(&table);
    assert_eq!(all.iter().map(|u| u.id).collect::<Vec<_>>(), vec![3, 8]);
    assert_eq!(all[1].username, "b@x.io");
}

#[test]
fn email_rejection_message() {
    let err = validate_user_request(&req("plainname", "Longenough1!")).unwrap_err();
    assert_eq!(err.message, "Username must be a valid e-mail address.");
}

#[test]
fn two_logins_in_one_second_give_different_tokens() {
    let cfg = config();
    let mut table = UserTable::new();
    let signup = create_user(&mut table, &cfg, req("a@example.com", "Longenough1!"), NOW).unwrap().token.unwrap();
    let first = login(&mut table, &cfg, req("a@example.com", "Longenough1!"), NOW).unwrap().token.unwrap();
    let second = login(&mut table, &cfg, req("a@example.com", "Longenough1!"), NOW).unwrap().token.unwrap();
    assert_ne!(signup, first);
    assert_ne!(first, second);
    assert_eq!(check_authentication(&table, &cfg, Some(&bearer(&first)), NOW).unwrap_err().code, StatusCode::Unauthorized);
    assert_eq!(check_authentication(&table, &cfg, Some(&bearer(&second)), NOW), Ok(1));
}

#[test]
fn register_with_given_hash() {
    let cfg = config();
    let mut table = UserTable::new();
    let r = register_hashed(&mut table, &cfg, "a@example.com".to_owned(), "hash".to_owned(), NOW).unwrap();
    assert_eq!(r.id, 1);
    assert_eq!(table.users[0].password, "hash");
    assert_eq!(table.token_serial, 1);
    let err = register_hashed(&mut table, &cfg, "a@example.com".to_owned(), "h2".to_owned(), NOW).unwrap_err();
    assert_eq!(err, AppError::new(StatusCode::InternalServerError, "Username already exists.".to_owned()));
    let r2 = register_hashed(&mut table, &cfg, "b@example.com".to_owned(), "h3".to_owned(), NOW).unwrap();
    assert_ne!(r.token, r2.token);
}
