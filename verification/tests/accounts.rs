use quittance::accounts::{
    assemble_user, authenticate, build_user, check_registration, decide_login, get_current_user,
    get_current_user_at, has_at_sign, login, login_at, new_user, normalize_email,
    parse_birth_date, register, register_at, RegistrationFault, UserDirectory,
    MIN_PASSWORD_LENGTH,
};
use quittance::dates::Date;
use quittance::error::{AppError, ErrorKind};
use quittance::identity::{extract, RequestMetadata};
use quittance::ids::Id;
use quittance::models::user::{LoginCredentials, RegisterRequest};
use quittance::password::verify;
use quittance::token::{TokenService, TOKEN_LIFETIME};

const SALT: &str = "c29tZXNhbHRzb21lc2FsdA";

fn tokens() -> TokenService {
    TokenService::new(b"your-secret-key-change-in-production".to_vec())
}

fn request(email: &str, password: &str) -> RegisterRequest {
    RegisterRequest {
        email: email.to_string(),
        password: password.to_string(),
        name: "Ada".to_string(),
        address: "1 rue de la Paix".to_string(),
        phone: None,
        birth_date: None,
        birth_place: None,
    }
}

fn credentials(email: &str, password: &str) -> LoginCredentials {
    LoginCredentials { email: email.to_string(), password: password.to_string() }
}

fn bearer(token: &str) -> RequestMetadata {
    RequestMetadata { authorization: Some(format!("Bearer {}", token)) }
}

#[test]
fn register_then_login_then_lookup_gives_the_same_identity() {
    let tokens = tokens();
    let mut users = UserDirectory::new();
    let id = Id(0x0a);
    let registered = register(&mut users, &tokens, id, request("a@b.com", "password1")).unwrap();
    assert_eq!(registered.user.id, id);
    assert_eq!(registered.user.email, "a@b.com");
    assert_eq!(users.len(), 1);

    let logged_in = login(&users, &tokens, &credentials("a@b.com", "password1")).unwrap();
    assert_eq!(logged_in.user.id, id);
    let me = get_current_user(&users, &tokens, &bearer(&logged_in.token)).unwrap();
    assert_eq!(me.id, id);
    assert_eq!(me.email, "a@b.com");
    assert_eq!(extract(&tokens, &bearer(&registered.token)), Ok(id));
}

#[test]
fn login_with_a_wrong_password_is_an_authentication_error() {
    let tokens = tokens();
    let mut users = UserDirectory::new();
    register(&mut users, &tokens, Id(1), request("a@b.com", "password1")).unwrap();
    match login(&users, &tokens, &credentials("a@b.com", "password2")) {
        Err(e) => {
            assert_eq!(e.kind(), ErrorKind::Authentication);
            assert_ne!(e.kind(), ErrorKind::NotFound);
            assert_eq!(e.status_code(), 401);
            assert_eq!(e.message(), "Invalid email or password");
        }
        Ok(_) => panic!("a wrong password logged in"),
    }
}

#[test]
fn login_with_an_unknown_email_says_the_same_as_a_wrong_password() {
    let tokens = tokens();
    let mut users = UserDirectory::new();
    register(&mut users, &tokens, Id(1), request("a@b.com", "password1")).unwrap();
    let unknown = login(&users, &tokens, &credentials("nobody@b.com", "password1")).unwrap_err();
    let wrong = login(&users, &tokens, &credentials("a@b.com", "nope-nope")).unwrap_err();
    assert_eq!(unknown.message(), wrong.message());
    assert_eq!(unknown.kind(), wrong.kind());
    assert!(matches!(unknown, AppError::Auth(_)));
}

#[test]
fn login_with_an_unreadable_digest_is_the_same_authentication_error() {
    let tokens = tokens();
    let mut users = UserDirectory::new();
    let mut user = build_user(
        Id(1),
        request("a@b.com", "password1"),
        "a@b.com".to_string(),
        false,
        SALT,
        5,
    )
    .unwrap();
    user.password_hash = "not a digest".to_string();
    users.insert(user).unwrap();
    match login(&users, &tokens, &credentials("a@b.com", "password1")) {
        Err(AppError::Auth(m)) => assert_eq!(m, "Invalid email or password"),
        other => panic!("unexpected: {:?}", other.map(|r| r.user.id)),
    }
}

#[test]
fn emails_are_compared_without_regard_to_case() {
    let tokens = tokens();
    let mut users = UserDirectory::new();
    let stored = register(&mut users, &tokens, Id(1), request("Ada@Example.COM", "password1"))
        .unwrap();
    assert_eq!(stored.user.email, "ada@example.com");
    assert!(login(&users, &tokens, &credentials("ADA@example.com", "password1")).is_ok());
    assert!(login(&users, &tokens, &credentials("ada@example.com", "password1")).is_ok());
    match register(&mut users, &tokens, Id(2), request("ADA@EXAMPLE.COM", "password9")) {
        Err(AppError::Conflict(m)) => assert_eq!(m, "Email already registered"),
        other => panic!("unexpected: {:?}", other.map(|r| r.user.id)),
    }
    assert_eq!(users.len(), 1);
}

#[test]
fn registration_faults_come_in_order() {
    let tokens = tokens();
    let mut users = UserDirectory::new();
    register_at(&mut users, &tokens, Id(1), request("a@b.com", "password1"), SALT, 10).unwrap();

    // no @ wins over a short password
    match register_at(&mut users, &tokens, Id(2), request("nobody", "short"), SALT, 10) {
        Err(AppError::Validation(m)) => assert_eq!(m, "Invalid email format"),
        other => panic!("unexpected: {:?}", other.map(|r| r.user.id)),
    }
    // a short password wins over a taken email
    match register_at(&mut users, &tokens, Id(2), request("a@b.com", "short"), SALT, 10) {
        Err(AppError::Validation(m)) => assert_eq!(m, "Password must be at least 8 characters"),
        other => panic!("unexpected: {:?}", other.map(|r| r.user.id)),
    }
    // a taken email wins over an unusable salt and a bad birth date
    let mut taken = request("a@b.com", "password1");
    taken.birth_date = Some("yesterday".to_string());
    match register_at(&mut users, &tokens, Id(2), taken, "", 10) {
        Err(AppError::Conflict(m)) => assert_eq!(m, "Email already registered"),
        other => panic!("unexpected: {:?}", other.map(|r| r.user.id)),
    }
    // an unusable salt wins over a bad birth date
    let mut unsalted = request("c@d.com", "password1");
    unsalted.birth_date = Some("yesterday".to_string());
    assert!(matches!(
        register_at(&mut users, &tokens, Id(2), unsalted, "", 10),
        Err(AppError::Internal)
    ));
    // a bad birth date wins over a taken identifier
    let mut dated = request("c@d.com", "password1");
    dated.birth_date = Some("1990-02-30".to_string());
    match register_at(&mut users, &tokens, Id(1), dated, SALT, 10) {
        Err(AppError::Validation(m)) => assert_eq!(m, "Invalid birth_date format"),
        other => panic!("unexpected: {:?}", other.map(|r| r.user.id)),
    }
    // a taken identifier is the store's refusal
    assert!(matches!(
        register_at(&mut users, &tokens, Id(1), request("c@d.com", "password1"), SALT, 10),
        Err(AppError::Database)
    ));
    assert_eq!(users.len(), 1);
}

#[test]
fn registration_stores_what_the_request_says() {
    let tokens = tokens();
    let mut users = UserDirectory::new();
    let mut asked = request("a@b.com", "password1");
    asked.phone = Some("0102030405".to_string());
    asked.birth_date = Some("1990-02-28".to_string());
    asked.birth_place = Some("Lyon".to_string());
    let answer = register_at(&mut users, &tokens, Id(9), asked, SALT, 1_700_000_000).unwrap();
    let user = answer.user;
    assert_eq!(user.id, Id(9));
    assert_eq!(user.name, "Ada");
    assert_eq!(user.address, "1 rue de la Paix");
    assert_eq!(user.phone.as_deref(), Some("0102030405"));
    assert_eq!(user.birth_date, Some(Date { year: 1990, month: 2, day: 28 }));
    assert_eq!(user.birth_place.as_deref(), Some("Lyon"));
    assert_eq!(user.created_at, Some(1_700_000_000));
    assert_eq!(user.updated_at, Some(1_700_000_000));
    assert_ne!(user.password_hash, "password1");
    assert!(user.password_hash.starts_with("$argon2id$"));
    assert!(verify("password1", &user.password_hash));
    let stored = users.find_by_id(Id(9)).unwrap();
    assert_eq!(stored.password_hash, user.password_hash);
    assert_eq!(users.find_by_email("a@b.com").unwrap().id, Id(9));
    assert!(users.find_by_email("A@B.COM").is_none());
}

#[test]
fn registration_token_is_recognised_for_a_day() {
    let tokens = tokens();
    let mut users = UserDirectory::new();
    let now = 1_700_000_000;
    let answer =
        register_at(&mut users, &tokens, Id(9), request("a@b.com", "password1"), SALT, now)
            .unwrap();
    let carried = bearer(&answer.token);
    assert_eq!(get_current_user_at(&users, &tokens, &carried, now).unwrap().id, Id(9));
    assert_eq!(
        get_current_user_at(&users, &tokens, &carried, now + TOKEN_LIFETIME).unwrap().id,
        Id(9)
    );
    match get_current_user_at(&users, &tokens, &carried, now + TOKEN_LIFETIME + 1) {
        Err(AppError::Auth(m)) => assert_eq!(m, "Invalid token"),
        other => panic!("unexpected: {:?}", other.map(|u| u.id)),
    }
}

#[test]
fn registration_without_a_token_still_stores_the_identity() {
    let tokens = tokens();
    let mut users = UserDirectory::new();
    let r = register_at(&mut users, &tokens, Id(9), request("a@b.com", "password1"), SALT, i64::MAX);
    assert!(matches!(r, Err(AppError::Internal)));
    assert_eq!(users.len(), 1);
    assert_eq!(users.find_by_id(Id(9)).unwrap().email, "a@b.com");
}

#[test]
fn login_at_answers_with_a_token_for_the_identity() {
    let tokens = tokens();
    let mut users = UserDirectory::new();
    register_at(&mut users, &tokens, Id(7), request("a@b.com", "password1"), SALT, 50).unwrap();
    let answer = login_at(&users, &tokens, &credentials("a@b.com", "password1"), 100).unwrap();
    assert_eq!(answer.user.id, Id(7));
    assert_eq!(tokens.validate_at(&answer.token, 100 + TOKEN_LIFETIME), Ok(Id(7).to_text()));
    assert!(tokens.validate_at(&answer.token, 101 + TOKEN_LIFETIME).is_err());
    assert!(matches!(
        login_at(&users, &tokens, &credentials("a@b.com", "password1"), i64::MAX),
        Err(AppError::Internal)
    ));
}

#[test]
fn authenticate_finds_the_identity() {
    let tokens = tokens();
    let mut users = UserDirectory::new();
    register_at(&mut users, &tokens, Id(7), request("a@b.com", "password1"), SALT, 50).unwrap();
    register_at(&mut users, &tokens, Id(8), request("c@d.com", "password2"), SALT, 50).unwrap();
    assert_eq!(authenticate(&users, &credentials("c@d.com", "password2")).unwrap().id, Id(8));
    assert!(authenticate(&users, &credentials("c@d.com", "password1")).is_err());
}

#[test]
fn lookup_of_an_identity_that_is_not_stored_is_an_authentication_error() {
    let tokens = tokens();
    let users = UserDirectory::new();
    let token = quittance::identity::generate_token(&tokens, &Id(5)).unwrap();
    match get_current_user(&users, &tokens, &bearer(&token)) {
        Err(AppError::Auth(m)) => assert_eq!(m, "User not found"),
        other => panic!("unexpected: {:?}", other.map(|u| u.id)),
    }
    match get_current_user(&users, &tokens, &RequestMetadata { authorization: None }) {
        Err(AppError::Auth(m)) => assert_eq!(m, "Missing or invalid authorization header"),
        other => panic!("unexpected: {:?}", other.map(|u| u.id)),
    }
}

#[test]
fn form_check_lowers_the_email() {
    assert_eq!(check_registration(&request("MiXed@Case.Org", "12345678")), Ok("mixed@case.org".to_string()));
    assert_eq!(
        check_registration(&request("mixed.case.org", "12345678")),
        Err(RegistrationFault::InvalidEmail)
    );
    assert_eq!(
        check_registration(&request("a@b", "1234567")),
        Err(RegistrationFault::ShortPassword)
    );
    assert!(check_registration(&request("@", "12345678")).is_ok());
}

#[test]
fn password_length_counts_bytes() {
    assert_eq!(MIN_PASSWORD_LENGTH, 8);
    // four characters of two bytes each
    assert!(check_registration(&request("a@b", "éééé")).is_ok());
    assert_eq!(
        check_registration(&request("a@b", "ééé")),
        Err(RegistrationFault::ShortPassword)
    );
}

#[test]
fn at_sign_is_found_anywhere() {
    assert!(has_at_sign("@"));
    assert!(has_at_sign("a@"));
    assert!(has_at_sign("@a"));
    assert!(has_at_sign("été@été"));
    assert!(!has_at_sign(""));
    assert!(!has_at_sign("a.b.c"));
}

#[test]
fn birth_date_is_year_month_day() {
    assert_eq!(parse_birth_date(&None), Ok(None));
    assert_eq!(
        parse_birth_date(&Some("2001-12-31".to_string())),
        Ok(Some(Date { year: 2001, month: 12, day: 31 }))
    );
    for bad in ["", "31/12/2001", "2001-13-01", "2001-02-29", "today"] {
        assert_eq!(
            parse_birth_date(&Some(bad.to_string())),
            Err(RegistrationFault::InvalidBirthDate)
        );
    }
}

#[test]
fn registration_faults_have_their_errors() {
    assert_eq!(RegistrationFault::InvalidEmail.to_app_error().status_code(), 400);
    assert_eq!(RegistrationFault::ShortPassword.to_app_error().status_code(), 400);
    assert_eq!(RegistrationFault::InvalidBirthDate.to_app_error().status_code(), 400);
    assert_eq!(RegistrationFault::EmailTaken.to_app_error().status_code(), 409);
    assert_eq!(RegistrationFault::EmailTaken.to_app_error().kind(), ErrorKind::Conflict);
    assert_eq!(RegistrationFault::HashingFailed.to_app_error().status_code(), 500);
    assert_eq!(RegistrationFault::StoreRefused.to_app_error().status_code(), 500);
    assert_eq!(RegistrationFault::StoreRefused.to_app_error().message(), "Database error");
}

#[test]
fn directory_refuses_a_second_identity_with_the_same_email_or_identifier() {
    let mut users = UserDirectory::new();
    let make = |id: u128, email: &str| {
        build_user(Id(id), request(email, "password1"), email.to_string(), false, SALT, 0).unwrap()
    };
    assert!(users.insert(make(1, "a@b.com")).is_ok());
    assert!(matches!(users.insert(make(1, "x@y.com")), Err(AppError::Database)));
    assert!(matches!(users.insert(make(2, "a@b.com")), Err(AppError::Database)));
    assert!(users.insert(make(2, "x@y.com")).is_ok());
    assert_eq!(users.len(), 2);
}

#[test]
fn email_is_lowered_for_storage_and_lookup() {
    assert_eq!(normalize_email("Ada@Example.COM"), "ada@example.com");
    assert_eq!(normalize_email("ÉMILE@EXAMPLE.COM"), "émile@example.com");
    assert_eq!(normalize_email("already@lower.case"), "already@lower.case");
    assert_eq!(normalize_email(""), "");
}

#[test]
fn new_user_hashes_under_a_fresh_salt() {
    let a = new_user(Id(1), request("a@b.com", "password1"), "a@b.com".to_string(), false, 7).unwrap();
    let b = new_user(Id(2), request("a@b.com", "password1"), "a@b.com".to_string(), false, 7).unwrap();
    assert_ne!(a.password_hash, b.password_hash);
    assert!(verify("password1", &a.password_hash));
    assert!(verify("password1", &b.password_hash));
    assert_eq!(a.id, Id(1));
    assert_eq!(a.email, "a@b.com");
    assert_eq!(a.created_at, Some(7));
    assert_eq!(
        new_user(Id(3), request("a@b.com", "password1"), "a@b.com".to_string(), true, 7).map(|u| u.id),
        Err(RegistrationFault::EmailTaken)
    );
    let mut dated = request("a@b.com", "password1");
    dated.birth_date = Some("soon".to_string());
    assert_eq!(
        new_user(Id(3), dated, "a@b.com".to_string(), false, 7).map(|u| u.id),
        Err(RegistrationFault::InvalidBirthDate)
    );
}

#[test]
fn login_is_decided_on_what_was_found() {
    let user = build_user(Id(1), request("a@b.com", "password1"), "a@b.com".to_string(), false, SALT, 0)
        .unwrap();
    assert_eq!(decide_login(Some(&user), true).unwrap().id, Id(1));
    for (found, accepted) in [(Some(&user), false), (None, true), (None, false)] {
        match decide_login(found, accepted) {
            Err(AppError::Auth(m)) => assert_eq!(m, "Invalid email or password"),
            other => panic!("unexpected: {:?}", other.map(|u| u.id)),
        }
    }
}

#[test]
fn identity_is_assembled_from_the_parts_of_a_registration() {
    let digest = || Some("$argon2id$stand-in".to_string());
    let made = assemble_user(Id(4), request("A@b.com", "password1"), "a@b.com".to_string(), false, digest(), 9)
        .unwrap();
    assert_eq!(made.id, Id(4));
    assert_eq!(made.email, "a@b.com");
    assert_eq!(made.password_hash, "$argon2id$stand-in");
    assert_eq!(made.name, "Ada");
    assert_eq!(made.birth_date, None);
    assert_eq!(made.created_at, Some(9));

    let mut dated = request("a@b.com", "password1");
    dated.birth_date = Some("never".to_string());
    let outcome = |taken: bool, digest: Option<String>, birth: Option<&str>| {
        let mut asked = request("a@b.com", "password1");
        asked.birth_date = birth.map(|b| b.to_string());
        assemble_user(Id(4), asked, "a@b.com".to_string(), taken, digest, 9).map(|u| u.id)
    };
    assert_eq!(outcome(true, None, Some("never")), Err(RegistrationFault::EmailTaken));
    assert_eq!(outcome(true, digest(), None), Err(RegistrationFault::EmailTaken));
    assert_eq!(outcome(false, None, Some("never")), Err(RegistrationFault::HashingFailed));
    assert_eq!(outcome(false, None, None), Err(RegistrationFault::HashingFailed));
    assert_eq!(outcome(false, digest(), Some("never")), Err(RegistrationFault::InvalidBirthDate));
    assert_eq!(outcome(false, digest(), Some("2000-01-01")), Ok(Id(4)));
}
