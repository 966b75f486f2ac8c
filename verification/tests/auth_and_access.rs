use productivity_api::common::errors::{AppError, DbError};
use productivity_api::common::jwt::{bearer_token, check_access_claims, token_claims, Claims};
use productivity_api::common::security::{hash_password, verify_password};
use productivity_api::common::validation::FieldError;
use productivity_api::modules::auth::{
    AuthService, ChangePasswordRequest, LoginRequest, RegisterRequest, ResetPasswordRequest, UserAccount,
    UserStatus,
};
use productivity_api::modules::health::HealthService;
use productivity_api::modules::properties::{
    CreatePropertyOptionRequest, PropertyOptionData, PropertyService, PropertyTypeData,
};
use productivity_api::modules::roles::RoleService;

fn msg(e: &AppError) -> String {
    match e {
        AppError::BadRequest(m)
        | AppError::Unauthorized(m)
        | AppError::Forbidden(m)
        | AppError::NotFound(m)
        | AppError::Conflict(m)
        | AppError::InternalServerError(m) => m.clone(),
    }
}

#[test]
fn hashed_password_verifies() {
    let h = hash_password("secret1").unwrap();
    assert!(h.starts_with("$argon2"));
    assert!(verify_password(&h, "secret1"));
    assert!(!verify_password(&h, "secret2"));
    assert!(!verify_password("not a hash", "secret1"));
    assert!(!verify_password("", ""));
}

fn account(status: UserStatus, password: &str) -> UserAccount {
    UserAccount {
        id: 7,
        password_hash: Some(hash_password(password).unwrap()),
        secret_word: Some(hash_password("blue").unwrap()),
        status,
        token_version: 2,
        role: "user".to_string(),
    }
}

fn login(p: &str) -> LoginRequest {
    LoginRequest { email: "a@b.co".to_string(), password: p.to_string() }
}

#[test]
fn login_checks_status_then_password() {
    assert_eq!(msg(&AuthService::login(&login("x"), Ok(None)).err().unwrap()), "Invalid email or password");
    assert_eq!(
        msg(&AuthService::login(&login("x"), Err(DbError::Other)).err().unwrap()),
        "A database error occurred"
    );
    assert_eq!(
        msg(&AuthService::login(&login("pw1234"), Ok(Some(account(UserStatus::Suspended, "pw1234")))).err().unwrap()),
        "This account has been temporarily suspended"
    );
    assert_eq!(
        msg(&AuthService::login(&login("pw1234"), Ok(Some(account(UserStatus::Banned, "pw1234")))).err().unwrap()),
        "This account has been permanently banned"
    );
    assert_eq!(
        msg(&AuthService::login(&login("pw1234"), Ok(Some(account(UserStatus::Inactive, "pw1234")))).err().unwrap()),
        "This account has been deleted"
    );
    assert_eq!(
        msg(&AuthService::login(&login("wrong"), Ok(Some(account(UserStatus::Active, "pw1234")))).err().unwrap()),
        "Invalid email or password"
    );
    assert_eq!(AuthService::login(&login("pw1234"), Ok(Some(account(UserStatus::Active, "pw1234")))).unwrap().id, 7);
    let mut no_hash = account(UserStatus::Active, "x");
    no_hash.password_hash = None;
    assert!(AuthService::login(&login(""), Ok(Some(no_hash))).is_err());
}

fn claims(token_type: &str, version: i32) -> Claims {
    Claims { sub: 7, exp: 10, iat: 1, token_version: version, role: "user".to_string(), token_type: token_type.to_string() }
}

#[test]
fn refresh_checks() {
    assert_eq!(msg(&AuthService::refresh(None, None).err().unwrap()), "Invalid or expired refresh token");
    assert_eq!(
        msg(&AuthService::refresh(Some(claims("access", 2)), None).err().unwrap()),
        "Please use a refresh token only"
    );
    assert_eq!(msg(&AuthService::refresh(Some(claims("refresh", 2)), None).err().unwrap()), "User not found in the system");
    assert!(matches!(
        AuthService::refresh(Some(claims("refresh", 2)), Some(account(UserStatus::Banned, "p"))),
        Err(AppError::Forbidden(_))
    ));
    assert_eq!(
        msg(&AuthService::refresh(Some(claims("refresh", 1)), Some(account(UserStatus::Active, "p"))).err().unwrap()),
        "This token has been revoked"
    );
    assert!(AuthService::refresh(Some(claims("refresh", 2)), Some(account(UserStatus::Inactive, "p"))).is_ok());
}

#[test]
fn password_changes() {
    let same = ChangePasswordRequest { old_password: "pw1234".to_string(), new_password: "pw1234".to_string() };
    assert_eq!(
        msg(&AuthService::change_password(&same, Some(account(UserStatus::Active, "pw1234"))).err().unwrap()),
        "The new password must not be the same as the old password"
    );
    let wrong = ChangePasswordRequest { old_password: "nope".to_string(), new_password: "abcdef".to_string() };
    assert_eq!(
        msg(&AuthService::change_password(&wrong, Some(account(UserStatus::Active, "pw1234"))).err().unwrap()),
        "Old password is incorrect"
    );
    let good = ChangePasswordRequest { old_password: "pw1234".to_string(), new_password: "abcdef".to_string() };
    let (id, h) = AuthService::change_password(&good, Some(account(UserStatus::Active, "pw1234"))).unwrap();
    assert_eq!(id, 7);
    assert!(verify_password(&h, "abcdef"));
    assert_eq!(msg(&AuthService::change_password(&good, None).err().unwrap()), "User data not found in the system");
    let reset = ResetPasswordRequest { email: "a@b.co".to_string(), secret_word: "red".to_string(), new_password: "zzzzzz".to_string() };
    assert_eq!(
        msg(&AuthService::reset_password(&reset, Ok(Some(account(UserStatus::Active, "p")))).err().unwrap()),
        "Incorrect secret word"
    );
    let reset = ResetPasswordRequest { email: "a@b.co".to_string(), secret_word: "blue".to_string(), new_password: "zzzzzz".to_string() };
    let (_, h) = AuthService::reset_password(&reset, Ok(Some(account(UserStatus::Active, "p")))).unwrap();
    assert!(verify_password(&h, "zzzzzz"));
}

fn register_req() -> RegisterRequest {
    RegisterRequest {
        email: "new@b.co".to_string(),
        password: "pw1234".to_string(),
        first_name: "A".to_string(),
        secret_word: "blue".to_string(),
        last_name: "B".to_string(),
    }
}

#[test]
fn registration() {
    assert_eq!(msg(&AuthService::register(register_req(), Ok(true)).err().unwrap()), "This email is already in use");
    assert_eq!(msg(&AuthService::register(register_req(), Err("db down".to_string())).err().unwrap()), "db down");
    let u = AuthService::register(register_req(), Ok(false)).unwrap();
    assert_eq!(u.email, "new@b.co");
    assert!(verify_password(&u.password_hash, "pw1234"));
    assert!(verify_password(u.secret_word.as_deref().unwrap(), "blue"));
    let r = AuthService::auth_response("a".to_string(), "r".to_string());
    assert_eq!((r.token_type.as_str(), r.expires_in), ("Bearer", 86400));
}

#[test]
fn auth_request_rules() {
    let mut req = register_req();
    assert!(req.validate().is_empty());
    req.email = "not-an-email".to_string();
    req.password = "12345".to_string();
    let e: Vec<FieldError> = req.validate();
    assert_eq!(e.iter().map(|f| f.field.as_str()).collect::<Vec<_>>(), vec!["email", "password"]);
    assert_eq!(e[0].message.as_deref(), Some("Invalid email format"));
    assert_eq!(login("x").validate().len(), 0);
}

#[test]
fn token_pair_claims() {
    let (a, r) = token_claims(5, 3, "admin".to_string(), 1_000_000);
    assert_eq!((a.iat, a.exp), (1_000_000, 1_086_400));
    assert_eq!((r.iat, r.exp), (1_000_000, 1_604_800));
    assert_eq!((a.token_type.as_str(), r.token_type.as_str()), ("access", "refresh"));
    assert!(a.exp < r.exp);
    assert!(a.is_admin());
    assert!(!a.is_super_admin());
    assert!(claims("access", 0).is_admin() == false);
}

#[test]
fn bearer_header() {
    assert_eq!(msg(&bearer_token(None).err().unwrap()), "Authorization header not found");
    assert_eq!(msg(&bearer_token(Some("Basic abc")).err().unwrap()), "Invalid token format");
    assert_eq!(msg(&bearer_token(Some("Bear")).err().unwrap()), "Invalid token format");
    assert_eq!(bearer_token(Some("Bearer abc.def")).unwrap(), "abc.def");
    assert_eq!(bearer_token(Some("Bearer ")).unwrap(), "");
    assert_eq!(msg(&check_access_claims(claims("refresh", 0)).err().unwrap()), "Please use an access token");
    assert!(check_access_claims(claims("access", 0)).is_ok());
}

#[test]
fn role_permissions() {
    let sup = vec!["super_admin".to_string()];
    let roles_admin = vec!["admin_roles".to_string()];
    let user = vec!["user".to_string()];
    assert!(RoleService::authorize_assign(&sup, Some("admin_roles".to_string())).is_ok());
    assert_eq!(
        msg(&RoleService::authorize_assign(&roles_admin, Some("admin_roles".to_string())).err().unwrap()),
        "มีเพียง Super Admin เท่านั้นที่มอบสิทธิ์นี้ได้"
    );
    assert!(RoleService::authorize_assign(&roles_admin, Some("admin_shop".to_string())).is_ok());
    assert_eq!(
        msg(&RoleService::authorize_assign(&user, Some("admin_shop".to_string())).err().unwrap()),
        "คุณไม่มีสิทธิ์กำหนด Shop Admin"
    );
    assert_eq!(
        msg(&RoleService::authorize_assign(&user, Some("editor".to_string())).err().unwrap()),
        "คุณไม่มีสิทธิ์กำหนดสิทธิ์นี้"
    );
    assert_eq!(msg(&RoleService::authorize_assign(&sup, None).err().unwrap()), "ไม่พบ Role ID นี้ในระบบ");
    assert!(RoleService::can_list_roles(&roles_admin).is_ok());
    assert!(RoleService::can_list_roles(&user).is_err());
    assert!(RoleService::can_create_role(&roles_admin).is_err());
    assert_eq!(msg(&RoleService::authorize_revoke(&sup, 1, 1).err().unwrap()), "ไม่สามารถถอดสิทธิ์ของตัวเองได้");
    assert!(RoleService::authorize_revoke(&sup, 1, 2).is_ok());
    assert!(matches!(RoleService::authorize_revoke(&user, 1, 2), Err(AppError::Forbidden(_))));
    assert!(matches!(RoleService::revoke_role(Ok(0)), Err(AppError::BadRequest(_))));
    assert!(RoleService::revoke_role(Ok(1)).is_ok());
    assert!(matches!(RoleService::assign_role(Err(DbError::Other)), Err(AppError::InternalServerError(_))));
}

#[test]
fn role_names() {
    assert_eq!(RoleService::normalize_role_name("  Shop_ÄDMIN "), "shop_ädmin");
    assert_eq!(
        msg(&RoleService::create_role("shop".to_string(), None, Ok(true)).err().unwrap()),
        "มีชื่อ Role 'shop' อยู่ในระบบแล้ว"
    );
    let r = RoleService::create_role("shop".to_string(), Some("d".to_string()), Ok(false)).unwrap();
    assert_eq!(r.name, "shop");
}

#[test]
fn property_codes_and_options() {
    assert_eq!(PropertyService::normalize_code(" ab-ç1 "), "AB-ç1");
    let e = PropertyService::create_property_type("Fuel", "FUEL".to_string(), None, 1, Ok(true), Ok(false));
    assert_eq!(msg(&e.err().unwrap()), "มีชื่อ Property Type 'Fuel' อยู่ในระบบแล้ว");
    let e = PropertyService::create_property_type("Fuel", "FUEL".to_string(), None, 1, Ok(false), Ok(true));
    assert_eq!(msg(&e.err().unwrap()), "มีรหัส Property Type 'FUEL' อยู่ในระบบแล้ว");
    let p = PropertyService::create_property_type("Fuel", "FUEL".to_string(), None, 1, Ok(false), Ok(false)).unwrap();
    assert_eq!((p.code.as_str(), p.created_by, p.updated_by), ("FUEL", 1, 1));
    let o = PropertyService::create_property_option(3, "L".to_string(), "v".to_string(), 1, Ok(false), Ok(4)).unwrap();
    assert_eq!(o.sort_order, 5);
    assert!(o.is_active);
    let e = PropertyService::create_property_option(3, "L".to_string(), "v".to_string(), 1, Ok(true), Ok(4));
    assert_eq!(msg(&e.err().unwrap()), "มี Property Option value 'v' อยู่ในระบบแล้ว");
    let found = PropertyService::get_one_property_type(Err(DbError::NotFound));
    assert_eq!(msg(&found.err().unwrap()), "ไม่พบ Property Type ที่ระบุ");
    let data = (
        PropertyTypeData { id: 1, name: "n".to_string(), code: "C".to_string(), description: None, created_at: 0 },
        vec![PropertyOptionData { id: 2, sort_order: 1, label: "l".to_string(), value: "v".to_string(), is_active: true }],
    );
    let r = PropertyService::get_one_property_type(Ok(data)).unwrap();
    assert_eq!((r.id, r.options.len()), (1, 1));
    let admin = Claims { sub: 1, exp: 0, iat: 0, token_version: 0, role: "admin".to_string(), token_type: "access".to_string() };
    assert!(PropertyService::require_admin(&admin, "no").is_ok());
    assert_eq!(msg(&PropertyService::require_admin(&claims("access", 0), "no").err().unwrap()), "no");
    let req = CreatePropertyOptionRequest { label: String::new(), value: "v".to_string(), property_type_id: 1 };
    assert_eq!(req.validate().len(), 1);
}

#[test]
fn active_connections() {
    assert_eq!(HealthService::active_connections(10, 4), 6);
}
