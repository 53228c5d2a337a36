use community_garden::pattern::{validate_email, validate_phone_number};
use community_garden::records::{Error, Role, User};
use community_garden::registry::Registry;

fn s(x: &str) -> String {
    x.to_string()
}

fn admin_and_user(reg: &mut Registry) -> (User, User) {
    let admin = reg
        .create_user(s("Root"), s("root@example.com"), s("5550001111"), Role::Admin, 1)
        .unwrap();
    let user = reg
        .create_user(s("Ann"), s("ann@example.com"), s("5550002222"), Role::User, 2)
        .unwrap();
    (admin, user)
}

#[test]
fn test_create_user() {
    let mut reg = Registry::new();
    let result = reg.create_user(s("1"), s("test@example.com"), s("+1234567890"), Role::User, 0);
    assert!(matches!(result, Ok(_)));
}

#[test]
fn test_invalid_email() {
    let mut reg = Registry::new();
    let result = reg.create_user(s("2"), s("invalid-email"), s("+1234567890"), Role::User, 0);
    assert!(matches!(result, Err(Error::InvalidPayload(_))));
}

#[test]
fn test_invalid_phone() {
    let mut reg = Registry::new();
    let result = reg.create_user(s("3"), s("test@example.com"), s("invalid-phone"), Role::User, 0);
    assert!(matches!(result, Err(Error::InvalidPayload(_))));
}

#[test]
fn email_shapes() {
    assert!(validate_email("alice@example.com"));
    assert!(validate_email("a.b+c@mail.example.org"));
    assert!(!validate_email("invalid-email"));
    assert!(!validate_email("no-dot@domain"));
    assert!(!validate_email("two@@example.com"));
    assert!(!validate_email("spa ce@example.com"));
    assert!(!validate_email(""));
}

#[test]
fn phone_shapes() {
    assert!(validate_phone_number("1234567890"));
    assert!(validate_phone_number("+1234567890"));
    assert!(validate_phone_number("12"));
    assert!(validate_phone_number("123456789012345"));
    assert!(!validate_phone_number("1234567890123456"));
    assert!(!validate_phone_number("0123456789"));
    assert!(!validate_phone_number("1"));
    assert!(!validate_phone_number("invalid-phone"));
    assert!(!validate_phone_number(""));
}

#[test]
fn create_user_fields_and_stamp() {
    let mut reg = Registry::new();
    let u = reg
        .create_user(s("Alice"), s("alice@example.com"), s("1234567890"), Role::Admin, 42)
        .unwrap();
    assert_eq!(u.id, 1);
    assert_eq!(u.name, "Alice");
    assert_eq!(u.email, "alice@example.com");
    assert_eq!(u.phone_number, "1234567890");
    assert_eq!(u.role, Role::Admin);
    assert_eq!(u.created_at, 42);
    assert_eq!(reg.last_id, 1);
}

#[test]
fn get_user_after_create() {
    let mut reg = Registry::new();
    let u = reg
        .create_user(s("Alice"), s("alice@example.com"), s("1234567890"), Role::User, 3)
        .unwrap();
    assert_eq!(reg.get_user(u.id), Ok(u));
    assert!(matches!(reg.get_user(99), Err(Error::NotFound(_))));
}

#[test]
fn duplicate_email_refused() {
    let mut reg = Registry::new();
    reg.create_user(s("Alice"), s("alice@example.com"), s("1234567890"), Role::User, 0).unwrap();
    let r = reg.create_user(s("Bob"), s("alice@example.com"), s("2223334444"), Role::User, 0);
    assert!(matches!(r, Err(Error::InvalidPayload(_))));
    assert_eq!(reg.users.len(), 1);
    assert_eq!(reg.last_id, 1);
}

#[test]
fn admit_user_follows_flags() {
    let mut reg = Registry::new();
    let r = reg.admit_user(s("A"), s("x"), s("y"), Role::User, 0, false, true);
    assert!(matches!(r, Err(Error::InvalidPayload(_))));
    let r = reg.admit_user(s("A"), s("x"), s("y"), Role::User, 0, true, false);
    assert!(matches!(r, Err(Error::InvalidPayload(_))));
    assert_eq!(reg.last_id, 0);
    let u = reg.admit_user(s("A"), s("x"), s("y"), Role::User, 0, true, true).unwrap();
    assert_eq!(u.id, 1);
    assert_eq!(u.email, "x");
    let r = reg.admit_user(s("B"), s("x"), s("z"), Role::User, 0, true, true);
    assert!(matches!(r, Err(Error::InvalidPayload(_))));
}

#[test]
fn list_users_empty_then_in_order() {
    let mut reg = Registry::new();
    assert!(matches!(reg.get_all_users(), Err(Error::NotFound(_))));
    let (a, b) = admin_and_user(&mut reg);
    assert_eq!(reg.get_all_users(), Ok(vec![a, b]));
}

#[test]
fn update_user_by_admin() {
    let mut reg = Registry::new();
    let (admin, user) = admin_and_user(&mut reg);
    let v = reg
        .update_user(user.id, Some(s("Annie")), None, Some(s("+4479460000")), None, admin.id)
        .unwrap();
    assert_eq!(v.id, user.id);
    assert_eq!(v.name, "Annie");
    assert_eq!(v.email, "ann@example.com");
    assert_eq!(v.phone_number, "+4479460000");
    assert_eq!(v.role, Role::User);
    assert_eq!(v.created_at, user.created_at);
    assert_eq!(reg.get_user(user.id), Ok(v));
}

#[test]
fn update_user_may_keep_own_email() {
    let mut reg = Registry::new();
    let (admin, user) = admin_and_user(&mut reg);
    let v = reg
        .update_user(user.id, None, Some(s("ann@example.com")), None, Some(Role::Admin), admin.id)
        .unwrap();
    assert_eq!(v.email, "ann@example.com");
    assert_eq!(v.role, Role::Admin);
}

#[test]
fn update_user_email_of_another_refused() {
    let mut reg = Registry::new();
    let (admin, user) = admin_and_user(&mut reg);
    let r = reg.update_user(user.id, None, Some(s("root@example.com")), None, None, admin.id);
    assert!(matches!(r, Err(Error::InvalidPayload(_))));
    assert_eq!(reg.get_user(user.id), Ok(user));
}

#[test]
fn update_user_bad_shapes_refused() {
    let mut reg = Registry::new();
    let (admin, user) = admin_and_user(&mut reg);
    let r = reg.update_user(user.id, None, Some(s("nope")), None, None, admin.id);
    assert!(matches!(r, Err(Error::InvalidPayload(_))));
    let r = reg.update_user(user.id, None, None, Some(s("abc")), None, admin.id);
    assert!(matches!(r, Err(Error::InvalidPayload(_))));
    assert_eq!(reg.get_user(user.id), Ok(user));
}

#[test]
fn update_user_non_admin_refused() {
    let mut reg = Registry::new();
    let (admin, user) = admin_and_user(&mut reg);
    let r = reg.update_user(admin.id, Some(s("Mallory")), None, None, None, user.id);
    assert!(matches!(r, Err(Error::Unauthorized(_))));
    let r = reg.update_user(admin.id, Some(s("Mallory")), None, None, None, 77);
    assert!(matches!(r, Err(Error::Unauthorized(_))));
    assert_eq!(reg.get_user(admin.id), Ok(admin));
}

#[test]
fn update_user_missing() {
    let mut reg = Registry::new();
    let (admin, _) = admin_and_user(&mut reg);
    let r = reg.update_user(50, Some(s("Z")), None, None, None, admin.id);
    assert!(matches!(r, Err(Error::NotFound(_))));
}

#[test]
fn delete_user_rules() {
    let mut reg = Registry::new();
    let (admin, user) = admin_and_user(&mut reg);
    let r = reg.delete_user(admin.id, user.id);
    assert!(matches!(r, Err(Error::Unauthorized(_))));
    assert_eq!(reg.get_user(admin.id), Ok(admin.clone()));
    assert_eq!(reg.delete_user(user.id, admin.id), Ok(user.clone()));
    assert!(matches!(reg.get_user(user.id), Err(Error::NotFound(_))));
    assert!(matches!(reg.delete_user(user.id, admin.id), Err(Error::NotFound(_))));
    assert_eq!(reg.get_all_users(), Ok(vec![admin]));
}

#[test]
fn deleted_email_can_be_reused() {
    let mut reg = Registry::new();
    let (admin, user) = admin_and_user(&mut reg);
    reg.delete_user(user.id, admin.id).unwrap();
    let again = reg
        .create_user(s("Ann"), s("ann@example.com"), s("5550002222"), Role::User, 9)
        .unwrap();
    assert_eq!(again.id, 3);
}

#[test]
fn email_in_use_skips_the_excepted_user() {
    let mut reg = Registry::new();
    let (admin, user) = admin_and_user(&mut reg);
    assert!(reg.email_in_use(&s("ann@example.com"), None));
    assert!(!reg.email_in_use(&s("ann@example.com"), Some(user.id)));
    assert!(reg.email_in_use(&s("ann@example.com"), Some(admin.id)));
    assert!(!reg.email_in_use(&s("nobody@example.com"), None));
    assert!(reg.is_admin(admin.id));
    assert!(!reg.is_admin(user.id));
    assert!(!reg.is_admin(99));
}
