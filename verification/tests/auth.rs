use mealdesk::auth::{hash_password, login_name, login_outcome};
use mealdesk::seed::default_account;

#[test]
fn password_hash_of_default_password() {
    assert_eq!(
        hash_password("admin123"),
        "240be518fabd2724ddb6f04eeb1da5967448d7e831c08c8fa822809f74c720a9"
    );
}

#[test]
fn password_hash_of_empty_password() {
    assert_eq!(
        hash_password(""),
        "e3b0c44298fc1c149afbf4c8996fb92427ae41e4649b934ca495991b7852b855"
    );
}

#[test]
fn password_hash_shape_and_determinism() {
    for p in ["a", "Пароль", "admin123 ", "🍛"] {
        let h = hash_password(p);
        assert_eq!(h.len(), 64);
        assert!(h.chars().all(|c| c.is_ascii_digit() || ('a'..='f').contains(&c)));
        assert_eq!(h, hash_password(p));
    }
    assert_ne!(hash_password("admin123"), hash_password("Admin123"));
}

#[test]
fn default_account_signs_in_with_admin123() {
    let a = default_account();
    assert_eq!(a.username, "admin");
    assert_eq!(a.password_hash, hash_password("admin123"));
}

#[test]
fn login_name_trims_white_space() {
    assert_eq!(login_name("  admin \n"), "admin");
    assert_eq!(login_name("admin"), "admin");
    assert_eq!(login_name("\t"), "");
    assert_eq!(login_name(" a b "), "a b");
}

#[test]
fn login_success_and_failure() {
    let ok = login_outcome("ADMIN", Some("admin".to_string()), "");
    assert_eq!(ok.result.as_ref().map(|u| u.username.clone()), Ok("admin".to_string()));
    assert_eq!(ok.audit_user, "admin");
    assert_eq!(ok.note.action, "login_success");
    assert_eq!(ok.note.target_type, "users");
    assert_eq!(ok.note.target_id, None);
    assert_eq!(ok.note.details.as_deref(), Some("Login successful"));

    let bad = login_outcome("bob", None, "Query returned no rows");
    assert_eq!(bad.result.err(), Some("Invalid username or password.".to_string()));
    assert_eq!(bad.audit_user, "bob");
    assert_eq!(bad.note.action, "login_failed");
    assert_eq!(
        bad.note.details.as_deref(),
        Some("Failed login attempt for username: 'bob'. Error: Query returned no rows")
    );
}

#[test]
fn login_name_trims_unicode_white_space() {
    assert_eq!(login_name("  ADMIN "), "ADMIN");
    assert_eq!(login_name("\u{3000}admin\u{00A0}\u{2029}"), "admin");
    assert_eq!(login_name("\u{200B}admin"), "\u{200B}admin");
    assert_eq!(login_name("\u{85}\u{1680}x\u{205F}"), "x");
}
