use relay_chat::code::{code_from_bytes, generate_human_readable_code, CODE_LEN};
use relay_chat::config::{admin_records, AdminAuthConfig};
use relay_chat::hasher::{get_a2id, hash_password, phc_is_guarded, verify_password, HashingError};
use relay_chat::records::Role;

const ALPHABET: &str = "ABCDEFGHJKLMNPQRSTUVWXYZ23456789";

#[test]
fn params_refuse_zero_cores() {
    assert_eq!(get_a2id(0), Err(HashingError::InvalidParams));
}

#[test]
fn params_follow_cores_up_to_cap() {
    let p = get_a2id(4).unwrap();
    assert_eq!(p.memory_kib, 47104);
    assert_eq!(p.time_cost, 2);
    assert_eq!(p.parallelism, 4);
    assert_eq!(get_a2id(1).unwrap().parallelism, 1);
    assert_eq!(get_a2id(64).unwrap().parallelism, 8);
}

#[test]
fn hash_refuses_zero_cores() {
    assert_eq!(hash_password("secret", 0), Err(HashingError::InvalidParams));
}

#[test]
fn hash_then_verify_accepts() {
    let h = hash_password("secret", 1).unwrap();
    assert!(h.starts_with("$argon2id$v=19$m=47104,t=2,p=1$"));
    assert!(verify_password("secret", &h));
}

#[test]
fn hash_records_capped_parallelism() {
    let h = hash_password("capped", 64).unwrap();
    assert!(h.starts_with("$argon2id$v=19$m=47104,t=2,p=8$"));
    assert!(phc_is_guarded(&h));
}

#[test]
fn verify_refuses_huge_parallelism_without_panic() {
    let h = "$argon2id$v=19$m=47104,t=2,p=536870912$c29tZXNhbHRzb21lc2FsdA$YWJjZGVmZ2hpamtsbW5vcHFyc3R1dnd4eXoxMjM0NTY";
    assert!(!phc_is_guarded(h));
    assert!(!verify_password("x", h));
}

#[test]
fn guard_reads_each_parameter_value() {
    assert!(phc_is_guarded("$argon2id$v=19$m=12345678,t=2,p=1$abc$def"));
    assert!(phc_is_guarded("$argon2id$v=19$m=123456789,t=100000000,p=1$abc$def"));
    assert!(phc_is_guarded("$argon2id$v=19$m=8,t=2,p=16777215$abc$def"));
    assert!(!phc_is_guarded("$argon2id$v=19$m=8,t=2,p=123456789$abc$def"));
    assert!(!phc_is_guarded("p=1,p=999999999"));
    assert!(phc_is_guarded("$abc123456789$"));
    assert!(phc_is_guarded(""));
}

#[test]
fn hash_refuses_other_password() {
    let h = hash_password("correct horse", 1).unwrap();
    assert!(!verify_password("correct hors", &h));
}

#[test]
fn hashes_use_fresh_salts() {
    let a = hash_password("same", 2).unwrap();
    let b = hash_password("same", 2).unwrap();
    assert_ne!(a, b);
    assert!(verify_password("same", &b));
}

#[test]
fn verify_refuses_malformed_hash() {
    assert!(!verify_password("secret", ""));
    assert!(!verify_password("secret", "not a hash"));
}

#[test]
fn code_from_bytes_maps_each_byte() {
    let code = code_from_bytes(&[0, 7, 8, 63, 64, 191, 192, 255]);
    assert_eq!(code, "AABHJZ29");
}

#[test]
fn code_from_no_bytes_is_empty() {
    assert_eq!(code_from_bytes(&[]), "");
}

#[test]
fn generated_code_is_eight_alphabet_chars() {
    for _ in 0..20 {
        let code = generate_human_readable_code();
        assert_eq!(code.chars().count(), CODE_LEN);
        assert!(code.chars().all(|c| ALPHABET.contains(c)));
    }
}

#[test]
fn admin_records_hash_the_configured_password() {
    let config = AdminAuthConfig {
        uuid_auth: 7,
        uuid_uuser: 9,
        email: "admin@example.com".to_string(),
        password: "root".to_string(),
    };
    let (profile, credential) = admin_records(&config, 1).unwrap();
    assert_eq!(profile.id, 9);
    assert_eq!(profile.email, "admin@example.com");
    assert_eq!(profile.role, Role::Operator);
    assert_eq!(credential.id, 7);
    assert_eq!(credential.user, 9);
    assert!(verify_password("root", &credential.phc_string));
    assert!(admin_records(&config, 0).is_err());
}
