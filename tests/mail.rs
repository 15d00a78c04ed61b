use relay_chat::config::EmailConfig;
use relay_chat::mail::{compose_code_email, DeliveryError};

fn config(sender: &str) -> EmailConfig {
    EmailConfig {
        sender_email: sender.to_string(),
        smtp: "smtp.example.com".to_string(),
        username: "user".to_string(),
        password: "pass".to_string(),
    }
}

#[test]
fn code_email_for_valid_addresses() {
    let mail = compose_code_email(&config("Relay <noreply@example.com>"), "user@example.org").unwrap();
    assert_eq!(mail.code.len(), 8);
    assert_eq!(mail.from, "Relay <noreply@example.com>");
    assert_eq!(mail.to, "user@example.org");
    assert_eq!(mail.subject, "Verification Code");
    let text = String::from_utf8(mail.message.formatted()).unwrap();
    assert!(text.contains(&mail.code));
    assert!(text.contains("Subject: Verification Code"));
}

#[test]
fn code_email_refuses_bad_recipient() {
    let r = compose_code_email(&config("noreply@example.com"), "not an address");
    assert_eq!(r.err(), Some(DeliveryError::InvalidAddress));
}

#[test]
fn code_email_refuses_bad_sender() {
    let r = compose_code_email(&config("nobody"), "user@example.org");
    assert_eq!(r.err(), Some(DeliveryError::InvalidAddress));
}
