use sitter::email::{valid_email, Email};
use sitter::person::{Action, PersonError, PersonHook, PersonRequest};

#[test]
fn validate_email() {
    let mut person_request = PersonRequest {
        email: "".to_string(),
        pass: "".to_string(),
    };

    // Simulate invoking a hook.
    let email_object = Email {};

    // Valid email formats.
    for email in vec![
        "somebody@example.com",
        "somebody@sub.example.com",
        "somebody@127.0.0.1",
    ] {
        person_request.email = email.to_string();
        assert_eq!(
            Email::validate(&email_object, &person_request, Action::Create).is_ok(),
            true
        );
    }

    // Invalid email formats.
    for email in vec![
        "no body@example.com",
        "no body@sub.example.com",
        "nobody@127 0.0.1",
        "nobody.example.com",
        "nobody@nobody@example.com",
        "nobody@-example.com",
        "nobody@example-.com",
    ] {
        person_request.email = email.to_string();
        assert_eq!(
            Email::validate(&email_object, &person_request, Action::Create).is_ok(),
            false
        );
    }
}

#[test]
fn invalid_email_is_a_validation_error() {
    let request = PersonRequest {
        email: "nobody.example.com".to_string(),
        pass: "longenough1".to_string(),
    };
    assert_eq!(Email.validate(&request, Action::Update), Err(PersonError::Validation));
}

#[test]
fn email_edge_cases() {
    assert!(!valid_email(""));
    assert!(!valid_email("@example.com"));
    assert!(!valid_email("somebody@"));
    assert!(!valid_email("somebody@.example.com"));
    assert!(!valid_email("somebody@example.com."));
    assert!(!valid_email("somebody@example..com"));
    assert!(!valid_email("tab\tbody@example.com"));
    assert!(!valid_email("nbsp\u{a0}body@example.com"));
    assert!(!valid_email("somebody@ex ample.com"));
    assert!(valid_email("a@b"));
    assert!(valid_email("first.last+tag@mail_server.example.com"));
    assert!(valid_email("çà@example.com"));
    assert!(!valid_email("somebody@exämple.com"));
}
