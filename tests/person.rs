use sitter::email::Email;
use sitter::logger::Logger;
use sitter::password::Password;
use sitter::person::{Action, Hook, Person, PersonError, PersonHook, PersonHooks, PersonRequest};

fn cheap_password() -> Password {
    Password::new(64, 1, 1)
}

fn registry() -> PersonHooks {
    let mut hooks = PersonHooks::initialize();
    hooks.register_hook(Hook::Email(Email));
    hooks.register_hook(Hook::Password(cheap_password()));
    hooks.register_hook(Hook::Logger(Logger));
    hooks
}

fn request(email: &str, pass: &str) -> PersonRequest {
    PersonRequest {
        email: email.to_string(),
        pass: pass.to_string(),
    }
}

#[test]
fn short_secret_fails_policy_on_create() {
    let p = cheap_password();
    assert_eq!(p.validate(&request("a@b.com", ""), Action::Create), Err(PersonError::Policy));
    assert_eq!(p.validate(&request("a@b.com", "1234567"), Action::Create), Err(PersonError::Policy));
    assert_eq!(p.validate(&request("a@b.com", "12345678"), Action::Create), Ok(()));
    assert_eq!(p.validate(&request("a@b.com", "ééééééé"), Action::Create), Err(PersonError::Policy));
    assert_eq!(p.validate(&request("a@b.com", "short"), Action::Update), Ok(()));
}

#[test]
fn first_failing_hook_decides() {
    let hooks = registry();
    assert_eq!(hooks.validate(&request("no body@b.com", "short"), Action::Create), Err(PersonError::Validation));
    assert_eq!(hooks.validate(&request("a@b.com", "short"), Action::Create), Err(PersonError::Policy));
    assert_eq!(hooks.validate(&request("a@b.com", "longenough1"), Action::Create), Ok(()));
    let created = Person::before_create(request("a@b.com", "short"), &hooks);
    assert_eq!(created.err(), Some(PersonError::Policy));
}

#[test]
fn hashing_uses_a_fresh_salt() {
    let p = cheap_password();
    let mut first = request("a@b.com", "longenough1");
    let mut second = request("a@b.com", "longenough1");
    assert_eq!(p.prepare(&mut first, Action::Create), Ok(()));
    assert_eq!(p.prepare(&mut second, Action::Create), Ok(()));
    assert_ne!(first.pass, "longenough1");
    assert!(first.pass.starts_with("$argon2id$v=19$m=64,t=1,p=1$"));
    assert_ne!(first.pass, second.pass);
    assert_eq!(first.email, "a@b.com");
    assert!(p.verify(&"longenough1".to_string(), &first.pass));
    assert!(p.verify(&"longenough1".to_string(), &second.pass));
    assert!(!p.verify(&"longenough2".to_string(), &first.pass));
    assert!(!p.verify(&"longenough1".to_string(), &"not a hash".to_string()));
}

#[test]
fn invalid_costs_fail_preparation() {
    let p = Password::new(4, 1, 1);
    let mut r = request("a@b.com", "longenough1");
    assert_eq!(p.prepare(&mut r, Action::Create), Err(PersonError::Preparation));
    assert_eq!(r.pass, "longenough1");
}

#[test]
fn read_missing_is_not_found() {
    let hooks = registry();
    assert_eq!(hooks.prepare_id(7, Action::Read), Ok(7));
    assert_eq!(Person::after_read(Some(7), vec![]).err(), Some(PersonError::NotFound));
    let listing = Person::after_read(None, vec![]);
    assert_eq!(listing.map(|v| v.len()), Ok(0));
}

#[test]
fn read_returns_rows() {
    let row = Person { id: 3, email: "a@b.com".to_string(), pass: "x".to_string() };
    let got = Person::after_read(Some(3), vec![row]).unwrap();
    assert_eq!(got.len(), 1);
    assert_eq!(got[0].id, 3);
}

#[test]
fn update_with_empty_secret_keeps_credential() {
    let hooks = registry();
    let u = Person::before_update(request("a@b2.com", ""), &hooks).unwrap();
    assert_eq!(u.email, "a@b2.com");
    assert!(u.pass.is_none());
}

#[test]
fn update_with_new_secret_rehashes() {
    let hooks = registry();
    let p = cheap_password();
    let created = Person::before_create(request("a@b.com", "longenough1"), &hooks).unwrap();
    let u = Person::before_update(request("a@b.com", "another secret"), &hooks).unwrap();
    let new_pass = u.pass.unwrap();
    assert_ne!(new_pass, created.pass);
    assert!(p.verify(&"another secret".to_string(), &new_pass));
    assert!(!p.verify(&"longenough1".to_string(), &new_pass));
}

#[test]
fn update_rejects_bad_identifier() {
    let hooks = registry();
    let u = Person::before_update(request("nobody", ""), &hooks);
    assert_eq!(u.err(), Some(PersonError::Validation));
}

#[test]
fn update_of_missing_row_is_not_found() {
    assert_eq!(Person::after_update(None).err(), Some(PersonError::NotFound));
}

#[test]
fn audit_records_follow_registration_order() {
    let mut hooks = PersonHooks::initialize();
    hooks.register_hook(Hook::Logger(Logger));
    hooks.register_hook(Hook::Email(Email));
    hooks.register_hook(Hook::Logger(Logger));
    let person = Person { id: 1, email: "a@b.com".to_string(), pass: "h".to_string() };
    let records = hooks.processed(&person, Action::Update);
    assert_eq!(records.len(), 2);
    assert_eq!(records[0].action, Action::Update);
    assert_eq!(records[0].email, "a@b.com");
    assert_eq!(records[1].action.name(), "update");
}

#[test]
fn empty_registry_changes_nothing() {
    let hooks = PersonHooks::initialize();
    let ready = Person::before_create(request("anything", "x"), &hooks).unwrap();
    assert_eq!(ready.email, "anything");
    assert_eq!(ready.pass, "x");
    let person = Person { id: 1, email: "a@b.com".to_string(), pass: "h".to_string() };
    assert!(hooks.processed(&person, Action::Create).is_empty());
}

#[test]
fn end_to_end_lifecycle() {
    let hooks = registry();
    let p = cheap_password();

    let ready = Person::before_create(request("a@b.com", "longenough1"), &hooks).unwrap();
    assert_eq!(ready.email, "a@b.com");
    assert_ne!(ready.pass, "longenough1");
    assert!(p.verify(&"longenough1".to_string(), &ready.pass));
    let stored = Person { id: 42, email: ready.email.clone(), pass: ready.pass.clone() };
    let audit = hooks.processed(&stored, Action::Create);
    assert_eq!(audit.len(), 1);
    assert_eq!(audit[0].action.name(), "create");

    let change = Person::before_update(request("a@b2.com", ""), &hooks).unwrap();
    assert!(change.pass.is_none());
    let updated_row = Person { id: stored.id, email: change.email.clone(), pass: stored.pass.clone() };
    let updated = Person::after_update(Some(updated_row)).unwrap();
    assert_eq!(updated.email, "a@b2.com");
    assert_eq!(updated.pass, ready.pass);
    assert_eq!(updated.id, 42);

    assert_eq!(hooks.prepare_id(42, Action::Delete), Ok(42));
    assert_eq!(Person::after_read(Some(42), vec![]).err(), Some(PersonError::NotFound));
}

#[test]
fn error_messages_and_action_names() {
    assert_eq!(PersonError::Policy.message(), "credential too weak: must be at least 8 characters long");
    assert_eq!(PersonError::NotFound.message(), "no such person");
    assert_eq!(Action::Create.name(), "create");
    assert_eq!(Action::Read.name(), "read");
    assert_eq!(Action::Delete.name(), "delete");
}
