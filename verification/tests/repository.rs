use knotes_core::entities::User;
use knotes_core::memory::InMemoryUserRepository;
use knotes_core::repositories::UserRepository;
use knotes_core::value_objects::Email;

#[test]
fn test_save_and_find_user() {
    let mut repo = InMemoryUserRepository::new();

    let email = Email::new("test@example.com").unwrap();
    let user = User::new("oidc|123", email);
    repo.save(&user).unwrap();

    let found = repo.find_by_id(user.id).unwrap();
    assert!(found.is_some());
    let found = found.unwrap();
    assert_eq!(found.subject, "oidc|123");
    assert_eq!(found.email_str(), "test@example.com");
    assert!(found.password_hash.is_none());
}

#[test]
fn test_save_and_find_user_with_password() {
    let mut repo = InMemoryUserRepository::new();

    let email = Email::new("local@example.com").unwrap();
    let user = User::new_local(email, "hashed_pw");
    repo.save(&user).unwrap();

    let found = repo.find_by_id(user.id).unwrap();
    assert!(found.is_some());
    let found = found.unwrap();
    assert_eq!(found.email_str(), "local@example.com");
    assert_eq!(found.password_hash, Some("hashed_pw".to_string()));
}

#[test]
fn test_find_by_subject() {
    let mut repo = InMemoryUserRepository::new();

    let email = Email::new("user@gmail.com").unwrap();
    let user = User::new("google|456", email);
    repo.save(&user).unwrap();

    let found = repo.find_by_subject("google|456").unwrap();
    assert!(found.is_some());
    assert_eq!(found.unwrap().id, user.id);
}

#[test]
fn test_delete_user() {
    let mut repo = InMemoryUserRepository::new();

    let email = Email::new("delete@test.com").unwrap();
    let user = User::new("test|789", email);
    repo.save(&user).unwrap();
    repo.delete(user.id).unwrap();

    let found = repo.find_by_id(user.id).unwrap();
    assert!(found.is_none());
}

#[test]
fn save_is_an_upsert_keyed_by_id() {
    let mut repo = InMemoryUserRepository::new();

    let email = Email::new("one@test.com").unwrap();
    let user = User::new("subj|1", email);
    repo.save(&user).unwrap();

    let changed = User::with_id(
        user.id,
        "subj|2",
        Email::new("two@test.com").unwrap(),
        None,
        user.created_at + 1000,
    );
    repo.save(&changed).unwrap();

    let found = repo.find_by_id(user.id).unwrap().unwrap();
    assert_eq!(found.subject, "subj|2");
    assert_eq!(found.email_str(), "two@test.com");
    // created_at is set once at construction and never mutated by an update
    assert_eq!(found.created_at, user.created_at);
    assert!(repo.find_by_email("one@test.com").unwrap().is_none());
}

#[test]
fn delete_of_absent_id_is_not_an_error() {
    let mut repo = InMemoryUserRepository::new();
    assert!(repo.delete(42).is_ok());
}

#[test]
fn find_by_email_is_an_exact_match() {
    let mut repo = InMemoryUserRepository::new();
    let email = Email::new("Case@Test.com").unwrap();
    let user = User::new("s", email);
    repo.save(&user).unwrap();

    // stored normalized; the lookup key is compared exactly
    assert!(repo.find_by_email("case@test.com").unwrap().is_some());
    assert!(repo.find_by_email("Case@Test.com").unwrap().is_none());
}
