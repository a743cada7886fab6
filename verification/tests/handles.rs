use abuelo::account::Account;
use abuelo::clock::Timestamp;
use abuelo::database::Database;
use abuelo::handle::{Handle, MAX_DRAWS};
use abuelo::random::{RandomSource, SystemRandom};

/// Hands out the values it was given, in their order, and 0 after the last.
struct Scripted {
    values: Vec<u64>,
    next: usize,
}

impl Scripted {
    fn new(values: &[u64]) -> Scripted {
        Scripted { values: values.to_vec(), next: 0 }
    }
}

impl RandomSource for Scripted {
    fn next_u64(&mut self) -> u64 {
        let value = self.values.get(self.next).copied().unwrap_or(0);
        self.next += 1;
        value
    }
}

fn store_with(names: &[&str]) -> (Database, Vec<Account>) {
    let mut db = Database::new();
    let mut accounts = Vec::new();
    for name in names {
        accounts.push(db.add_user(name, "pw").unwrap());
    }
    (db, accounts)
}

#[test]
fn handle_holds_its_value() {
    assert_eq!(Handle::from_value(0).get(), 0);
    assert_eq!(Handle::from_value(42).get(), 42);
    assert_eq!(Handle::from_value(u64::MAX).get(), u64::MAX);
    assert_eq!(Handle::from_value(7), Handle::from_value(7));
    assert_ne!(Handle::from_value(7), Handle::from_value(8));
}

#[test]
fn minting_takes_the_first_free_draw() {
    let (mut db, accounts) = store_with(&["alice"]);
    let mut source = Scripted::new(&[11, 12]);
    let handle = Handle::new_with(&accounts[0], &mut db, &mut source).unwrap();
    assert_eq!(handle.get(), 11);
    assert_eq!(source.next, 1);
    assert!(handle.is_owned_by_user(accounts[0].id(), &db));
}

#[test]
fn minting_draws_again_after_a_collision() {
    let (mut db, accounts) = store_with(&["alice", "bob"]);
    let mut source = Scripted::new(&[5, 5, 5, 6, 7]);
    let first = Handle::new_with(&accounts[0], &mut db, &mut source).unwrap();
    assert_eq!(first.get(), 5);
    // 5 is drawn twice more and passed over, whoever asks.
    let second = Handle::new_with(&accounts[1], &mut db, &mut source).unwrap();
    assert_eq!(second.get(), 6);
    assert_eq!(source.next, 4);
    assert!(first.is_owned_by_user(accounts[0].id(), &db));
    assert!(!first.is_owned_by_user(accounts[1].id(), &db));
    assert!(second.is_owned_by_user(accounts[1].id(), &db));
    assert_eq!(db.handles().len(), 2);
}

#[test]
fn minting_for_a_stranger_ends_at_once() {
    let (mut db, accounts) = store_with(&["alice"]);
    db.add_handle_to_db(&accounts[0], 5).unwrap();
    let stranger = Account::new("mallory".to_string(), 99, Timestamp::new(0, 0).unwrap(), false, 0);
    // The first draw collides and is passed over; the second is refused for
    // the unknown owner, and nothing more is drawn.
    let mut source = Scripted::new(&[5, 6, 7]);
    assert!(Handle::new_with(&stranger, &mut db, &mut source).is_err());
    assert_eq!(source.next, 2);
    assert_eq!(db.handles().len(), 1);
}

#[test]
fn minted_handles_are_pairwise_distinct() {
    let (mut db, accounts) = store_with(&["alice", "bob", "carol"]);
    let mut seen = Vec::new();
    for round in 0..60 {
        let owner = &accounts[round % 3];
        let handle = Handle::new(owner, &mut db).unwrap();
        assert!(!seen.contains(&handle.get()));
        seen.push(handle.get());
    }
    assert_eq!(db.handles().len(), 60);
}

#[test]
fn minted_handles_are_distinct_under_a_repeating_source() {
    let (mut db, accounts) = store_with(&["alice", "bob"]);
    let mut source = Scripted::new(&[1, 1, 2, 1, 2, 3, 3, 2, 1, 4]);
    let mut seen = Vec::new();
    for round in 0..4 {
        let handle = Handle::new_with(&accounts[round % 2], &mut db, &mut source).unwrap();
        seen.push(handle.get());
    }
    assert_eq!(seen, vec![1, 2, 3, 4]);
}

#[test]
fn minted_handle_belongs_to_its_account_only() {
    let (mut db, accounts) = store_with(&["alice", "bob"]);
    let handle = Handle::new(&accounts[0], &mut db).unwrap();
    assert!(handle.is_owned_by_user(accounts[0].id(), &db));
    assert!(!handle.is_owned_by_user(accounts[1].id(), &db));
    assert!(!handle.is_owned_by_user(0, &db));
    assert!(!handle.is_owned_by_user(u64::MAX, &db));
    assert!(!Handle::from_value(handle.get().wrapping_add(1)).is_owned_by_user(accounts[0].id(), &db));
}

#[test]
fn delete_is_idempotent() {
    let (mut db, accounts) = store_with(&["alice", "bob"]);
    let handle = Handle::new(&accounts[0], &mut db).unwrap();
    let other = Handle::new(&accounts[1], &mut db).unwrap();

    assert_eq!(handle.delete(accounts[1].id(), &mut db), Ok(false));
    assert!(handle.is_owned_by_user(accounts[0].id(), &db));

    assert_eq!(handle.delete(accounts[0].id(), &mut db), Ok(true));
    assert!(!handle.is_owned_by_user(accounts[0].id(), &db));
    assert_eq!(handle.delete(accounts[0].id(), &mut db), Ok(false));
    assert!(!handle.is_owned_by_user(accounts[0].id(), &db));

    assert!(other.is_owned_by_user(accounts[1].id(), &db));
    assert_eq!(db.handles().len(), 1);
}

#[test]
fn listing_the_handles_of_an_account() {
    let (mut db, accounts) = store_with(&["alice", "bob"]);
    assert_eq!(Handle::get_all_for_user(accounts[0].id(), &db), Ok(vec![]));
    let mut source = Scripted::new(&[30, 10, 20]);
    let a = Handle::new_with(&accounts[0], &mut db, &mut source).unwrap();
    let b = Handle::new_with(&accounts[1], &mut db, &mut source).unwrap();
    let c = Handle::new_with(&accounts[0], &mut db, &mut source).unwrap();
    assert_eq!(Handle::get_all_for_user(accounts[0].id(), &db), Ok(vec![a, c]));
    assert_eq!(Handle::get_all_for_user(accounts[1].id(), &db), Ok(vec![b]));
    assert_eq!(Handle::get_all_for_user(12345, &db), Ok(vec![]));
}

#[test]
fn scenario_alice() {
    let mut db = Database::new();
    let alice = db.add_user("alice", "pw1").expect("the first alice is created");
    assert!(matches!(
        db.add_user("alice", "pw2"),
        Err(abuelo::database::UserCreationError::UsernameTaken)
    ));
    assert!(db.check_login("alice", "pw1"));
    assert!(!db.check_login("alice", "pw2"));

    let h1 = Handle::new(&alice, &mut db).unwrap();
    assert_eq!(Handle::get_all_for_user(alice.id(), &db), Ok(vec![h1]));
    assert_eq!(h1.delete(alice.id(), &mut db), Ok(true));
    assert_eq!(Handle::get_all_for_user(alice.id(), &db), Ok(vec![]));
}

#[test]
fn the_system_source_varies() {
    let mut source = SystemRandom;
    let draws: Vec<u64> = (0..8).map(|_| source.next_u64()).collect();
    assert!(draws.iter().any(|d| *d != draws[0]));
}

#[test]
fn the_draw_budget_is_the_whole_range() {
    assert_eq!(MAX_DRAWS, u64::MAX);
}
