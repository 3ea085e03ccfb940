use fundamentals::bank::{Account, Bank};

#[test]
fn bank_aggregation() {
    let mut bank = Bank::new();
    let mut alice = Account::new(1, String::from("alice"));
    let mut bob = Account::new(2, String::from("bob"));
    alice.deposit(100);
    bob.deposit(50);
    bob.withdraw(20);
    bank.add_account(alice);
    bank.add_account(bob);
    assert_eq!(bank.total_balance(), 130);
    assert_eq!(
        bank.summary(),
        vec![String::from("alice has a balance 100"), String::from("bob has a balance 30")]
    );
}

#[test]
fn account_arithmetic() {
    let mut a = Account::new(1, String::from("me"));
    assert_eq!(a.deposit(1234), 1234);
    assert_eq!(a.withdraw(1233), 1);
    assert_eq!(a.balance(), 1);
}

#[test]
fn empty_bank() {
    let bank = Bank::new();
    assert_eq!(bank.total_balance(), 0);
    assert_eq!(bank.summary(), Vec::<String>::new());
}

#[test]
fn negative_balance_permitted() {
    let mut a = Account::new(7, String::from("carol"));
    assert_eq!(a.withdraw(5), -5);
    assert_eq!(a.summary(), "carol has a balance -5");
}

#[test]
fn new_account_fields() {
    let a = Account::new(42, String::from("dave"));
    assert_eq!(a.id(), 42);
    assert_eq!(a.holder(), "dave");
    assert_eq!(a.balance(), 0);
    assert_eq!(a.summary(), "dave has a balance 0");
}

#[test]
fn deposit_wraps_on_overflow() {
    let mut a = Account::new(1, String::from("x"));
    a.deposit(i32::MAX);
    assert_eq!(a.deposit(1), i32::MIN);
    assert_eq!(a.withdraw(1), i32::MAX);
}

#[test]
fn summary_of_extreme_balance() {
    let mut a = Account::new(1, String::from("x"));
    a.withdraw(i32::MAX);
    a.withdraw(1);
    assert_eq!(a.summary(), "x has a balance -2147483648");
}

#[test]
fn total_balance_wraps() {
    let mut bank = Bank::new();
    let mut a = Account::new(1, String::from("a"));
    let mut b = Account::new(2, String::from("b"));
    a.deposit(i32::MAX);
    b.deposit(2);
    bank.add_account(a);
    bank.add_account(b);
    assert_eq!(bank.total_balance(), i32::MIN + 1);
}

#[test]
fn net_of_mixed_movements() {
    let mut a = Account::new(1, String::from("a"));
    a.deposit(10);
    a.withdraw(3);
    a.deposit(25);
    a.withdraw(40);
    assert_eq!(a.balance(), 10 + 25 - 3 - 40);
}

#[test]
fn summaries_follow_insertion_order() {
    let mut bank = Bank::new();
    for (i, name) in ["p", "q", "r"].iter().enumerate() {
        let mut a = Account::new(i as u32, String::from(*name));
        a.deposit(i as i32 * 10);
        bank.add_account(a);
    }
    let s = bank.summary();
    assert_eq!(s.len(), 3);
    assert_eq!(s[0], "p has a balance 0");
    assert_eq!(s[1], "q has a balance 10");
    assert_eq!(s[2], "r has a balance 20");
    assert_eq!(bank.total_balance(), 30);
}

#[test]
fn duplicate_ids_allowed() {
    let mut bank = Bank::new();
    bank.add_account(Account::new(1, String::from("a")));
    bank.add_account(Account::new(1, String::from("b")));
    assert_eq!(bank.summary().len(), 2);
}
