use fundamentals::container::{add_string, Basket, Container};
use fundamentals::deck::Deck;
use fundamentals::lists::{
    explode, find_color_or, last_language, longest_language, move_elements, next_language,
    shorten_strings, to_uppercase,
};
use fundamentals::text::{contains, extract_errors, string_test, validate_email};

fn strings(v: &[&str]) -> Vec<String> {
    v.iter().map(|s| s.to_string()).collect()
}

#[test]
fn basket_holds_one_item() {
    let mut b = Basket::new(10);
    assert!(!b.is_empty());
    assert_eq!(b.get(), Some(10));
    assert!(b.is_empty());
    assert_eq!(b.get(), None);
    b.put(3);
    b.put(4);
    assert_eq!(b.get(), Some(4));
}

#[test]
fn add_string_puts_into_basket() {
    let mut b = Basket::new(String::from("hi there"));
    add_string(&mut b, String::from("hi"));
    assert_eq!(b.get(), Some(String::from("hi")));
}

#[test]
fn new_deck_order() {
    let deck = Deck::new();
    assert_eq!(deck.cards.len(), 9);
    assert_eq!(deck.cards[0], "Ace of Hearts");
    assert_eq!(deck.cards[1], "Two of Hearts");
    assert_eq!(deck.cards[5], "Three of Spades");
    assert_eq!(deck.cards[8], "Three of Diamonds");
}

#[test]
fn deal_takes_top_cards() {
    let mut deck = Deck::new();
    let cards = deck.deal(3);
    assert_eq!(cards, strings(&["Ace of Diamonds", "Two of Diamonds", "Three of Diamonds"]));
    assert_eq!(deck.cards.len(), 6);
    assert_eq!(deck.deal(0), Vec::<String>::new());
}

#[test]
fn shuffle_keeps_cards() {
    let mut deck = Deck::new();
    let mut before = deck.cards.clone();
    deck.shuffle();
    let mut after = deck.cards.clone();
    before.sort();
    after.sort();
    assert_eq!(before, after);
}

#[test]
fn email_validation() {
    assert!(validate_email(String::from("abc@234.com")).is_ok());
    assert_eq!(validate_email(String::from("abc.com")), Err(String::from("emails must have an @")));
    assert!(validate_email(String::new()).is_err());
}

#[test]
fn substring_search() {
    assert!(contains("green", "ee"));
    assert!(contains("green", ""));
    assert!(!contains("red", "reds"));
    assert!(contains("héllo", "llo"));
    string_test(String::from("red"), &String::from("red"), "red");
}

#[test]
fn error_lines_are_extracted() {
    let text = "ERROR one\nINFO two\nERROR three\nwarn ERROR\nERROR";
    assert_eq!(extract_errors(text), strings(&["ERROR one", "ERROR three", "ERROR"]));
    assert_eq!(extract_errors(""), Vec::<String>::new());
    assert_eq!(extract_errors("ERR\n\nERROR\n"), strings(&["ERROR"]));
}

#[test]
fn shorten_keeps_first_char() {
    let mut colors = strings(&["red", "green", "blue", ""]);
    shorten_strings(&mut colors[1..4]);
    assert_eq!(colors, strings(&["red", "g", "b", ""]));
}

#[test]
fn uppercase_each() {
    assert_eq!(to_uppercase(&strings(&["red", "Go"])), strings(&["RED", "GO"]));
    assert_eq!(to_uppercase(&[]), Vec::<String>::new());
}

#[test]
fn move_appends_in_order() {
    let mut b = strings(&["x"]);
    move_elements(strings(&["y", "z"]), &mut b);
    assert_eq!(b, strings(&["x", "y", "z"]));
}

#[test]
fn explode_into_chars() {
    let r = explode(&strings(&["ab", "", "c"]));
    assert_eq!(r, vec![strings(&["a", "b"]), vec![], strings(&["c"])]);
}

#[test]
fn find_color_or_fallback() {
    let colors = strings(&["red", "green", "blue"]);
    assert_eq!(find_color_or(&colors, "asdfasdf", "Orange"), "Orange");
    assert_eq!(find_color_or(&colors, "e", "Orange"), "red");
    assert_eq!(find_color_or(&colors, "lu", "Orange"), "blue");
}

#[test]
fn next_language_cases() {
    let langs = strings(&["rust", "go", "typescript"]);
    assert_eq!(next_language(&langs, "go"), "typescript");
    assert_eq!(next_language(&langs, "rust"), "go");
    assert_eq!(next_language(&langs, "typescript"), "typescript");
    assert_eq!(next_language(&langs, "java"), "typescript");
    assert_eq!(last_language(&langs), "typescript");
}

#[test]
fn longest_language_cases() {
    assert_eq!(longest_language("123456", "go"), "123456");
    assert_eq!(longest_language("go", "rust"), "rust");
    assert_eq!(longest_language("ab", "cd"), "ab");
}
