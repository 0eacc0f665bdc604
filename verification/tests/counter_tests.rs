use hoarder::counter::{push_suffix_token, NameCounter};
use hoarder::text::string_of;

fn token(suffix: u64) -> String {
    let mut out = Vec::new();
    push_suffix_token(&mut out, suffix);
    string_of(&out)
}

#[test]
fn first_observation_gets_one() {
    let mut counter = NameCounter::new();
    assert_eq!(counter.seen("20230615"), 0);
    assert_eq!(counter.next_suffix("20230615"), 1);
    assert_eq!(counter.seen("20230615"), 1);
}

#[test]
fn numbers_of_one_key_are_one_to_n() {
    let mut counter = NameCounter::new();
    let keys = ["a", "b", "a", "c", "a", "b", "a"];
    let mut of_a = Vec::new();
    let mut of_b = Vec::new();
    for key in keys {
        let n = counter.next_suffix(key);
        if key == "a" {
            of_a.push(n);
        }
        if key == "b" {
            of_b.push(n);
        }
    }
    assert_eq!(of_a, vec![1, 2, 3, 4]);
    assert_eq!(of_b, vec![1, 2]);
    assert_eq!(counter.seen("c"), 1);
    assert_eq!(counter.seen("d"), 0);
    assert_eq!(counter.total(), 7);
}

#[test]
fn order_of_the_files_does_not_change_the_numbers() {
    let mut forward = NameCounter::new();
    let mut backward = NameCounter::new();
    let keys = ["x", "y", "x", "x", "y"];
    let mut a: Vec<(String, u64)> = Vec::new();
    let mut b: Vec<(String, u64)> = Vec::new();
    for key in keys {
        a.push((key.to_string(), forward.next_suffix(key)));
    }
    for key in keys.iter().rev() {
        b.push((key.to_string(), backward.next_suffix(key)));
    }
    a.sort();
    b.sort();
    assert_eq!(a, b);
}

#[test]
fn first_file_gets_no_token() {
    assert_eq!(token(0), "");
    assert_eq!(token(1), "");
}

#[test]
fn later_files_get_two_digits() {
    assert_eq!(token(2), "-02");
    assert_eq!(token(9), "-09");
    assert_eq!(token(10), "-10");
    assert_eq!(token(99), "-99");
}

#[test]
fn token_grows_from_the_hundredth_file() {
    assert_eq!(token(100), "-100");
    assert_eq!(token(1234), "-1234");
}
