use ovenmitts::is_valid_username;
use regex::Regex;

#[test]
fn valid_usernames() {
    for name in ["alice", "abcd", "A_b_9", "____", "a234567890123456789012345", "ALICE", "0000"] {
        assert!(is_valid_username(name), "{}", name);
    }
}

#[test]
fn invalid_usernames() {
    for name in [
        "", "a", "abc", "a2345678901234567890123456", "bad name", "bad-name", "alice!", "ali\nce",
        "alice\n", "älice", "алиса", "名前名前", "a.b.c", " alice", "alice ", "ab\u{0}cd",
    ] {
        assert!(!is_valid_username(name), "{:?}", name);
    }
}

#[test]
fn length_bounds_are_counted_in_characters() {
    assert!(!is_valid_username(&"x".repeat(3)));
    assert!(is_valid_username(&"x".repeat(4)));
    assert!(is_valid_username(&"x".repeat(25)));
    assert!(!is_valid_username(&"x".repeat(26)));
    assert!(!is_valid_username("éé"));
}

#[test]
fn agrees_with_the_pattern() {
    let pattern = Regex::new("^[a-zA-Z0-9_]{4,25}$").unwrap();
    let alphabet = ['a', 'Z', '0', '_', ' ', '-', 'é', '\n', '$', '^'];
    let mut samples: Vec<String> = vec![String::new()];
    for len in 1..=5 {
        for start in 0..alphabet.len() {
            let s: String = (0..len).map(|i| alphabet[(start + i * 3) % alphabet.len()]).collect();
            samples.push(s);
        }
    }
    for len in [3usize, 4, 24, 25, 26, 40] {
        samples.push("a".repeat(len));
        samples.push(format!("{}{}", "b".repeat(len - 1), "\n"));
        samples.push(format!("{}{}", "_".repeat(len - 1), "é"));
    }
    for s in samples {
        assert_eq!(is_valid_username(&s), pattern.is_match(&s), "{:?}", s);
    }
}
