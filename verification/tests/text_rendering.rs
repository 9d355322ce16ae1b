use mcp_alpine::text::{decimal_i32, decimal_u64, join_words};

#[test]
fn decimal_u64_matches_format() {
    for n in [0u64, 7, 10, 99, 100, 120, 1_000_000, u64::MAX] {
        assert_eq!(decimal_u64(n), format!("{}", n));
    }
}

#[test]
fn decimal_i32_matches_format() {
    for n in [0i32, 1, -1, -2, -3, -4, 42, -130, i32::MAX, i32::MIN] {
        assert_eq!(decimal_i32(n), format!("{}", n));
    }
}

#[test]
fn join_words_matches_std_join() {
    let cases: Vec<Vec<String>> = vec![
        vec![],
        vec!["curl".to_string()],
        vec!["curl".to_string(), "git".to_string(), "vim".to_string()],
        vec!["".to_string(), "a".to_string()],
    ];
    for words in cases {
        assert_eq!(join_words(&words, " "), words.join(" "));
    }
}
