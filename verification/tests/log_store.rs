use mcp_alpine::log::{LogEntry, LogStore, MAX_ENTRIES};
use mcp_alpine::web::{api_logs, LogsQuery};

fn entry(command: &str, exit_code: i32) -> LogEntry {
    LogEntry {
        id: 0,
        time: "2024-01-01T00:00:00+00:00".to_string(),
        command: command.to_string(),
        stdout: format!("out of {}", command),
        stderr: String::new(),
        exit_code,
        duration_ms: 3,
    }
}

fn ids(entries: &[LogEntry]) -> Vec<u64> {
    entries.iter().map(|e| e.id).collect()
}

#[test]
fn new_store_is_empty() {
    let store = LogStore::new();
    assert!(store.all().is_empty());
    assert!(store.since(0).is_empty());
}

#[test]
fn push_numbers_entries_from_one() {
    let mut store = LogStore::new();
    store.push(entry("a", 0));
    store.push(entry("b", 1));
    store.push(entry("c", 2));
    let all = store.all();
    assert_eq!(ids(&all), vec![1, 2, 3]);
    assert_eq!(all[1].command, "b");
    assert_eq!(all[1].stdout, "out of b");
    assert_eq!(all[1].exit_code, 1);
    assert_eq!(all[1].duration_ms, 3);
}

#[test]
fn push_ignores_the_given_id() {
    let mut store = LogStore::new();
    let mut e = entry("x", 0);
    e.id = 77;
    store.push(e);
    assert_eq!(ids(&store.all()), vec![1]);
}

#[test]
fn since_returns_only_newer_entries_in_order() {
    let mut store = LogStore::new();
    for name in ["a", "b", "c", "d"] {
        store.push(entry(name, 0));
    }
    assert_eq!(ids(&store.since(2)), vec![3, 4]);
    assert_eq!(ids(&store.since(0)), vec![1, 2, 3, 4]);
    assert!(store.since(4).is_empty());
    assert!(store.since(1000).is_empty());
}

#[test]
fn store_keeps_only_the_most_recent_entries() {
    let mut store = LogStore::new();
    for i in 0..(MAX_ENTRIES + 5) {
        store.push(entry(&format!("cmd{}", i), 0));
        assert!(store.all().len() <= MAX_ENTRIES);
    }
    let all = store.all();
    assert_eq!(all.len(), MAX_ENTRIES);
    assert_eq!(all[0].id, 6);
    assert_eq!(all[0].command, "cmd5");
    assert_eq!(all[MAX_ENTRIES - 1].id, (MAX_ENTRIES + 5) as u64);
}

#[test]
fn full_store_drops_only_the_oldest() {
    let mut store = LogStore::new();
    for i in 0..MAX_ENTRIES {
        store.push(entry(&format!("cmd{}", i), 0));
    }
    let before = ids(&store.all());
    store.push(entry("new", 0));
    let after = ids(&store.all());
    assert_eq!(&after[..MAX_ENTRIES - 1], &before[1..]);
    assert_eq!(after[MAX_ENTRIES - 1], MAX_ENTRIES as u64 + 1);
}

#[test]
fn polling_sees_exactly_the_new_entry() {
    let mut store = LogStore::new();
    store.push(entry("a", 0));
    store.push(entry("b", 0));
    let last_seen = store.all().last().unwrap().id;
    store.push(entry("c", 5));
    let fresh = store.since(last_seen);
    assert_eq!(fresh.len(), 1);
    assert_eq!(fresh[0].id, 3);
    assert_eq!(fresh[0].command, "c");
    assert_eq!(fresh[0].exit_code, 5);
}

#[test]
fn ids_stay_ascending() {
    let mut store = LogStore::new();
    for i in 0..(MAX_ENTRIES * 2) {
        store.push(entry(&format!("{}", i), 0));
    }
    let got = ids(&store.all());
    assert!(got.windows(2).all(|w| w[0] < w[1]));
}

#[test]
fn clone_keeps_every_field() {
    let e = entry("copy me", -4);
    let c = e.clone();
    assert_eq!(c.id, e.id);
    assert_eq!(c.time, e.time);
    assert_eq!(c.command, e.command);
    assert_eq!(c.stdout, e.stdout);
    assert_eq!(c.stderr, e.stderr);
    assert_eq!(c.exit_code, e.exit_code);
    assert_eq!(c.duration_ms, e.duration_ms);
}

#[test]
fn api_logs_without_since_gives_all() {
    let mut store = LogStore::new();
    store.push(entry("a", 0));
    store.push(entry("b", 0));
    let got = api_logs(&store, &LogsQuery { since: None });
    assert_eq!(ids(&got), vec![1, 2]);
}

#[test]
fn api_logs_with_since_gives_newer() {
    let mut store = LogStore::new();
    store.push(entry("a", 0));
    store.push(entry("b", 0));
    store.push(entry("c", 0));
    let got = api_logs(&store, &LogsQuery { since: Some(1) });
    assert_eq!(ids(&got), vec![2, 3]);
    let none = api_logs(&store, &LogsQuery { since: Some(3) });
    assert!(none.is_empty());
}
