use installer::settings::{merge_hook_entries, merge_hooks, EventValue};

fn entries(v: &[&str]) -> EventValue {
    EventValue::Entries(v.iter().map(|s| s.to_string()).collect())
}

fn entries_of(events: &[(String, EventValue)], name: &str) -> Vec<String> {
    match events.iter().find(|(n, _)| n == name).map(|(_, v)| v) {
        Some(EventValue::Entries(e)) => e.clone(),
        _ => panic!("no entries for {}", name),
    }
}

#[test]
fn merging_hook_with_other_command_keeps_both() {
    let a = r#"{"hooks":[{"command":"A","type":"command"}]}"#;
    let b = r#"{"hooks":[{"command":"B","type":"command"}]}"#;
    let mut dest = vec![("UserPromptSubmit".to_string(), entries(&[b]))];
    let source = vec![("UserPromptSubmit".to_string(), entries(&[a]))];
    merge_hooks(&mut dest, &source);
    assert_eq!(dest.len(), 1);
    assert_eq!(entries_of(&dest, "UserPromptSubmit"), vec![b.to_string(), a.to_string()]);
}

#[test]
fn merging_same_hook_twice_adds_nothing() {
    let a = r#"{"hooks":[{"command":"A","type":"command"}]}"#;
    let mut dest = vec![("Stop".to_string(), entries(&[a]))];
    let source = vec![("Stop".to_string(), entries(&[a, a]))];
    merge_hooks(&mut dest, &source);
    assert_eq!(entries_of(&dest, "Stop"), vec![a.to_string()]);
}

#[test]
fn new_event_is_added_and_other_values_kept() {
    let mut dest = vec![("Odd".to_string(), EventValue::Other("true".to_string()))];
    let source = vec![
        ("Odd".to_string(), entries(&["x"])),
        ("PreToolUse".to_string(), entries(&["y"])),
    ];
    merge_hooks(&mut dest, &source);
    assert_eq!(dest.len(), 2);
    assert!(matches!(&dest[0].1, EventValue::Other(t) if t == "true"));
    assert_eq!(dest[1].0, "PreToolUse");
    assert_eq!(entries_of(&dest, "PreToolUse"), vec!["y".to_string()]);
}

#[test]
fn entry_merge_appends_in_order() {
    let mut dest = vec!["1".to_string(), "2".to_string()];
    merge_hook_entries(&mut dest, &vec!["3".to_string(), "1".to_string(), "4".to_string()]);
    assert_eq!(dest, vec!["1", "2", "3", "4"]);
}
