// Integration-level tests: the rule grammar, the modifier priority order, and
// the action formats, exercised through the library's public functions.

use std::collections::HashMap;

use a1314_core::HidKey;
use a1314_core::actions::Action;
use a1314_core::bytes::strip_prefix_bytes;
use a1314_core::context::{select_context, ModContext};
use a1314_core::executor::{is_combo_modifier, parse_key};
use a1314_core::loader::{parse_rule_line, LineOutcome};

fn parse_line_action(line: &str) -> Option<(ModContext, HidKey, Action)> {
    match parse_rule_line(line.as_bytes()) {
        LineOutcome::Rule { ctx, key, action, .. } => Some((ctx, key, action)),
        _ => None,
    }
}

#[test]
fn test_hid_key_structure() {
    let key1 = HidKey { usage_page: 0x07, usage: 0x04 }; // A key
    let key2 = HidKey { usage_page: 0x07, usage: 0x04 }; // A key (duplicate)
    let key3 = HidKey { usage_page: 0x07, usage: 0x05 }; // B key

    assert_eq!(key1, key2);
    assert_ne!(key1, key3);

    // Test in HashMap
    let mut map = HashMap::new();
    map.insert(key1, "A");
    assert_eq!(map.get(&key2), Some(&"A"));
    assert_eq!(map.get(&key3), None);
}

#[test]
fn test_modifier_priority() {
    // Priority: EJECT+FN > EJECT > SHIFT > FN > NORMAL
    struct ModifierState {
        fn_down: bool,
        shift_down: bool,
        eject_down: bool,
    }

    let state1 = ModifierState { fn_down: false, shift_down: false, eject_down: false };
    let state2 = ModifierState { fn_down: true, shift_down: false, eject_down: false };
    let state3 = ModifierState { fn_down: false, shift_down: true, eject_down: false };
    let state4 = ModifierState { fn_down: false, shift_down: false, eject_down: true };
    let state5 = ModifierState { fn_down: true, shift_down: false, eject_down: true };

    fn get_priority(state: &ModifierState) -> u8 {
        match select_context(state.fn_down, state.shift_down, state.eject_down) {
            ModContext::EjectFn => 5, // Highest
            ModContext::Eject => 4,
            ModContext::Shift => 3,
            ModContext::FnLayer => 2,
            ModContext::Normal => 1, // Lowest
        }
    }

    assert_eq!(get_priority(&state1), 1); // NORMAL
    assert_eq!(get_priority(&state2), 2); // FN
    assert_eq!(get_priority(&state3), 3); // SHIFT
    assert_eq!(get_priority(&state4), 4); // EJECT
    assert_eq!(get_priority(&state5), 5); // EJECT+FN
}

#[test]
fn test_action_parsing() {
    let test_cases = vec![
        ("WIN+TAB", "KeyCombo"),
        ("RUN(\"calc.exe\")", "Run"),
        ("APPCOMMAND(8)", "AppCommand"),
        ("F1", "KeyCombo"),
        ("CTRL+SHIFT+ESC", "KeyCombo"),
    ];

    for (input, expected_type) in test_cases {
        let line = format!("KEY_A = {}", input);
        let (_, _, action) = parse_line_action(&line).unwrap();
        let parsed_type = match action {
            Action::KeyCombo(_) => "KeyCombo",
            Action::Run(_) => "Run",
            Action::AppCommand(_) => "AppCommand",
        };
        assert_eq!(parsed_type, expected_type);
    }
}

#[test]
fn test_key_combo_parsing() {
    fn parse_combo(combo: &str) -> (Vec<&str>, Option<&str>) {
        let parts: Vec<&str> = combo.split('+').map(|s| s.trim()).collect();
        let mut modifiers = Vec::new();
        let mut main_key = None;

        for part in &parts {
            if is_combo_modifier(part.as_bytes()) {
                modifiers.push(*part);
            } else {
                main_key = Some(*part);
            }
        }

        (modifiers, main_key)
    }

    let (mods, key) = parse_combo("CTRL+SHIFT+ESC");
    assert_eq!(mods.len(), 2);
    assert_eq!(key, Some("ESC"));

    let (mods, key) = parse_combo("WIN+TAB");
    assert_eq!(mods.len(), 1);
    assert_eq!(key, Some("TAB"));

    let (mods, key) = parse_combo("F1");
    assert_eq!(mods.len(), 0);
    assert_eq!(key, Some("F1"));
}

#[test]
fn test_hid_report_constants() {
    const NO_KEY: u8 = 0;
    const ERROR_ROLLOVER: u8 = 1;
    const RIM_TYPEHID: u32 = 2;

    assert_eq!(NO_KEY, 0);
    assert_eq!(ERROR_ROLLOVER, 1);
    assert_eq!(RIM_TYPEHID, 2);

    // Test key filtering logic
    let test_keys = vec![0u8, 1, 4, 5, 0, 1, 6];
    let valid_keys: Vec<u8> = test_keys
        .iter()
        .filter(|&&k| k != NO_KEY && k != ERROR_ROLLOVER)
        .copied()
        .collect();

    assert_eq!(valid_keys, vec![4, 5, 6]);
}

#[test]
fn test_virtual_key_parsing() {
    fn parse_vk_code(key: &str) -> u16 {
        let upper = key.to_uppercase();
        match upper.as_str() {
            "CTRL" => 0x11,
            "SHIFT" => 0x10,
            _ => parse_key(upper.as_bytes()),
        }
    }

    assert_eq!(parse_vk_code("A"), 0x41);
    assert_eq!(parse_vk_code("a"), 0x41); // Case insensitive
    assert_eq!(parse_vk_code("ESC"), 0x1B);
    assert_eq!(parse_vk_code("ESCAPE"), 0x1B);
    assert_eq!(parse_vk_code("F1"), 0x70);
    assert_eq!(parse_vk_code("UNKNOWN"), 0);
}

#[test]
fn integration_tests_test_run_command_extraction() {
    fn extract_run_path(action: &str) -> Option<String> {
        let line = format!("KEY_A = {}", action);
        match parse_line_action(&line) {
            Some((_, _, Action::Run(path))) => Some(String::from_utf8(path).unwrap()),
            _ => None,
        }
    }

    assert_eq!(
        extract_run_path("RUN(\"calc.exe\")"),
        Some("calc.exe".to_string())
    );
    assert_eq!(
        extract_run_path("RUN(\"C:\\Windows\\System32\\notepad.exe\")"),
        Some("C:\\Windows\\System32\\notepad.exe".to_string())
    );
    assert_eq!(extract_run_path("RUN(calc.exe)"), None); // Missing quotes
    assert_eq!(extract_run_path("WIN+TAB"), None); // Not a RUN command
}

#[test]
fn test_appcommand_extraction() {
    fn extract_appcommand(action: &str) -> Option<u32> {
        let line = format!("KEY_A = {}", action);
        match parse_line_action(&line) {
            Some((_, _, Action::AppCommand(n))) => Some(n),
            _ => None,
        }
    }

    assert_eq!(extract_appcommand("APPCOMMAND(8)"), Some(8));
    assert_eq!(extract_appcommand("APPCOMMAND(46)"), Some(46));
    assert_eq!(extract_appcommand("APPCOMMAND(abc)"), None); // Not a number
    assert_eq!(extract_appcommand("APPCOMMAND("), None); // Malformed
    assert_eq!(extract_appcommand("WIN+TAB"), None); // Not an APPCOMMAND
}

#[test]
fn test_mapping_line_variants() {
    let valid_lines = vec![
        "KEY_A = A",
        "KEY_A=A",
        "  KEY_A  =  A  ",
        "FN+KEY_A = F1",
        "LEFT_SHIFT+KEY_1 = !",
        "EJECT+FN+KEY_1 = RUN(\"calc.exe\")",
    ];

    for line in valid_lines {
        let trimmed = line.trim();
        let parts: Vec<&str> = trimmed.split('=').map(|s| s.trim()).collect();
        assert_eq!(parts.len(), 2, "Failed for line: {}", line);
        assert!(!parts[0].is_empty(), "LHS empty for line: {}", line);
        assert!(!parts[1].is_empty(), "RHS empty for line: {}", line);
        assert!(
            matches!(parse_rule_line(line.as_bytes()), LineOutcome::Rule { .. }),
            "Failed for line: {}",
            line
        );
    }
}

#[test]
fn test_comment_filtering() {
    let lines = vec![
        "# This is a comment",
        "KEY_A = A",
        "  # Another comment",
        "",
        "KEY_B = B",
        "### Header comment",
    ];

    let mut valid_lines: Vec<&str> = Vec::new();
    for l in &lines {
        let t = l.trim();
        if !matches!(parse_rule_line(t.as_bytes()), LineOutcome::Blank) {
            valid_lines.push(t);
        }
    }

    assert_eq!(valid_lines.len(), 2);
    assert_eq!(valid_lines[0], "KEY_A = A");
    assert_eq!(valid_lines[1], "KEY_B = B");
}

#[test]
fn test_modifier_detection() {
    fn has_modifier(key: &str, modifier: &str) -> bool {
        strip_prefix_bytes(key.as_bytes(), modifier.as_bytes()).is_some()
    }

    assert!(has_modifier("FN+KEY_A", "FN+"));
    assert!(has_modifier("LEFT_SHIFT+KEY_1", "LEFT_SHIFT+"));
    assert!(has_modifier("EJECT+KEY_M", "EJECT+"));
    assert!(!has_modifier("KEY_A", "FN+"));

    // Test combined modifiers
    let key = "EJECT+FN+KEY_1";
    let has_eject = key.contains("EJECT+");
    let has_fn = key.contains("FN+");
    assert!(has_eject && has_fn);
}

#[test]
fn test_log_level_parsing() {
    let levels = vec!["error", "warn", "info", "debug", "trace"];

    for level in levels {
        assert!(["error", "warn", "info", "debug", "trace"].contains(&level));
    }
}
