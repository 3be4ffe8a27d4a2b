// Unit tests for the individual components: report decoding, modifier state
// tracking, table selection, and the fixed dictionaries.

use std::collections::HashMap;
use std::path::PathBuf;

use a1314_core::HidKey;
use a1314_core::actions::{string_to_action, Action};
use a1314_core::decoder::{modifier_usage, parse_a1314_hid_report, DecoderState};
use a1314_core::executor::{is_combo_modifier, parse_key};
use a1314_core::keys::string_to_hid_key;
use a1314_core::loader::{parse_rule_line, LineOutcome};
use a1314_core::mapper::KeyMapper;

/// A mapper loaded with `rules`, with the given modifiers already pressed.
fn mapper_with(rules: &str, fn_down: bool, shift_down: bool, eject_down: bool) -> KeyMapper {
    let mut m = KeyMapper::new();
    m.load_mapping_text(rules.as_bytes());
    if fn_down {
        m.handle_hid_event(0xFF00, 0x0003, 1);
    }
    if shift_down {
        m.handle_hid_event(0x07, 0x00E1, 1);
    }
    if eject_down {
        m.handle_hid_event(0x0C, 0x00B8, 1);
    }
    m
}

fn extract_run_path_rule(action: &str) -> Option<String> {
    let line = format!("KEY_A = {}", action);
    match parse_rule_line(line.as_bytes()) {
        LineOutcome::Rule { action: Action::Run(path), .. } => {
            Some(String::from_utf8(path).unwrap())
        }
        _ => None,
    }
}

#[test]
fn test_modifier_byte_parsing() {
    // Test parsing modifier byte (byte 1 of standard keyboard report)
    let test_modifier_byte = 0b00000011u8; // LEFT_CTRL and LEFT_SHIFT pressed
    let mut pressed_modifiers: Vec<u16> = Vec::new();

    for bit in 0..8u16 {
        if test_modifier_byte & (1 << bit) != 0 {
            pressed_modifiers.push(modifier_usage(bit));
        }
    }

    assert_eq!(pressed_modifiers.len(), 2);
    assert!(pressed_modifiers.contains(&0xE0)); // LEFT_CTRL
    assert!(pressed_modifiers.contains(&0xE1)); // LEFT_SHIFT
}

#[test]
fn test_key_state_tracking() {
    let mut decoder = DecoderState::new();

    // Initial state - no keys pressed: an all-zero report yields no events
    let events = parse_a1314_hid_report(&mut decoder, &[0x01, 0, 0, 0, 0, 0, 0, 0]);
    assert_eq!(events.len(), 0);

    // Simulate key press: the A key appears in a key slot
    let events = parse_a1314_hid_report(&mut decoder, &[0x01, 0, 0, 0x04, 0, 0, 0, 0]);
    assert_eq!(events, vec![(0x07, 0x04, 1)]);

    // Simulate key release: the A key disappears again
    let events = parse_a1314_hid_report(&mut decoder, &[0x01, 0, 0, 0, 0, 0, 0, 0]);
    assert_eq!(events, vec![(0x07, 0x04, 0)]);
}

#[test]
fn test_report_id_detection() {
    let reports = vec![
        (vec![0x01, 0x00, 0x00, 0x04], "Standard Keyboard"),
        (vec![0x02, 0xB8, 0x00], "Consumer Control"),
        (vec![0x03, 0xCD, 0x00], "Consumer Control Alt"),
        (vec![0x05, 0x01], "Vendor Specific (Fn)"),
    ];

    for (report, report_type) in reports {
        let report_id = report[0];

        match report_id {
            0x01 => assert_eq!(report_type, "Standard Keyboard"),
            0x02 | 0x03 => assert!(report_type.contains("Consumer")),
            0x05 => assert!(report_type.contains("Vendor")),
            _ => panic!("Unknown report ID: {}", report_id),
        }
    }
}

#[test]
fn test_fn_key_state_extraction() {
    // The vendor report's bit 0 carries the function-layer state.
    fn fn_state(report: &[u8]) -> bool {
        let mut decoder = DecoderState::new();
        let events = parse_a1314_hid_report(&mut decoder, report);
        events.contains(&(0xFF00, 0x0003, 1))
    }

    let report_fn_pressed = vec![0x05, 0x01]; // Fn pressed (bit 0 set)
    let report_fn_released = vec![0x05, 0x00]; // Fn released

    assert_eq!(fn_state(&report_fn_pressed), true);
    assert_eq!(fn_state(&report_fn_released), false);
}

#[test]
fn test_consumer_usage_extraction() {
    let report = vec![0x02, 0xB8, 0x00]; // EJECT key (0x00B8)

    if report.len() >= 3 {
        let mut decoder = DecoderState::new();
        let events = parse_a1314_hid_report(&mut decoder, &report);
        assert_eq!(events, vec![(0x0C, 0x00B8, 1)]);
    } else {
        panic!("Report too short");
    }
}

#[test]
fn test_key_rollover_detection() {
    const ERROR_ROLLOVER: u8 = 1;

    let report_normal = vec![0x01, 0x00, 0x00, 0x04, 0x05, 0x06, 0x00, 0x00]; // A, B, C pressed
    let report_rollover = vec![0x01, 0x00, 0x00, 0x01, 0x01, 0x01, 0x01, 0x01]; // Error rollover

    // Check normal report
    let normal_keys: Vec<u8> = report_normal[3..8]
        .iter()
        .filter(|&&k| k != 0 && k != ERROR_ROLLOVER)
        .copied()
        .collect();
    assert_eq!(normal_keys.len(), 3);

    // Check rollover report
    let rollover_detected = report_rollover[3..8]
        .iter()
        .all(|&k| k == ERROR_ROLLOVER);
    assert_eq!(rollover_detected, true);
}

#[test]
fn test_normal_mapping() {
    let mapper = mapper_with("KEY_A = A", false, false, false);

    assert_eq!(
        mapper.try_trigger_mapping(0x07, 0x04, 1),
        Some(Action::KeyCombo(b"A".to_vec()))
    );
}

#[test]
fn test_fn_mapping() {
    let mapper = mapper_with("FN+F1 = BRIGHTNESS_DOWN", true, false, false);

    assert_eq!(
        mapper.try_trigger_mapping(0x07, 0x3A, 1),
        Some(Action::KeyCombo(b"BRIGHTNESS_DOWN".to_vec()))
    );
}

#[test]
fn test_shift_mapping() {
    let mapper = mapper_with("LEFT_SHIFT+KEY_1 = !", false, true, false);

    assert_eq!(
        mapper.try_trigger_mapping(0x07, 0x1E, 1),
        Some(Action::KeyCombo(b"!".to_vec()))
    );
}

#[test]
fn test_eject_mapping() {
    let mapper = mapper_with("EJECT+KEY_1 = RUN(\"calc.exe\")", false, false, true);

    assert_eq!(
        mapper.try_trigger_mapping(0x07, 0x1E, 1),
        Some(Action::Run(b"calc.exe".to_vec()))
    );
}

#[test]
fn test_modifier_state_tracking() {
    let mut mapper = KeyMapper::new();

    assert!(!mapper.is_fn_down() && !mapper.is_shift_down() && !mapper.is_eject_down());

    // Simulate Fn press
    mapper.handle_hid_event(0xFF00, 0x0003, 1);
    assert!(mapper.is_fn_down() && !mapper.is_shift_down() && !mapper.is_eject_down());

    // Simulate additional Shift press
    mapper.handle_hid_event(0x07, 0x00E1, 1);
    assert!(mapper.is_fn_down() && mapper.is_shift_down() && !mapper.is_eject_down());

    // Simulate Fn release
    mapper.handle_hid_event(0xFF00, 0x0003, 0);
    assert!(!mapper.is_fn_down() && mapper.is_shift_down() && !mapper.is_eject_down());

    // Simulate all release
    mapper.handle_hid_event(0x07, 0x00E1, 0);
    assert!(!mapper.is_fn_down() && !mapper.is_shift_down() && !mapper.is_eject_down());
}

#[test]
fn test_mapping_priority() {
    // The correct table is selected based on modifier state.
    let rules = "KEY_A = A\nFN+KEY_A = F1\nLEFT_SHIFT+KEY_A = SHIFT+A\nEJECT+KEY_A = EJECT+A\nEJECT+FN+KEY_A = EJECT+FN+A\n";

    fn select_mapping(rules: &str, fn_down: bool, shift_down: bool, eject_down: bool) -> Option<String> {
        let mapper = mapper_with(rules, fn_down, shift_down, eject_down);
        match mapper.try_trigger_mapping(0x07, 0x04, 1) {
            Some(Action::KeyCombo(s)) => Some(String::from_utf8(s).unwrap()),
            _ => None,
        }
    }

    assert_eq!(select_mapping(rules, false, false, false), Some("A".to_string()));
    assert_eq!(select_mapping(rules, true, false, false), Some("F1".to_string()));
    assert_eq!(select_mapping(rules, false, true, false), Some("SHIFT+A".to_string()));
    assert_eq!(select_mapping(rules, false, false, true), Some("EJECT+A".to_string()));
    assert_eq!(select_mapping(rules, true, false, true), Some("EJECT+FN+A".to_string()));
}

#[test]
fn test_key_combo_splitting() {
    let combo = "CTRL+SHIFT+ESC";
    let parts: Vec<&str> = combo.split('+').map(|s| s.trim()).collect();

    assert_eq!(parts.len(), 3);
    assert_eq!(parts[0], "CTRL");
    assert_eq!(parts[1], "SHIFT");
    assert_eq!(parts[2], "ESC");
}

#[test]
fn test_modifier_identification() {
    fn is_modifier(key: &str) -> bool {
        is_combo_modifier(key.as_bytes())
    }

    assert!(is_modifier("CTRL"));
    assert!(is_modifier("shift"));
    assert!(is_modifier("ALT"));
    assert!(is_modifier("WIN"));
    assert!(!is_modifier("A"));
    assert!(!is_modifier("F1"));
}

#[test]
fn test_virtual_key_lookup() {
    fn get_vk_code(key: &str) -> u16 {
        parse_key(key.to_uppercase().as_bytes())
    }

    assert_eq!(get_vk_code("ESC"), 0x1B);
    assert_eq!(get_vk_code("TAB"), 0x09);
    assert_eq!(get_vk_code("A"), 0x41);
    assert_eq!(get_vk_code("UNKNOWN"), 0);
}

#[test]
fn unit_tests_test_run_command_extraction() {
    assert_eq!(
        extract_run_path_rule("RUN(\"calc.exe\")"),
        Some("calc.exe".to_string())
    );
    assert_eq!(
        extract_run_path_rule("RUN(\"C:\\Windows\\notepad.exe\")"),
        Some("C:\\Windows\\notepad.exe".to_string())
    );
    assert_eq!(extract_run_path_rule("WIN+TAB"), None);
}

#[test]
fn test_appcommand_number_extraction() {
    fn extract_command_number(action: &str) -> Option<u32> {
        let line = format!("KEY_A = {}", action);
        match parse_rule_line(line.as_bytes()) {
            LineOutcome::Rule { action: Action::AppCommand(n), .. } => Some(n),
            _ => None,
        }
    }

    assert_eq!(extract_command_number("APPCOMMAND(8)"), Some(8));
    assert_eq!(extract_command_number("APPCOMMAND(46)"), Some(46));
    assert_eq!(extract_command_number("APPCOMMAND(invalid)"), None);
}

#[test]
fn test_string_to_hid_key_mapping() {
    assert_eq!(
        string_to_hid_key(b"KEY_A"),
        Some(HidKey { usage_page: 0x07, usage: 0x0004 })
    );
    assert_eq!(
        string_to_hid_key(b"EJECT"),
        Some(HidKey { usage_page: 0x0C, usage: 0x00B8 })
    );
    assert_eq!(string_to_hid_key(b"UNKNOWN"), None);
}

#[test]
fn test_string_to_action_mapping() {
    assert_eq!(
        string_to_action(b"WIN+TAB"),
        Some(Action::KeyCombo(b"WIN+TAB".to_vec()))
    );
    assert_eq!(string_to_action(b"A"), Some(Action::KeyCombo(b"A".to_vec())));
    assert_eq!(string_to_action(b"UNKNOWN"), None);
}

#[test]
fn test_usage_page_ranges() {
    let keyboard_key = HidKey { usage_page: 0x07, usage: 0x04 };
    let consumer_key = HidKey { usage_page: 0x0C, usage: 0xB8 };
    let vendor_key = HidKey { usage_page: 0xFF00, usage: 0x03 };

    assert_eq!(keyboard_key.usage_page, 0x07); // Keyboard/Keypad
    assert_eq!(consumer_key.usage_page, 0x0C); // Consumer
    assert_eq!(vendor_key.usage_page, 0xFF00); // Vendor-specific
}

#[test]
fn test_shifted_symbol_mapping() {
    let mut map = HashMap::new();

    map.insert("!", "SHIFT+1");
    map.insert("@", "SHIFT+2");
    map.insert("_", "SHIFT+MINUS");
    map.insert("+", "SHIFT+EQUALS");

    assert_eq!(map.get("!"), Some(&"SHIFT+1"));
    assert_eq!(map.get("_"), Some(&"SHIFT+MINUS"));
}

#[test]
fn test_path_join() {
    let base = PathBuf::from("C:\\Program Files");
    let joined = base.join("A1314Daemon");

    assert!(joined.to_string_lossy().contains("A1314Daemon"));
}

#[test]
fn test_log_level_priority() {
    // Test log level ordering (lower number = higher priority)
    const ERROR: u8 = 1;
    const WARN: u8 = 2;
    const INFO: u8 = 3;
    const DEBUG: u8 = 4;
    const TRACE: u8 = 5;

    assert!(ERROR < WARN);
    assert!(WARN < INFO);
    assert!(INFO < DEBUG);
    assert!(DEBUG < TRACE);
}

#[test]
fn test_log_message_format() {
    let timestamp = "2024-01-31 14:32:15.123";
    let level = "INFO";
    let message = "Daemon starting";

    let formatted = format!("{} [{}] {}", timestamp, level, message);

    assert!(formatted.contains(timestamp));
    assert!(formatted.contains(level));
    assert!(formatted.contains(message));
}
