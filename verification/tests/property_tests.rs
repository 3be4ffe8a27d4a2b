// Scenario tests for the decoder's event semantics, the loader's counting and
// replacement behaviour, and the executor's operation plans.

use a1314_core::actions::Action;
use a1314_core::decoder::{parse_a1314_hid_report, DecoderState};
use a1314_core::executor::{app_command_lparam, execute_action, HostOp};
use a1314_core::mapper::KeyMapper;

#[test]
fn test_standard_report_two_presses() {
    // Format A, left-shift bit set, key usage 0x04 held, on a fresh decoder:
    // exactly two press events, the left-shift identity and the key itself.
    let mut decoder = DecoderState::new();
    let events = parse_a1314_hid_report(&mut decoder, &[0x01, 0x02, 0x00, 0x04, 0, 0, 0, 0]);

    assert_eq!(events.len(), 2);
    assert!(events.contains(&(0x07, 0xE1, 1)));
    assert!(events.contains(&(0x07, 0x04, 1)));
}

#[test]
fn test_fn_layer_resolution() {
    // With `FN+KEY_A = F1` only: function-layer down then a press of the A
    // key resolves to F1; the same press without the layer resolves to none.
    let mut mapper = KeyMapper::new();
    mapper.load_mapping_text(b"FN+KEY_A = F1");

    mapper.handle_hid_event(0xFF00, 0x0003, 1);
    assert_eq!(
        mapper.handle_hid_event(0x07, 0x04, 1),
        Some(Action::KeyCombo(b"F1".to_vec()))
    );

    mapper.handle_hid_event(0xFF00, 0x0003, 0);
    assert_eq!(mapper.handle_hid_event(0x07, 0x04, 1), None);
}

#[test]
fn test_unknown_report_momentary_press() {
    // An unknown report format yields exactly one press for usage page
    // 0x000C, usage 0x07, and no release ever, on this or any later call.
    let mut decoder = DecoderState::new();
    let report = [0x09, 0x0C, 0x00, 0x07];

    let events = parse_a1314_hid_report(&mut decoder, &report);
    assert_eq!(events, vec![(0x000C, 0x07, 1)]);

    // The same report again gives the same single press, never a release.
    let events = parse_a1314_hid_report(&mut decoder, &report);
    assert_eq!(events, vec![(0x000C, 0x07, 1)]);

    // An all-zero keyboard report afterwards releases nothing: the momentary
    // press never touched the held set.
    let events = parse_a1314_hid_report(&mut decoder, &[0x01, 0, 0, 0, 0, 0, 0, 0]);
    assert_eq!(events.len(), 0);
}

#[test]
fn test_no_duplicate_events_while_held() {
    // A key code held across consecutive reports draws one press when it
    // appears, nothing while it stays, and one release when it goes.
    let mut decoder = DecoderState::new();

    let events = parse_a1314_hid_report(&mut decoder, &[0x01, 0, 0, 0x1E, 0, 0, 0, 0]);
    assert_eq!(events, vec![(0x07, 0x1E, 1)]);

    let events = parse_a1314_hid_report(&mut decoder, &[0x01, 0, 0, 0x1E, 0, 0, 0, 0]);
    assert_eq!(events.len(), 0);

    let events = parse_a1314_hid_report(&mut decoder, &[0x01, 0, 0, 0, 0, 0, 0, 0]);
    assert_eq!(events, vec![(0x07, 0x1E, 0)]);
}

#[test]
fn test_redecoding_same_report_is_silent() {
    // Decoding a stateful report twice in a row: a press burst, then nothing.
    let mut decoder = DecoderState::new();
    let report = [0x01, 0x05, 0x00, 0x04, 0x05, 0x00, 0x00, 0x00];

    let first = parse_a1314_hid_report(&mut decoder, &report);
    assert_eq!(first.len(), 4); // two modifier bits, two key slots
    assert!(first.iter().all(|e| e.2 == 1));

    let second = parse_a1314_hid_report(&mut decoder, &report);
    assert_eq!(second.len(), 0);
}

#[test]
fn test_consumer_release_inferred() {
    // A consumer control is held, not momentary: its release is inferred
    // from the next consumer report that no longer shows it.
    let mut decoder = DecoderState::new();

    let events = parse_a1314_hid_report(&mut decoder, &[0x02, 0xB8, 0x00]);
    assert_eq!(events, vec![(0x0C, 0xB8, 1)]);

    let events = parse_a1314_hid_report(&mut decoder, &[0x02, 0x00, 0x00]);
    assert_eq!(events, vec![(0x0C, 0xB8, 0)]);
}

#[test]
fn test_vendor_report_fn_and_eject_bits() {
    // The second vendor variant carries the function layer at bit 4 and
    // eject at bit 3.
    let mut decoder = DecoderState::new();
    let events = parse_a1314_hid_report(&mut decoder, &[0x11, 0x18]);

    assert_eq!(events.len(), 2);
    assert!(events.contains(&(0xFF00, 0x0003, 1)));
    assert!(events.contains(&(0x0C, 0x00B8, 1)));

    // Dropping both bits releases both.
    let events = parse_a1314_hid_report(&mut decoder, &[0x11, 0x00]);
    assert_eq!(events.len(), 2);
    assert!(events.contains(&(0xFF00, 0x0003, 0)));
    assert!(events.contains(&(0x0C, 0x00B8, 0)));
}

#[test]
fn test_vendor_first_variant_fn_bit() {
    // The first vendor variant carries the function layer at bit 0; it has
    // no eject bit, so bit 3 means nothing there.
    let mut decoder = DecoderState::new();
    let events = parse_a1314_hid_report(&mut decoder, &[0x05, 0x09]);
    assert_eq!(events, vec![(0xFF00, 0x0003, 1)]);
}

#[test]
fn test_short_reports_rejected() {
    // A report shorter than its format's minimum is rejected outright: no
    // events, no change to the held set.
    let mut decoder = DecoderState::new();
    parse_a1314_hid_report(&mut decoder, &[0x01, 0, 0, 0x04, 0, 0, 0, 0]);

    assert_eq!(parse_a1314_hid_report(&mut decoder, &[0x01, 0x02, 0x00]).len(), 0);
    assert_eq!(parse_a1314_hid_report(&mut decoder, &[0x02, 0xB8]).len(), 0);
    assert_eq!(parse_a1314_hid_report(&mut decoder, &[0x09, 0x0C]).len(), 0);
    assert_eq!(parse_a1314_hid_report(&mut decoder, &[0x42]).len(), 0);

    // The key held before is still held: releasing it still works.
    let events = parse_a1314_hid_report(&mut decoder, &[0x01, 0, 0, 0, 0, 0, 0, 0]);
    assert_eq!(events, vec![(0x07, 0x04, 0)]);
}

#[test]
fn test_momentary_zero_usage_ignored() {
    let mut decoder = DecoderState::new();
    let events = parse_a1314_hid_report(&mut decoder, &[0x09, 0x0C, 0x00, 0x00]);
    assert_eq!(events.len(), 0);
}

#[test]
fn test_rollover_codes_ignored() {
    // Slot codes 0 and 1 never become keys, even mixed with real codes.
    let mut decoder = DecoderState::new();
    let events = parse_a1314_hid_report(&mut decoder, &[0x01, 0, 0, 0x01, 0x01, 0x04, 0x00, 0x01]);
    assert_eq!(events, vec![(0x07, 0x04, 1)]);
}

#[test]
fn test_duplicate_slot_codes_collapse() {
    // The same code in two slots is one held key: one press, one release.
    let mut decoder = DecoderState::new();
    let events = parse_a1314_hid_report(&mut decoder, &[0x01, 0, 0, 0x04, 0x04, 0, 0, 0]);
    assert_eq!(events, vec![(0x07, 0x04, 1)]);

    let events = parse_a1314_hid_report(&mut decoder, &[0x01, 0, 0, 0, 0, 0, 0, 0]);
    assert_eq!(events, vec![(0x07, 0x04, 0)]);
}

#[test]
fn test_load_counts_entries_per_table() {
    let text = "\
# header comment
KEY_A = A
FN+KEY_A = F1
LEFT_SHIFT+KEY_1 = !
EJECT+KEY_1 = RUN(\"calc.exe\")
EJECT+FN+KEY_1 = APPCOMMAND(46)
KEY_B = B
";
    let mut mapper = KeyMapper::new();
    let summary = mapper.load_mapping_text(text.as_bytes());

    assert_eq!(summary.rules, 6);
    assert_eq!(summary.errors, 0);
    assert_eq!(summary.normal, 2);
    assert_eq!(summary.fn_layer, 1);
    assert_eq!(summary.shift, 1);
    assert_eq!(summary.eject, 1);
    assert_eq!(summary.eject_fn, 1);
    let total = summary.normal + summary.fn_layer + summary.shift + summary.eject
        + summary.eject_fn;
    assert_eq!(total, 6);
}

#[test]
fn test_load_comments_only_empty_tables() {
    let text = "\n# This is a header\n# More comments\n### Another comment\n        ";
    let mut mapper = KeyMapper::new();
    let summary = mapper.load_mapping_text(text.as_bytes());

    assert_eq!(summary.rules, 0);
    assert_eq!(summary.errors, 0);
    let total = summary.normal + summary.fn_layer + summary.shift + summary.eject
        + summary.eject_fn;
    assert_eq!(total, 0);
    assert_eq!(mapper.try_trigger_mapping(0x07, 0x04, 1), None);
}

#[test]
fn test_load_skips_bad_lines_and_continues() {
    let text = "\
KEY_A = A
KEY_B
KEY_C = = A
NOT_A_KEY = A
KEY_B = B
";
    let mut mapper = KeyMapper::new();
    let summary = mapper.load_mapping_text(text.as_bytes());

    // Five counted lines; three rejected (no '=', two '=', unknown name).
    assert_eq!(summary.rules, 5);
    assert_eq!(summary.errors, 3);
    assert_eq!(summary.normal, 2);
    assert_eq!(
        mapper.try_trigger_mapping(0x07, 0x05, 1),
        Some(Action::KeyCombo(b"B".to_vec()))
    );
}

#[test]
fn test_malformed_calls_fall_back_to_key_combo() {
    let mut mapper = KeyMapper::new();
    let summary = mapper.load_mapping_text(b"KEY_A = RUN(\"calc.exe\nKEY_B = APPCOMMAND(abc)");

    // Both lines count, both draw a diagnostic, both still insert the raw
    // text as a key-combination action.
    assert_eq!(summary.rules, 2);
    assert_eq!(summary.errors, 2);
    assert_eq!(
        mapper.try_trigger_mapping(0x07, 0x04, 1),
        Some(Action::KeyCombo(b"RUN(\"calc.exe".to_vec()))
    );
    assert_eq!(
        mapper.try_trigger_mapping(0x07, 0x05, 1),
        Some(Action::KeyCombo(b"APPCOMMAND(abc)".to_vec()))
    );
}

#[test]
fn test_appcommand_bounds() {
    let mut mapper = KeyMapper::new();
    mapper.load_mapping_text(b"KEY_A = APPCOMMAND(4294967295)\nKEY_B = APPCOMMAND(4294967296)");

    assert_eq!(
        mapper.try_trigger_mapping(0x07, 0x04, 1),
        Some(Action::AppCommand(4294967295))
    );
    // A value past 32 bits is no number: the raw text falls back.
    assert_eq!(
        mapper.try_trigger_mapping(0x07, 0x05, 1),
        Some(Action::KeyCombo(b"APPCOMMAND(4294967296)".to_vec()))
    );
}

#[test]
fn test_reload_replaces_tables_wholesale() {
    let mut mapper = KeyMapper::new();
    mapper.load_mapping_text(b"KEY_A = A\nKEY_B = B\n");
    assert_eq!(
        mapper.try_trigger_mapping(0x07, 0x04, 1),
        Some(Action::KeyCombo(b"A".to_vec()))
    );

    // Reloading replaces everything: the old rule for A is gone, not merged.
    mapper.load_mapping_text(b"KEY_C = C\n");
    assert_eq!(mapper.try_trigger_mapping(0x07, 0x04, 1), None);
    assert_eq!(
        mapper.try_trigger_mapping(0x07, 0x06, 1),
        Some(Action::KeyCombo(b"C".to_vec()))
    );
}

#[test]
fn test_combined_context_shadows_fn_table() {
    // With the function layer and eject both held, only the combined table
    // is consulted, even for a key that the plain function-layer table maps.
    let mut mapper = KeyMapper::new();
    mapper.load_mapping_text(b"FN+KEY_A = F1\nEJECT+FN+KEY_B = F2");

    mapper.handle_hid_event(0xFF00, 0x0003, 1);
    mapper.handle_hid_event(0x0C, 0x00B8, 1);

    assert_eq!(mapper.try_trigger_mapping(0x07, 0x04, 1), None);
    assert_eq!(
        mapper.try_trigger_mapping(0x07, 0x05, 1),
        Some(Action::KeyCombo(b"F2".to_vec()))
    );
}

#[test]
fn test_releases_never_trigger_actions() {
    let mut mapper = KeyMapper::new();
    mapper.load_mapping_text(b"KEY_A = A");

    assert_eq!(mapper.handle_hid_event(0x07, 0x04, 0), None);
    assert_eq!(mapper.try_trigger_mapping(0x07, 0x04, 0), None);
}

#[test]
fn test_either_shift_drives_shift_context() {
    let mut mapper = KeyMapper::new();
    mapper.load_mapping_text(b"LEFT_SHIFT+KEY_1 = !");

    mapper.handle_hid_event(0x07, 0x00E5, 1); // right shift
    assert_eq!(
        mapper.try_trigger_mapping(0x07, 0x1E, 1),
        Some(Action::KeyCombo(b"!".to_vec()))
    );
}

#[test]
fn test_unknown_identity_misses_every_table() {
    let mut mapper = KeyMapper::new();
    mapper.load_mapping_text(b"KEY_A = A");
    assert_eq!(mapper.try_trigger_mapping(0x0C, 0x00CD, 1), None);
}

#[test]
fn test_execute_key_combo_plan() {
    // A chord presses the modifiers in order, taps the main key, and
    // releases the modifiers in reverse order.
    let ops = execute_action(&Action::KeyCombo(b"CTRL+SHIFT+ESC".to_vec()));
    assert_eq!(
        ops,
        vec![
            HostOp::KeyDown(0x11),
            HostOp::KeyDown(0x10),
            HostOp::KeyDown(0x1B),
            HostOp::KeyUp(0x1B),
            HostOp::KeyUp(0x10),
            HostOp::KeyUp(0x11),
        ]
    );
}

#[test]
fn test_execute_unknown_key_skipped() {
    // An unknown main key parses to 0 and is skipped; the modifiers still
    // cycle.
    let ops = execute_action(&Action::KeyCombo(b"WIN+NO_SUCH_KEY".to_vec()));
    assert_eq!(ops, vec![HostOp::KeyDown(0x5B), HostOp::KeyUp(0x5B)]);
}

#[test]
fn test_execute_run_and_appcommand_plans() {
    let ops = execute_action(&Action::Run(b"calc.exe".to_vec()));
    assert_eq!(ops, vec![HostOp::Launch(b"calc.exe".to_vec())]);

    let ops = execute_action(&Action::AppCommand(46));
    assert_eq!(ops, vec![HostOp::AppCommand(46)]);
}

#[test]
fn test_app_command_lparam_layout() {
    // The command sits in the high word; the low word marks a keyboard
    // source.
    assert_eq!(app_command_lparam(46), 46 * 0x10000 + 1);
    assert_eq!(app_command_lparam(0), 1);
    assert_eq!(app_command_lparam(0xFFFFFFFF), 0xFFFFFFFFi64 * 0x10000 + 1);
}

#[test]
fn test_empty_rhs_becomes_empty_combo() {
    // A line with an empty right-hand side still binds: the empty key
    // combination, which performs no operation.
    let mut mapper = KeyMapper::new();
    let summary = mapper.load_mapping_text(b"KEY_D = ");
    assert_eq!(summary.rules, 1);
    assert_eq!(summary.errors, 0);
    let action = mapper.try_trigger_mapping(0x07, 0x07, 1).unwrap();
    assert_eq!(action, Action::KeyCombo(b"".to_vec()));
    assert_eq!(execute_action(&action), vec![]);
}
