use fragrance_vending::hardware::{
    check_silence, epoch_ms_of, handle_line, line_command, now_ms, Arduino, Dispenser, LineBuffer, LinkState,
};

#[test]
fn ping_brings_the_link_online() {
    let mut link = LinkState::new();
    let out = handle_line("PING", 1000, &mut link);
    assert!(out.reply_pong && out.came_online && !out.dispense_confirmed);
    assert!(link.online);
    assert_eq!(link.last_ping_ms, 1000);
    let again = handle_line("PING", 2000, &mut link);
    assert!(again.reply_pong && !again.came_online);
    assert_eq!(link.last_ping_ms, 2000);
}

#[test]
fn ok_confirms_a_dispense_and_other_lines_change_nothing() {
    let mut link = LinkState { online: true, last_ping_ms: 5 };
    let ok = handle_line("OK", 9, &mut link);
    assert!(ok.dispense_confirmed && !ok.reply_pong);
    let other = handle_line("HELLO", 9, &mut link);
    assert!(!other.dispense_confirmed && !other.reply_pong && !other.came_online);
    let empty = handle_line("", 9, &mut link);
    assert!(!empty.reply_pong);
    assert!(link.online && link.last_ping_ms == 5);
    assert!(!handle_line("ping", 9, &mut link).reply_pong);
}

#[test]
fn silence_over_five_seconds_takes_the_link_offline() {
    let mut link = LinkState { online: true, last_ping_ms: 10_000 };
    assert!(!check_silence(15_000, &mut link));
    assert!(link.online);
    assert!(check_silence(15_001, &mut link));
    assert!(!link.online);
    assert!(!check_silence(20_000, &mut link));
}

#[test]
fn silence_before_any_ping_is_ignored() {
    let mut link = LinkState::new();
    assert!(!check_silence(1_000_000, &mut link));
}

#[test]
fn bytes_assemble_into_lines() {
    let mut buf = LineBuffer::new();
    let mut lines = Vec::new();
    for b in b"PI\rNG\r\nOK\n" {
        if let Some(line) = buf.push_byte(*b) {
            lines.push(line);
        }
    }
    assert_eq!(lines, vec![b"PING".to_vec(), b"OK".to_vec()]);
}

#[test]
fn commands_are_trimmed_text() {
    assert_eq!(line_command(&b"  PING \t".to_vec()).as_deref(), Some("PING"));
    assert_eq!(line_command(&"\u{a0}OK".as_bytes().to_vec()).as_deref(), Some("OK"));
    assert_eq!(line_command(&vec![0xff, 0x50]), None);
}

#[test]
fn hardware_follows_the_mode() {
    assert!(Arduino::new(true).send_dispense_command(1));
    assert!(!Arduino::new(false).send_dispense_command(1));
    assert!(Dispenser::new(true).dispense(2));
    assert!(!Dispenser::new(false).dispense(2));
}

#[test]
fn clock_is_after_2020() {
    assert!(now_ms() > 1_577_836_800_000);
}

#[test]
fn clock_readings_map_to_epoch_milliseconds() {
    assert_eq!(epoch_ms_of(None), 0);
    assert_eq!(epoch_ms_of(Some(1_700_000_000_123)), 1_700_000_000_123);
    assert_eq!(epoch_ms_of(Some(1u128 << 64)), 0);
    assert_eq!(epoch_ms_of(Some((1u128 << 63) + 5)), i64::MIN + 5);
}
