//! The dispensing hardware: the simulated Arduino path, the dispenser, and
//! the serial link to the ESP32.
//!
//! Link protocol: the ESP32 sends `PING` every second and the Pi answers
//! `PONG`; the Pi sends `DISPENSE` when a sale is confirmed and the ESP32
//! answers `OK` once the motor fired. The ESP32 counts as offline when no
//! `PING` arrived for more than 5 s.

use vstd::prelude::*;
use vstd::utf8::{decode_utf8, valid_utf8};
use std::sync::atomic::{AtomicBool, AtomicI64};
use std::sync::mpsc::SyncSender;
use std::sync::Arc;

verus! {

/// The Arduino controller. Only the simulated path exists: in production
/// mode no command reaches real hardware.
pub struct Arduino {
    simulation_mode: bool,
}

impl Arduino {
    pub closed spec fn simulated(self) -> bool {
        self.simulation_mode
    }

    pub fn new(simulation_mode: bool) -> (a: Arduino)
        ensures
            a.simulated() == simulation_mode,
    {
        Arduino { simulation_mode }
    }

    /// Whether the dispense command was carried out: always in simulation
    /// mode, never in production mode.
    pub fn send_dispense_command(&self, product_id: i64) -> (ok: bool)
        ensures
            ok == self.simulated(),
    {
        if self.simulation_mode {
            true
        } else {
            false
        }
    }
}

/// The dispenser, driven through the Arduino.
pub struct Dispenser {
    arduino: Arduino,
}

impl Dispenser {
    pub closed spec fn simulated(self) -> bool {
        self.arduino.simulated()
    }

    pub fn new(simulation_mode: bool) -> (d: Dispenser)
        ensures
            d.simulated() == simulation_mode,
    {
        Dispenser { arduino: Arduino::new(simulation_mode) }
    }

    /// Dispenses one dose of a product; whether it succeeded.
    pub fn dispense(&self, product_id: i64) -> (ok: bool)
        ensures
            ok == self.simulated(),
    {
        self.arduino.send_dispense_command(product_id)
    }
}

#[verifier::external_type_specification]
#[verifier::external_body]
#[verifier::reject_recursive_types(T)]
pub struct ExSyncSender<T>(SyncSender<T>);

/// `SyncSender::try_send`: whether the channel took the value without
/// blocking. That depends on the receiving side, so nothing is stated.
#[verifier::external_body]
fn try_send_unit(tx: &SyncSender<()>) -> (ok: bool) {
    tx.try_send(()).is_ok()
}

/// The web side's handle on the serial link: a one-slot queue of dispense
/// commands and the link status published by the serial thread.
pub struct UartHandle {
    dispense_tx: SyncSender<()>,
    pub esp_online: Arc<AtomicBool>,
    last_ping_ms: Arc<AtomicI64>,
}

impl UartHandle {
    /// The sending end of the queue of dispense commands.
    pub closed spec fn dispense_queue(self) -> SyncSender<()> {
        self.dispense_tx
    }

    /// Where the serial thread publishes whether the ESP32 is online.
    pub closed spec fn online_cell(self) -> Arc<AtomicBool> {
        self.esp_online
    }

    /// Where the serial thread publishes the time of the last `PING`.
    pub closed spec fn last_ping_cell(self) -> Arc<AtomicI64> {
        self.last_ping_ms
    }

    /// A handle on the queue `dispense_tx` and on the status cells that the
    /// serial thread publishes.
    pub fn new(dispense_tx: SyncSender<()>, esp_online: Arc<AtomicBool>, last_ping_ms: Arc<AtomicI64>) -> (h:
        UartHandle)
        ensures
            h.dispense_queue() == dispense_tx,
            h.online_cell() == esp_online,
            h.last_ping_cell() == last_ping_ms,
    {
        UartHandle { dispense_tx, esp_online, last_ping_ms }
    }

    /// Queues a dispense command; whether the queue accepted it (the ESP32
    /// may still be offline).
    pub fn send_dispense(&self) -> bool {
        try_send_unit(&self.dispense_tx)
    }

    /// Whether a `PING` was received within the last 5 seconds, as last
    /// published by the serial thread.
    pub fn is_online(&self) -> bool {
        self.esp_online.load(std::sync::atomic::Ordering::Relaxed)
    }
}

#[verifier::external_type_specification]
#[verifier::external_body]
pub struct ExSystemTime(std::time::SystemTime);

/// `SystemTime::now()`: the clock's current time. Nothing is stated.
#[verifier::external_body]
fn system_now() -> std::time::SystemTime {
    std::time::SystemTime::now()
}

/// `SystemTime::duration_since(UNIX_EPOCH)`: the time elapsed since the
/// Unix epoch, `None` for a time before it. Nothing more is stated.
#[verifier::external_body]
fn since_epoch(t: &std::time::SystemTime) -> Option<std::time::Duration> {
    t.duration_since(std::time::UNIX_EPOCH).ok()
}

/// `Duration::as_millis`: the whole milliseconds of a duration. A duration
/// is opaque here, so nothing is stated.
#[verifier::external_body]
fn duration_millis(d: &std::time::Duration) -> u128 {
    d.as_millis()
}

/// Milliseconds since the Unix epoch as an `i64`, from a clock reading:
/// 0 for a clock set before the epoch, otherwise the whole milliseconds
/// truncated to 64 bits (as `as i64` does).
pub fn epoch_ms_of(since_epoch_ms: Option<u128>) -> (ms: i64)
    ensures
        ms == match since_epoch_ms {
            Some(m) => m as i64,
            None => 0,
        },
{
    match since_epoch_ms {
        Some(m) => m as i64,
        None => 0,
    }
}

/// The current time in milliseconds since the Unix epoch (0 for a clock set
/// before it), truncated to `i64`.
pub fn now_ms() -> i64 {
    let now = system_now();
    let reading: Option<u128> = match since_epoch(&now) {
        Some(d) => Some(duration_millis(&d)),
        None => None,
    };
    epoch_ms_of(reading)
}

// ---------------------------------------------------------------------------
// The serial link protocol.

/// How long the ESP32 may stay silent before it counts as offline.
pub const PING_TIMEOUT_MS: i64 = 5000;

/// What the serial side knows of the ESP32.
pub struct LinkState {
    pub online: bool,
    pub last_ping_ms: i64,
}

/// What handling one line asks of the serial side.
pub struct LineOutcome {
    /// Answer `PONG`.
    pub reply_pong: bool,
    /// The ESP32 just came online (it was offline before this `PING`).
    pub came_online: bool,
    /// The ESP32 confirmed a dispense.
    pub dispense_confirmed: bool,
}

impl LinkState {
    /// The state before anything was heard: offline, no `PING` yet.
    pub fn new() -> (s: LinkState)
        ensures
            !s.online,
            s.last_ping_ms == 0,
    {
        LinkState { online: false, last_ping_ms: 0 }
    }
}

/// Handles one line received from the ESP32 (already trimmed) at time `now`.
pub fn handle_line(cmd: &str, now: i64, link: &mut LinkState) -> (out: LineOutcome)
    ensures
        cmd@ == "PING"@ ==> {
            &&& out.reply_pong
            &&& out.came_online == !old(link).online
            &&& !out.dispense_confirmed
            &&& final(link).online
            &&& final(link).last_ping_ms == now
        },
        cmd@ == "OK"@ ==> {
            &&& !out.reply_pong && !out.came_online && out.dispense_confirmed
            &&& *final(link) == *old(link)
        },
        cmd@ != "PING"@ && cmd@ != "OK"@ ==> {
            &&& !out.reply_pong && !out.came_online && !out.dispense_confirmed
            &&& *final(link) == *old(link)
        },
{
    proof {
        reveal_strlit("PING");
        reveal_strlit("OK");
        assert("PING"@.len() == 4 && "OK"@.len() == 2);
        assert("PING"@ != "OK"@);
    }
    let text = cmd.to_owned();
    let ping = "PING".to_owned();
    let ok = "OK".to_owned();
    if text == ping {
        let was_online = link.online;
        link.last_ping_ms = now;
        link.online = true;
        LineOutcome { reply_pong: true, came_online: !was_online, dispense_confirmed: false }
    } else if text == ok {
        LineOutcome { reply_pong: false, came_online: false, dispense_confirmed: true }
    } else {
        LineOutcome { reply_pong: false, came_online: false, dispense_confirmed: false }
    }
}

/// Whether, at time `now`, the ESP32 has been silent for too long since a
/// `PING` was heard.
pub open spec fn silent_too_long(last_ping_ms: i64, now: i64) -> bool {
    last_ping_ms > 0 && now - last_ping_ms > PING_TIMEOUT_MS
}

/// Checks for silence when a read timed out; returns whether the ESP32 went
/// offline just now.
pub fn check_silence(now: i64, link: &mut LinkState) -> (went_offline: bool)
    ensures
        final(link).last_ping_ms == old(link).last_ping_ms,
        silent_too_long(old(link).last_ping_ms, now) ==> !final(link).online && went_offline == old(link).online,
        !silent_too_long(old(link).last_ping_ms, now) ==> *final(link) == *old(link) && !went_offline,
{
    let last = link.last_ping_ms;
    if last > 0 && last <= i64::MAX - PING_TIMEOUT_MS && now > last + PING_TIMEOUT_MS {
        let was_online = link.online;
        link.online = false;
        was_online
    } else {
        false
    }
}

/// Bytes of the line being received.
pub struct LineBuffer {
    buf: Vec<u8>,
}

impl LineBuffer {
    pub closed spec fn pending(self) -> Seq<u8> {
        self.buf@
    }

    pub fn new() -> (b: LineBuffer)
        ensures
            b.pending() == Seq::<u8>::empty(),
    {
        LineBuffer { buf: Vec::new() }
    }

    /// Takes one received byte. A newline completes the pending line, which
    /// is returned; a carriage return is dropped; any other byte is kept.
    pub fn push_byte(&mut self, byte: u8) -> (line: Option<Vec<u8>>)
        ensures
            byte == 10 ==> (line matches Some(l) && l@ == old(self).pending()),
            byte == 10 ==> final(self).pending() == Seq::<u8>::empty(),
            byte == 13 ==> line is None && final(self).pending() == old(self).pending(),
            byte != 10 && byte != 13 ==> line is None && final(self).pending() == old(self).pending().push(byte),
    {
        if byte == 10 {
            let mut done: Vec<u8> = Vec::new();
            std::mem::swap(&mut done, &mut self.buf);
            Some(done)
        } else if byte != 13 {
            self.buf.push(byte);
            None
        } else {
            None
        }
    }
}


/// Unicode White_Space, the set of characters that `str::trim` removes.
pub open spec fn is_white_space(c: char) -> bool {
    let u = c as u32;
    (0x9 <= u <= 0xd) || u == 0x20 || u == 0x85 || u == 0xa0 || u == 0x1680 || (0x2000 <= u <= 0x200a)
        || u == 0x2028 || u == 0x2029 || u == 0x202f || u == 0x205f || u == 0x3000
}

pub open spec fn trim_start(s: Seq<char>) -> Seq<char>
    decreases s.len(),
{
    if s.len() > 0 && is_white_space(s[0]) {
        trim_start(s.drop_first())
    } else {
        s
    }
}

pub open spec fn trim_end(s: Seq<char>) -> Seq<char>
    decreases s.len(),
{
    if s.len() > 0 && is_white_space(s.last()) {
        trim_end(s.drop_last())
    } else {
        s
    }
}

/// The text with leading and trailing white space removed.
pub open spec fn trimmed(s: Seq<char>) -> Seq<char> {
    trim_end(trim_start(s))
}

/// `std::str::from_utf8`: the text the bytes encode when they are valid UTF-8.
#[verifier::external_body]
fn utf8_text(bytes: &[u8]) -> (r: Option<&str>)
    ensures
        r is Some <==> valid_utf8(bytes@),
        r matches Some(s) ==> s@ == decode_utf8(bytes@),
{
    std::str::from_utf8(bytes).ok()
}

/// `str::trim`: the text without leading and trailing Unicode White_Space.
#[verifier::external_body]
fn trim_text(s: &str) -> (r: &str)
    ensures
        r@ == trimmed(s@),
{
    s.trim()
}

/// The command carried by a received line: its text without surrounding
/// white space, or `None` when the line is not valid UTF-8.
pub fn line_command(line: &Vec<u8>) -> (cmd: Option<String>)
    ensures
        cmd is Some <==> valid_utf8(line@),
        cmd matches Some(c) ==> c@ == trimmed(decode_utf8(line@)),
{
    match utf8_text(line.as_slice()) {
        Some(text) => Some(trim_text(text).to_owned()),
        None => None,
    }
}

} // verus!
