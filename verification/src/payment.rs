//! Payments: the simulated payment path, and the decisions taken on the
//! answers of the Mercado Pago Point terminal API.

use vstd::prelude::*;
use crate::text::{decimal, price_text, push_decimal_i64, push_price};

verus! {

/// Outcome of a simulated payment.
pub struct PaymentResult {
    pub success: bool,
    pub method: String,
    pub message: String,
}

/// The payment path used when no real terminal is involved.
pub struct PaymentSimulator {
    simulation_mode: bool,
}

pub open spec fn simulated_payment_message(amount_cents: i64) -> Seq<char> {
    "Payment of $"@ + price_text(amount_cents as int) + " simulated successfully"@
}

impl PaymentSimulator {
    pub closed spec fn simulated(self) -> bool {
        self.simulation_mode
    }

    pub fn new(simulation_mode: bool) -> (p: PaymentSimulator)
        ensures
            p.simulated() == simulation_mode,
    {
        PaymentSimulator { simulation_mode }
    }

    /// In simulation mode every payment succeeds with method `SIMULATED`;
    /// otherwise it fails, since no real terminal is driven from here.
    pub fn process(&self, amount_cents: i64) -> (r: PaymentResult)
        ensures
            self.simulated() ==> r.success && r.method@ == "SIMULATED"@ && r.message@ == simulated_payment_message(
                amount_cents,
            ),
            !self.simulated() ==> !r.success && r.method@ == Seq::<char>::empty() && r.message@
                == "Real payment terminal not implemented"@,
    {
        if self.simulation_mode {
            let mut message = String::new();
            message.append("Payment of $");
            push_price(&mut message, amount_cents);
            message.append(" simulated successfully");
            assert(message@ =~= simulated_payment_message(amount_cents));
            PaymentResult { success: true, method: "SIMULATED".to_owned(), message }
        } else {
            PaymentResult {
                success: false,
                method: String::new(),
                message: "Real payment terminal not implemented".to_owned(),
            }
        }
    }
}

/// A lowercase hexadecimal digit.
pub open spec fn is_lower_hex(c: char) -> bool {
    ('0' <= c && c <= '9') || ('a' <= c && c <= 'f')
}

/// The text of a version 4 UUID in lowercase hyphenated form: 36
/// characters, hyphens at 8, 13, 18 and 23, lowercase hex digits elsewhere,
/// the version digit `4` at 14 and a variant digit of `8`, `9`, `a` or `b`
/// at 19.
pub open spec fn is_uuid_v4_text(s: Seq<char>) -> bool {
    &&& s.len() == 36
    &&& forall|i: int| 0 <= i < 36 ==> if i == 8 || i == 13 || i == 18 || i == 23 {
        #[trigger] s[i] == '-'
    } else {
        is_lower_hex(s[i])
    }
    &&& s[14] == '4'
    &&& (s[19] == '8' || s[19] == '9' || s[19] == 'a' || s[19] == 'b')
}

/// `uuid::Uuid::new_v4()` rendered by `to_string`: a random version 4 UUID
/// (its version and variant bits are set, the other 122 bits are random) in
/// lowercase hyphenated form. Which UUID comes back is not stated.
#[verifier::external_body]
fn new_uuid_v4() -> (s: String)
    ensures
        is_uuid_v4_text(s@),
{
    uuid::Uuid::new_v4().to_string()
}

pub open spec fn order_reference_prefix(machine_id: i64, product_id: i64) -> Seq<char> {
    "m"@ + decimal(machine_id as int) + "-p"@ + decimal(product_id as int) + "-"@
}

/// The external reference of a terminal order: `m{machine}-p{product}-{unique}`.
pub fn order_reference(machine_id: i64, product_id: i64, unique: &str) -> (r: String)
    ensures
        r@ == order_reference_prefix(machine_id, product_id) + unique@,
{
    let mut r = String::new();
    r.append("m");
    push_decimal_i64(&mut r, machine_id);
    r.append("-p");
    push_decimal_i64(&mut r, product_id);
    r.append("-");
    r.append(unique);
    assert(r@ =~= order_reference_prefix(machine_id, product_id) + unique@);
    r
}

/// A fresh external reference for a terminal order, unique through a random
/// UUID: the prefix `m{machine}-p{product}-` followed by a version 4 UUID.
pub fn new_order_reference(machine_id: i64, product_id: i64) -> (r: String)
    ensures
        r@.len() == order_reference_prefix(machine_id, product_id).len() + 36,
        r@.take(order_reference_prefix(machine_id, product_id).len() as int) == order_reference_prefix(
            machine_id,
            product_id,
        ),
        is_uuid_v4_text(r@.skip(order_reference_prefix(machine_id, product_id).len() as int)),
{
    let unique = new_uuid_v4();
    let r = order_reference(machine_id, product_id, unique.as_str());
    assert(r@.take(order_reference_prefix(machine_id, product_id).len() as int) =~= order_reference_prefix(
        machine_id,
        product_id,
    ));
    assert(r@.skip(order_reference_prefix(machine_id, product_id).len() as int) =~= unique@);
    r
}

// ---------------------------------------------------------------------------
// Answers of the terminal API.

/// A Point terminal linked to the account.
pub struct MpDevice {
    pub id: String,
    pub operating_mode: Option<String>,
}

/// The error for an answer with a non-success HTTP status.
pub open spec fn api_error_text(status_text: Seq<char>, body: Seq<char>) -> Seq<char> {
    "MP API "@ + status_text + ": "@ + body
}

/// The error for a request that got no answer.
pub open spec fn request_failed_text(cause: Seq<char>) -> Seq<char> {
    "MP request failed: "@ + cause
}

/// The error for an answer that could not be parsed.
pub open spec fn parse_error_text(cause: Seq<char>) -> Seq<char> {
    "MP parse error: "@ + cause
}

pub fn api_error(status_text: &str, body: &str) -> (e: String)
    ensures
        e@ == api_error_text(status_text@, body@),
{
    let mut e = String::new();
    e.append("MP API ");
    e.append(status_text);
    e.append(": ");
    e.append(body);
    assert(e@ =~= api_error_text(status_text@, body@));
    e
}

pub fn request_failed(cause: &str) -> (e: String)
    ensures
        e@ == request_failed_text(cause@),
{
    let mut e = "MP request failed: ".to_owned();
    e.append(cause);
    e
}

pub fn parse_error(cause: &str) -> (e: String)
    ensures
        e@ == parse_error_text(cause@),
{
    let mut e = "MP parse error: ".to_owned();
    e.append(cause);
    e
}

/// Whether an HTTP status code reports success (200 to 299).
pub open spec fn http_success(code: u16) -> bool {
    200 <= code < 300
}

/// Result of a request whose answer carries no data (set PDV mode, cancel
/// an order): `Ok` on a success status, the status line and body otherwise.
pub fn empty_reply(code: u16, status_text: &str, body: &str) -> (r: Result<(), String>)
    ensures
        http_success(code) ==> r is Ok,
        !http_success(code) ==> (r matches Err(e) && e@ == api_error_text(status_text@, body@)),
{
    if 200 <= code && code < 300 {
        Ok(())
    } else {
        Err(api_error(status_text, body))
    }
}

/// The parsed body of an order answer: `Err` with the parser's message, or
/// the `id` and `status` fields where present.
pub struct OrderReply {
    pub id: Option<String>,
    pub status: Option<String>,
}

/// Result of creating an order: its id, or why there is none.
pub fn order_id_from_reply(code: u16, status_text: &str, body: &str, parsed: Result<OrderReply, String>) -> (r:
    Result<String, String>)
    ensures
        !http_success(code) ==> (r matches Err(e) && e@ == api_error_text(status_text@, body@)),
        http_success(code) ==> match parsed {
            Err(cause) => r matches Err(e) && e@ == parse_error_text(cause@),
            Ok(reply) => match reply.id {
                Some(id) => r == Ok::<String, String>(id),
                None => r matches Err(e) && e@ == "MP response missing id"@,
            },
        },
{
    if !(200 <= code && code < 300) {
        return Err(api_error(status_text, body));
    }
    match parsed {
        Err(cause) => Err(parse_error(cause.as_str())),
        Ok(reply) => match reply.id {
            Some(id) => Ok(id),
            None => Err("MP response missing id".to_owned()),
        },
    }
}

/// Result of asking for an order's status: the status, `unknown` when the
/// answer has none, or why there is no answer.
pub fn order_status_from_reply(code: u16, status_text: &str, body: &str, parsed: Result<OrderReply, String>) -> (r:
    Result<String, String>)
    ensures
        !http_success(code) ==> (r matches Err(e) && e@ == api_error_text(status_text@, body@)),
        http_success(code) ==> match parsed {
            Err(cause) => r matches Err(e) && e@ == parse_error_text(cause@),
            Ok(reply) => match reply.status {
                Some(s) => r == Ok::<String, String>(s),
                None => r matches Ok(s) && s@ == "unknown"@,
            },
        },
{
    if !(200 <= code && code < 300) {
        return Err(api_error(status_text, body));
    }
    match parsed {
        Err(cause) => Err(parse_error(cause.as_str())),
        Ok(reply) => match reply.status {
            Some(s) => Ok(s),
            None => Ok("unknown".to_owned()),
        },
    }
}

/// Result of listing the terminals: the devices, or why there are none.
pub fn devices_from_reply(code: u16, status_text: &str, body: &str, parsed: Result<Vec<MpDevice>, String>) -> (r:
    Result<Vec<MpDevice>, String>)
    ensures
        !http_success(code) ==> (r matches Err(e) && e@ == api_error_text(status_text@, body@)),
        http_success(code) ==> match parsed {
            Err(cause) => r matches Err(e) && e@ == parse_error_text(cause@) + " — "@ + body@,
            Ok(devices) => r == Ok::<Vec<MpDevice>, String>(devices),
        },
{
    if !(200 <= code && code < 300) {
        return Err(api_error(status_text, body));
    }
    match parsed {
        Err(cause) => {
            let mut e = parse_error(cause.as_str());
            e.append(" — ");
            e.append(body);
            Err(e)
        },
        Ok(devices) => Ok(devices),
    }
}

} // verus!
