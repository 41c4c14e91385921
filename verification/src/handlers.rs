//! What the machine's HTTP endpoints decide: paying for a product (on the
//! simulated path, or by creating an order on the payment terminal),
//! confirming a terminal payment, dispensing, and the operator's purchase
//! and transfer requests. Each decision records its events in the store.

use vstd::prelude::*;
use crate::hardware::{Dispenser, UartHandle};
use crate::inventory::{decrement_step, log_step, purchase_effect, sale_step, transfer_effect, MachineDb, StoreError};
use crate::payment::{is_uuid_v4_text, new_order_reference, order_reference_prefix, simulated_payment_message, PaymentSimulator};
use crate::text::{decimal, grams_text, price_text, push_decimal_i64, push_grams, push_price};

verus! {

/// The HTTP status of a reply.
#[derive(Clone, Copy, PartialEq, Eq, Structural, Debug)]
pub enum HttpStatus {
    Success,
    BadRequest,
    NotFound,
    InternalServerError,
    ServiceUnavailable,
}

pub open spec fn opt_text(o: Option<String>) -> Option<Seq<char>> {
    match o {
        Some(s) => Some(s@),
        None => None,
    }
}

/// The operating mode as the status endpoint reports it.
pub fn mode_label(simulation_mode: bool) -> (s: &'static str)
    ensures
        s@ == if simulation_mode { "SIMULATION"@ } else { "PRODUCTION"@ },
{
    if simulation_mode {
        "SIMULATION"
    } else {
        "PRODUCTION"
    }
}

/// The reply to a payment request.
pub struct PayResponse {
    pub status: HttpStatus,
    pub success: bool,
    pub pending: bool,
    pub message: String,
    pub sale_id: Option<i64>,
    pub order_id: Option<String>,
    pub product_name: Option<String>,
    pub amount_cents: Option<i64>,
}

pub open spec fn pay_reply_is(
    r: PayResponse,
    status: HttpStatus,
    success: bool,
    pending: bool,
    message: Seq<char>,
    sale_id: Option<i64>,
    order_id: Option<Seq<char>>,
    product_name: Option<Seq<char>>,
    amount_cents: Option<i64>,
) -> bool {
    &&& r.status == status
    &&& r.success == success
    &&& r.pending == pending
    &&& r.message@ == message
    &&& r.sale_id == sale_id
    &&& opt_text(r.order_id) == order_id
    &&& opt_text(r.product_name) == product_name
    &&& r.amount_cents == amount_cents
}

/// An order to create on the payment terminal.
pub struct OrderRequest {
    pub product_id: i64,
    pub amount_cents: i64,
    pub description: String,
    pub external_ref: String,
}

/// The next step of a payment: reply now, or create a terminal order first.
pub enum PayStep {
    Reply(PayResponse),
    CreateOrder(OrderRequest),
}

pub open spec fn attempt_details(product_id: i64, price_cents: i64) -> Seq<char> {
    "product_id="@ + decimal(product_id as int) + " amount="@ + price_text(price_cents as int)
}

pub open spec fn sale_details(sale_id: i64, name: Seq<char>, price_cents: i64) -> Seq<char> {
    "sale_id="@ + decimal(sale_id as int) + " product='"@ + name + "' amount="@ + price_text(price_cents as int)
}

pub open spec fn product_details(product_id: i64) -> Seq<char> {
    "product_id="@ + decimal(product_id as int)
}

pub open spec fn order_created_details(order_id: Seq<char>, product_id: i64) -> Seq<char> {
    "order_id="@ + order_id + " product_id="@ + decimal(product_id as int)
}

pub open spec fn order_error_details(product_id: i64, error: Seq<char>) -> Seq<char> {
    "product_id="@ + decimal(product_id as int) + " error="@ + error
}

pub open spec fn terminal_sale_details(sale_id: i64, order_id: Seq<char>, product_id: i64) -> Seq<char> {
    "sale_id="@ + decimal(sale_id as int) + " order_id="@ + order_id + " product_id="@ + decimal(product_id as int)
        + " method=MERCADO_PAGO"@
}

pub open spec fn not_found_message(product_id: i64) -> Seq<char> {
    "Product "@ + decimal(product_id as int) + " not found"@
}

pub open spec fn no_terminal_message() -> Seq<char> {
    "Terminal de pago no configurada (falta MP_ACCESS_TOKEN / MP_TERMINAL_ID)"@
}

fn attempt_details_text(product_id: i64, price_cents: i64) -> (s: String)
    ensures
        s@ == attempt_details(product_id, price_cents),
{
    let mut s = "product_id=".to_owned();
    push_decimal_i64(&mut s, product_id);
    s.append(" amount=");
    push_price(&mut s, price_cents);
    assert(s@ =~= attempt_details(product_id, price_cents));
    s
}

fn sale_details_text(sale_id: i64, name: &str, price_cents: i64) -> (s: String)
    ensures
        s@ == sale_details(sale_id, name@, price_cents),
{
    let mut s = "sale_id=".to_owned();
    push_decimal_i64(&mut s, sale_id);
    s.append(" product='");
    s.append(name);
    s.append("' amount=");
    push_price(&mut s, price_cents);
    assert(s@ =~= sale_details(sale_id, name@, price_cents));
    s
}

fn product_details_text(product_id: i64) -> (s: String)
    ensures
        s@ == product_details(product_id),
{
    let mut s = "product_id=".to_owned();
    push_decimal_i64(&mut s, product_id);
    s
}

fn order_created_details_text(order_id: &str, product_id: i64) -> (s: String)
    ensures
        s@ == order_created_details(order_id@, product_id),
{
    let mut s = "order_id=".to_owned();
    s.append(order_id);
    s.append(" product_id=");
    push_decimal_i64(&mut s, product_id);
    assert(s@ =~= order_created_details(order_id@, product_id));
    s
}

fn order_error_details_text(product_id: i64, error: &str) -> (s: String)
    ensures
        s@ == order_error_details(product_id, error@),
{
    let mut s = "product_id=".to_owned();
    push_decimal_i64(&mut s, product_id);
    s.append(" error=");
    s.append(error);
    assert(s@ =~= order_error_details(product_id, error@));
    s
}

fn terminal_sale_details_text(sale_id: i64, order_id: &str, product_id: i64) -> (s: String)
    ensures
        s@ == terminal_sale_details(sale_id, order_id@, product_id),
{
    let mut s = "sale_id=".to_owned();
    push_decimal_i64(&mut s, sale_id);
    s.append(" order_id=");
    s.append(order_id);
    s.append(" product_id=");
    push_decimal_i64(&mut s, product_id);
    s.append(" method=MERCADO_PAGO");
    assert(s@ =~= terminal_sale_details(sale_id, order_id@, product_id));
    s
}

fn not_found_text(product_id: i64) -> (s: String)
    ensures
        s@ == not_found_message(product_id),
{
    let mut s = "Product ".to_owned();
    push_decimal_i64(&mut s, product_id);
    s.append(" not found");
    assert(s@ =~= not_found_message(product_id));
    s
}

/// Starts a payment for a product. Unknown or out-of-stock products are
/// refused. Otherwise the attempt is logged; in production mode a terminal
/// order is requested (or the request is refused when no terminal is
/// configured); in simulation mode the payment succeeds at once, the sale is
/// recorded, the machine stock drops by one dose and the success is logged.
pub fn begin_payment(
    db: &mut MachineDb,
    machine_id: i64,
    product_id: i64,
    simulation_mode: bool,
    terminal_configured: bool,
    timestamp: &str,
) -> (step: PayStep)
    requires
        old(db).wf(),
    ensures
        final(db).wf(),
        match old(db).product_row(product_id) {
            None => *final(db) == *old(db) && (step matches PayStep::Reply(r) && pay_reply_is(r,
                HttpStatus::NotFound, false, false, not_found_message(product_id), None, None, None, None)),
            Some(row) => if old(db).stock_or_zero(machine_id, product_id) <= 0 {
                &&& *final(db) == *old(db)
                &&& step matches PayStep::Reply(r) && pay_reply_is(r, HttpStatus::BadRequest, false, false,
                    row.name@ + " is out of stock"@, None, None, Some(row.name@), Some(row.price_cents))
            } else {
                exists|mid: MachineDb| #[trigger] log_step(*old(db), mid, machine_id, "PAYMENT_ATTEMPT"@,
                    attempt_details(product_id, row.price_cents), timestamp@) && if !simulation_mode {
                    &&& *final(db) == mid
                    &&& if terminal_configured {
                        step matches PayStep::CreateOrder(req) && {
                            &&& req.product_id == product_id
                            &&& req.amount_cents == row.price_cents
                            &&& req.description@ == row.name@
                            &&& req.external_ref@.len() == order_reference_prefix(machine_id, product_id).len() + 36
                            &&& req.external_ref@.take(order_reference_prefix(machine_id, product_id).len() as int)
                                == order_reference_prefix(machine_id, product_id)
                            &&& is_uuid_v4_text(req.external_ref@.skip(
                                order_reference_prefix(machine_id, product_id).len() as int))
                        }
                    } else {
                        step matches PayStep::Reply(r) && pay_reply_is(r, HttpStatus::ServiceUnavailable, false,
                            false, no_terminal_message(), None, None, Some(row.name@), Some(row.price_cents))
                    }
                } else if mid.next_sale_id() == i64::MAX {
                    &&& *final(db) == mid
                    &&& step matches PayStep::Reply(r) && pay_reply_is(r, HttpStatus::InternalServerError,
                        false, false, "Failed to record sale"@, None, None, None, None)
                } else {
                    exists|d1: MachineDb, d2: MachineDb| #[trigger] sale_step(mid, d1, product_id, machine_id,
                        "SUCCESS"@, "SIMULATED"@, timestamp@) && #[trigger] decrement_step(d1, d2, product_id,
                        machine_id) && log_step(d2, *final(db), machine_id, "PAYMENT_SUCCESS"@,
                        sale_details(mid.next_sale_id(), row.name@, row.price_cents), timestamp@) && (
                    step matches PayStep::Reply(r) && pay_reply_is(r, HttpStatus::Success, true, false,
                        simulated_payment_message(row.price_cents), Some(mid.next_sale_id()), None, Some(
                        row.name@), Some(row.price_cents)))
                }
            },
        },
{
    let product = match db.get_product(product_id, machine_id) {
        Some(p) => p,
        None => {
            return PayStep::Reply(PayResponse {
                status: HttpStatus::NotFound,
                success: false,
                pending: false,
                message: not_found_text(product_id),
                sale_id: None,
                order_id: None,
                product_name: None,
                amount_cents: None,
            });
        },
    };
    if product.stock_mg <= 0 {
        let mut message = product.name.clone();
        message.append(" is out of stock");
        return PayStep::Reply(PayResponse {
            status: HttpStatus::BadRequest,
            success: false,
            pending: false,
            message,
            sale_id: None,
            order_id: None,
            product_name: Some(product.name),
            amount_cents: Some(product.price_cents),
        });
    }
    let details = attempt_details_text(product.id, product.price_cents);
    let _ = db.log_event(machine_id, "PAYMENT_ATTEMPT", details.as_str(), timestamp);
    let ghost mid = *db;
    assert(log_step(*old(db), mid, machine_id, "PAYMENT_ATTEMPT"@, attempt_details(product_id, product.price_cents), timestamp@));
    if !simulation_mode {
        if terminal_configured {
            let external_ref = new_order_reference(machine_id, product.id);
            return PayStep::CreateOrder(OrderRequest {
                product_id: product.id,
                amount_cents: product.price_cents,
                description: product.name,
                external_ref,
            });
        } else {
            return PayStep::Reply(PayResponse {
                status: HttpStatus::ServiceUnavailable,
                success: false,
                pending: false,
                message: "Terminal de pago no configurada (falta MP_ACCESS_TOKEN / MP_TERMINAL_ID)".to_owned(),
                sale_id: None,
                order_id: None,
                product_name: Some(product.name),
                amount_cents: Some(product.price_cents),
            });
        }
    }
    let result = PaymentSimulator::new(simulation_mode).process(product.price_cents);
    if result.success {
        match db.record_sale(product.id, machine_id, "SUCCESS", result.method.as_str(), timestamp) {
            Ok(sale_id) => {
                let ghost d1 = *db;
                let _ = db.decrement_stock(product.id, machine_id);
                let ghost d2 = *db;
                let details = sale_details_text(sale_id, product.name.as_str(), product.price_cents);
                let _ = db.log_event(machine_id, "PAYMENT_SUCCESS", details.as_str(), timestamp);
                assert(sale_step(mid, d1, product_id, machine_id, "SUCCESS"@, "SIMULATED"@, timestamp@));
                assert(decrement_step(d1, d2, product_id, machine_id));
                PayStep::Reply(PayResponse {
                    status: HttpStatus::Success,
                    success: true,
                    pending: false,
                    message: result.message,
                    sale_id: Some(sale_id),
                    order_id: None,
                    product_name: Some(product.name),
                    amount_cents: Some(product.price_cents),
                })
            },
            Err(_) => {
                PayStep::Reply(PayResponse {
                    status: HttpStatus::InternalServerError,
                    success: false,
                    pending: false,
                    message: "Failed to record sale".to_owned(),
                    sale_id: None,
                    order_id: None,
                    product_name: None,
                    amount_cents: None,
                })
            },
        }
    } else {
        let details = product_details_text(product.id);
        let _ = db.log_event(machine_id, "PAYMENT_FAILURE", details.as_str(), timestamp);
        PayStep::Reply(PayResponse {
            status: HttpStatus::Success,
            success: false,
            pending: false,
            message: result.message,
            sale_id: None,
            order_id: None,
            product_name: Some(product.name),
            amount_cents: Some(product.price_cents),
        })
    }
}


/// Finishes a payment once the terminal answered the order request: logs
/// the created order and asks the customer to pay at the terminal, or logs
/// the failure and reports it.
pub fn finish_order(
    db: &mut MachineDb,
    machine_id: i64,
    order: OrderRequest,
    created: Result<String, String>,
    timestamp: &str,
) -> (r: PayResponse)
    requires
        old(db).wf(),
    ensures
        final(db).wf(),
        match created {
            Ok(order_id) => {
                &&& log_step(*old(db), *final(db), machine_id, "MP_ORDER_CREATED"@,
                    order_created_details(order_id@, order.product_id), timestamp@)
                &&& pay_reply_is(r, HttpStatus::Success, false, true, "Paga en la terminal"@, None, Some(order_id@),
                    Some(order.description@), Some(order.amount_cents))
            },
            Err(e) => {
                &&& log_step(*old(db), *final(db), machine_id, "MP_ORDER_ERROR"@,
                    order_error_details(order.product_id, e@), timestamp@)
                &&& pay_reply_is(r, HttpStatus::InternalServerError, false, false,
                    "Error al conectar con la terminal de pago"@, None, None, Some(order.description@),
                    Some(order.amount_cents))
            },
        },
{
    match created {
        Ok(order_id) => {
            let details = order_created_details_text(order_id.as_str(), order.product_id);
            let _ = db.log_event(machine_id, "MP_ORDER_CREATED", details.as_str(), timestamp);
            PayResponse {
                status: HttpStatus::Success,
                success: false,
                pending: true,
                message: "Paga en la terminal".to_owned(),
                sale_id: None,
                order_id: Some(order_id),
                product_name: Some(order.description),
                amount_cents: Some(order.amount_cents),
            }
        },
        Err(e) => {
            let details = order_error_details_text(order.product_id, e.as_str());
            let _ = db.log_event(machine_id, "MP_ORDER_ERROR", details.as_str(), timestamp);
            PayResponse {
                status: HttpStatus::InternalServerError,
                success: false,
                pending: false,
                message: "Error al conectar con la terminal de pago".to_owned(),
                sale_id: None,
                order_id: None,
                product_name: Some(order.description),
                amount_cents: Some(order.amount_cents),
            }
        },
    }
}

/// The reply to a payment status query.
pub enum StatusReply {
    /// No terminal is configured (400).
    NotConfigured,
    /// The terminal could not be asked (500).
    Failed(String),
    /// The order's status; `processed` orders carry the recorded sale, if
    /// it could be recorded.
    Order { status: String, processed: bool, sale_id: Option<i64> },
}

/// Handles the terminal's answer about an order (`None` when no terminal is
/// configured). A `processed` order is recorded as a sale paid through the
/// terminal, the machine stock drops by one dose and the success is logged.
pub fn payment_status_reply(
    db: &mut MachineDb,
    machine_id: i64,
    product_id: i64,
    order_id: &str,
    answer: Option<Result<String, String>>,
    timestamp: &str,
) -> (r: StatusReply)
    requires
        old(db).wf(),
    ensures
        final(db).wf(),
        match answer {
            None => r is NotConfigured && *final(db) == *old(db),
            Some(Err(e)) => (r matches StatusReply::Failed(m) && m == e) && *final(db) == *old(db),
            Some(Ok(status)) => if status@ != "processed"@ {
                &&& r matches StatusReply::Order { status: s, processed: p, sale_id: id } && s == status && !p
                    && id is None
                &&& *final(db) == *old(db)
            } else if old(db).next_sale_id() == i64::MAX {
                &&& r matches StatusReply::Order { status: s, processed: p, sale_id: id } && s == status && p
                    && id is None
                &&& *final(db) == *old(db)
            } else {
                &&& r matches StatusReply::Order { status: s, processed: p, sale_id: id } && s == status && p
                    && id == Some(old(db).next_sale_id())
                &&& exists|d1: MachineDb, d2: MachineDb| #[trigger] sale_step(*old(db), d1, product_id, machine_id,
                    "SUCCESS"@, "MERCADO_PAGO"@, timestamp@) && #[trigger] decrement_step(d1, d2, product_id,
                    machine_id) && log_step(d2, *final(db), machine_id, "PAYMENT_SUCCESS"@,
                    terminal_sale_details(old(db).next_sale_id(), order_id@, product_id), timestamp@)
            },
        },
{
    let status = match answer {
        None => return StatusReply::NotConfigured,
        Some(Err(e)) => return StatusReply::Failed(e),
        Some(Ok(status)) => status,
    };
    let processed = "processed".to_owned();
    if status == processed {
        let sale_id = match db.record_sale(product_id, machine_id, "SUCCESS", "MERCADO_PAGO", timestamp) {
            Ok(sid) => Some(sid),
            Err(_) => None,
        };
        if let Some(sid) = sale_id {
            let ghost d1 = *db;
            let _ = db.decrement_stock(product_id, machine_id);
            let ghost d2 = *db;
            let details = terminal_sale_details_text(sid, order_id, product_id);
            let _ = db.log_event(machine_id, "PAYMENT_SUCCESS", details.as_str(), timestamp);
            assert(sale_step(*old(db), d1, product_id, machine_id, "SUCCESS"@, "MERCADO_PAGO"@, timestamp@));
            assert(decrement_step(d1, d2, product_id, machine_id));
        }
        return StatusReply::Order { status, processed: true, sale_id };
    }
    StatusReply::Order { status, processed: false, sale_id: None }
}

/// The reply to a dispense request.
pub struct DispenseResponse {
    pub status: HttpStatus,
    pub success: bool,
    pub message: String,
    /// The serial link as it was read: `None` without a link, otherwise
    /// whether it was online and whether the dispense command was queued
    /// (never tried when the link was offline).
    pub link: Option<(bool, bool)>,
}

pub open spec fn dispensed_message(product_id: i64) -> Seq<char> {
    "Product "@ + decimal(product_id as int) + " dispensed successfully"@
}

/// Whether a dispense succeeds, given the mode and the reading of the serial
/// link: an online link succeeds exactly when it queued the command; without
/// a link, or with one that is offline, the dispenser decides, which
/// succeeds exactly in simulation mode.
pub open spec fn dispense_succeeds(simulation_mode: bool, link: Option<(bool, bool)>) -> bool {
    match link {
        Some((online, queued)) => if online { queued } else { simulation_mode },
        None => simulation_mode,
    }
}

/// Who decides a dispense: an online serial link succeeds exactly when it
/// queued the command, in either mode; with no link, or one that is offline,
/// the outcome is the mode (the dispenser only works in simulation).
pub proof fn lemma_dispense_decided_by_link(simulation_mode: bool, link: Option<(bool, bool)>)
    ensures
        link matches Some((true, queued)) ==> dispense_succeeds(simulation_mode, link) == queued,
        link is None ==> dispense_succeeds(simulation_mode, link) == simulation_mode,
        link matches Some((false, _)) ==> dispense_succeeds(simulation_mode, link) == simulation_mode,
        // The mode matters only when no online link carries the command.
        link matches Some((true, _)) ==> dispense_succeeds(true, link) == dispense_succeeds(false, link),
{
}

/// Reads the serial link: `None` without one; otherwise whether it is
/// online and, only when it is, whether it queued the dispense command.
fn read_link(uart: Option<&UartHandle>) -> (reading: Option<(bool, bool)>)
    ensures
        reading is None <==> uart is None,
        reading matches Some((online, queued)) ==> (!online ==> !queued),
{
    match uart {
        Some(link) => {
            if link.is_online() {
                let queued = link.send_dispense();
                Some((true, queued))
            } else {
                Some((false, false))
            }
        },
        None => None,
    }
}

/// Carries out a dispense once the serial link has been read: the queue's
/// answer when the link was online, otherwise the dispenser's.
pub fn dispense_outcome(simulation_mode: bool, product_id: i64, link: Option<(bool, bool)>) -> (ok: bool)
    ensures
        ok == dispense_succeeds(simulation_mode, link),
        // An online link decides alone, whatever the mode.
        link matches Some((true, queued)) ==> ok == queued,
        // Without an online link the dispenser decides: success exactly in simulation mode.
        link is None ==> ok == simulation_mode,
        link matches Some((false, _)) ==> ok == simulation_mode,
{
    proof { lemma_dispense_decided_by_link(simulation_mode, link); }
    match link {
        Some((true, queued)) => queued,
        _ => Dispenser::new(simulation_mode).dispense(product_id),
    }
}

/// Dispenses a product: through the serial link when it is online,
/// otherwise through the dispenser (which only succeeds in simulation mode).
/// The request and its outcome are logged.
pub fn dispense_request(
    db: &mut MachineDb,
    machine_id: i64,
    product_id: i64,
    simulation_mode: bool,
    uart: Option<&UartHandle>,
    timestamp: &str,
) -> (r: DispenseResponse)
    requires
        old(db).wf(),
    ensures
        final(db).wf(),
        r.link is None <==> uart is None,
        r.link matches Some((online, queued)) ==> (!online ==> !queued),
        r.success == dispense_succeeds(simulation_mode, r.link),
        r.link matches Some((true, queued)) ==> r.success == queued,
        uart is None ==> r.success == simulation_mode,
        r.link matches Some((false, _)) ==> r.success == simulation_mode,
        exists|mid: MachineDb| #[trigger] log_step(*old(db), mid, machine_id, "DISPENSE_REQUEST"@,
            product_details(product_id), timestamp@) && if r.success {
            &&& log_step(mid, *final(db), machine_id, "DISPENSE_SUCCESS"@, product_details(product_id), timestamp@)
            &&& r.status == HttpStatus::Success
            &&& r.message@ == dispensed_message(product_id)
        } else {
            &&& log_step(mid, *final(db), machine_id, "DISPENSE_FAILURE"@, product_details(product_id), timestamp@)
            &&& r.status == HttpStatus::InternalServerError
            &&& r.message@ == "Dispense failed"@
        },
{
    let details = product_details_text(product_id);
    let _ = db.log_event(machine_id, "DISPENSE_REQUEST", details.as_str(), timestamp);
    let ghost mid = *db;
    let link = read_link(uart);
    let ok = dispense_outcome(simulation_mode, product_id, link);
    assert(log_step(*old(db), mid, machine_id, "DISPENSE_REQUEST"@, product_details(product_id), timestamp@));
    if ok {
        let _ = db.log_event(machine_id, "DISPENSE_SUCCESS", details.as_str(), timestamp);
        let mut message = "Product ".to_owned();
        push_decimal_i64(&mut message, product_id);
        message.append(" dispensed successfully");
        assert(message@ =~= dispensed_message(product_id));
        DispenseResponse { status: HttpStatus::Success, success: true, message, link }
    } else {
        let _ = db.log_event(machine_id, "DISPENSE_FAILURE", details.as_str(), timestamp);
        DispenseResponse {
            status: HttpStatus::InternalServerError,
            success: false,
            message: "Dispense failed".to_owned(),
            link,
        }
    }
}

/// The reply to an operator request: a success message, or an error with
/// its HTTP status.
pub enum OperatorReply {
    Done { message: String },
    Refused { status: HttpStatus, error: String },
}

/// The text of a refused store operation.
pub open spec fn store_error_message(e: StoreError) -> Seq<char> {
    match e {
        StoreError::StorageFull => "storage full"@,
        StoreError::NoWarehouseStock => "Query returned no rows"@,
        StoreError::InsufficientStock { available_mg, requested_mg } => "Insufficient warehouse stock: "@
            + grams_text(available_mg as int) + "g available, "@ + grams_text(requested_mg as int) + "g requested"@,
        StoreError::UnknownProduct => "unknown product"@,
        StoreError::SeedConflict => "stock rows already present"@,
    }
}

pub fn store_error_text(e: StoreError) -> (s: String)
    ensures
        s@ == store_error_message(e),
{
    match e {
        StoreError::StorageFull => "storage full".to_owned(),
        StoreError::NoWarehouseStock => "Query returned no rows".to_owned(),
        StoreError::InsufficientStock { available_mg, requested_mg } => {
            let mut s = "Insufficient warehouse stock: ".to_owned();
            push_grams(&mut s, available_mg);
            s.append("g available, ");
            push_grams(&mut s, requested_mg);
            s.append("g requested");
            assert(s@ =~= store_error_message(e));
            s
        },
        StoreError::UnknownProduct => "unknown product".to_owned(),
        StoreError::SeedConflict => "stock rows already present".to_owned(),
    }
}

pub open spec fn quantity_error() -> Seq<char> {
    "quantity_g must be greater than 0"@
}

pub open spec fn purchase_details(product_id: i64, quantity_mg: i64) -> Seq<char> {
    "product_id="@ + decimal(product_id as int) + " qty="@ + grams_text(quantity_mg as int) + "g"@
}

pub open spec fn transfer_details(product_id: i64, quantity_mg: i64, machine_id: i64) -> Seq<char> {
    "product_id="@ + decimal(product_id as int) + " qty="@ + grams_text(quantity_mg as int) + "g warehouse->machine="@
        + decimal(machine_id as int)
}

pub open spec fn notes_text(notes: Option<String>) -> Seq<char> {
    match notes {
        Some(n) => n@,
        None => Seq::empty(),
    }
}

fn notes_str(notes: &Option<String>) -> (s: &str)
    ensures
        s@ == notes_text(*notes),
{
    proof { reveal_strlit(""); }
    match notes {
        Some(n) => n.as_str(),
        None => "",
    }
}

/// Records a purchase of stock for the warehouse. A quantity that is not
/// positive is refused (400); a purchase the store refuses is reported
/// (500); otherwise the purchase is logged.
pub fn purchase_request(
    db: &mut MachineDb,
    machine_id: i64,
    product_id: i64,
    quantity_mg: i64,
    cost_cents: Option<i64>,
    notes: Option<String>,
    timestamp: &str,
) -> (r: OperatorReply)
    requires
        old(db).wf(),
    ensures
        final(db).wf(),
        quantity_mg <= 0 ==> *final(db) == *old(db) && (r matches OperatorReply::Refused { status, error }
            && status == HttpStatus::BadRequest && error@ == quantity_error()),
        quantity_mg > 0 ==> exists|mid: MachineDb, res: Result<(), StoreError>| #[trigger] purchase_effect(*old(db), mid, res,
            product_id, quantity_mg, cost_cents, notes_text(notes), timestamp@) && match res {
            Ok(_) => {
                &&& log_step(mid, *final(db), machine_id, "PURCHASE"@, purchase_details(product_id, quantity_mg),
                    timestamp@)
                &&& r matches OperatorReply::Done { message } && message@ == grams_text(quantity_mg as int)
                    + "g added to warehouse"@
            },
            Err(e) => {
                &&& *final(db) == mid
                &&& r matches OperatorReply::Refused { status, error } && status == HttpStatus::InternalServerError
                    && error@ == store_error_message(e)
            },
        },
{
    proof { reveal_strlit("quantity_g must be greater than 0"); }
    if quantity_mg <= 0 {
        return OperatorReply::Refused {
            status: HttpStatus::BadRequest,
            error: "quantity_g must be greater than 0".to_owned(),
        };
    }
    let res = db.add_purchase(product_id, quantity_mg, cost_cents, notes_str(&notes), timestamp);
    let ghost mid = *db;
    assert(purchase_effect(*old(db), mid, res, product_id, quantity_mg, cost_cents, notes_text(notes), timestamp@));
    match res {
        Ok(_) => {
            let mut details = "product_id=".to_owned();
            push_decimal_i64(&mut details, product_id);
            details.append(" qty=");
            push_grams(&mut details, quantity_mg);
            details.append("g");
            assert(details@ =~= purchase_details(product_id, quantity_mg));
            let _ = db.log_event(machine_id, "PURCHASE", details.as_str(), timestamp);
            let mut message = String::new();
            push_grams(&mut message, quantity_mg);
            message.append("g added to warehouse");
            assert(message@ =~= grams_text(quantity_mg as int) + "g added to warehouse"@);
            OperatorReply::Done { message }
        },
        Err(e) => OperatorReply::Refused { status: HttpStatus::InternalServerError, error: store_error_text(e) },
    }
}

/// Moves stock from the warehouse into this machine. A quantity that is
/// not positive is refused (400), and so is a transfer the store refuses
/// (400, with the reason); otherwise the transfer is logged.
pub fn transfer_request(
    db: &mut MachineDb,
    machine_id: i64,
    product_id: i64,
    quantity_mg: i64,
    notes: Option<String>,
    timestamp: &str,
) -> (r: OperatorReply)
    requires
        old(db).wf(),
    ensures
        final(db).wf(),
        quantity_mg <= 0 ==> *final(db) == *old(db) && (r matches OperatorReply::Refused { status, error }
            && status == HttpStatus::BadRequest && error@ == quantity_error()),
        quantity_mg > 0 ==> exists|mid: MachineDb, res: Result<(), StoreError>| #[trigger] transfer_effect(*old(db), mid, res,
            product_id, machine_id, quantity_mg, notes_text(notes), timestamp@) && match res {
            Ok(_) => {
                &&& log_step(mid, *final(db), machine_id, "STOCK_TRANSFER"@, transfer_details(product_id,
                    quantity_mg, machine_id), timestamp@)
                &&& r matches OperatorReply::Done { message } && message@ == grams_text(quantity_mg as int)
                    + "g transferred to machine "@ + decimal(machine_id as int)
            },
            Err(e) => {
                &&& *final(db) == mid
                &&& r matches OperatorReply::Refused { status, error } && status == HttpStatus::BadRequest
                    && error@ == store_error_message(e)
            },
        },
{
    proof { reveal_strlit("quantity_g must be greater than 0"); }
    if quantity_mg <= 0 {
        return OperatorReply::Refused {
            status: HttpStatus::BadRequest,
            error: "quantity_g must be greater than 0".to_owned(),
        };
    }
    let res = db.transfer_stock(product_id, machine_id, quantity_mg, notes_str(&notes), timestamp);
    let ghost mid = *db;
    assert(transfer_effect(*old(db), mid, res, product_id, machine_id, quantity_mg, notes_text(notes), timestamp@));
    match res {
        Ok(_) => {
            let mut details = "product_id=".to_owned();
            push_decimal_i64(&mut details, product_id);
            details.append(" qty=");
            push_grams(&mut details, quantity_mg);
            details.append("g warehouse->machine=");
            push_decimal_i64(&mut details, machine_id);
            assert(details@ =~= transfer_details(product_id, quantity_mg, machine_id));
            let _ = db.log_event(machine_id, "STOCK_TRANSFER", details.as_str(), timestamp);
            let mut message = String::new();
            push_grams(&mut message, quantity_mg);
            message.append("g transferred to machine ");
            push_decimal_i64(&mut message, machine_id);
            assert(message@ =~= grams_text(quantity_mg as int) + "g transferred to machine "@ + decimal(machine_id as int));
            OperatorReply::Done { message }
        },
        Err(e) => OperatorReply::Refused { status: HttpStatus::BadRequest, error: store_error_text(e) },
    }
}

} // verus!
