//! Bodies and query strings of the machine's HTTP requests.

use vstd::prelude::*;

verus! {

/// Body of `POST /pay`.
pub struct PayRequest {
    pub product_id: i64,
}

/// Body of `POST /dispense`.
pub struct DispenseRequest {
    pub product_id: i64,
}

/// Query of the payment status endpoint.
pub struct PaymentStatusQuery {
    pub product_id: i64,
}

/// Query of the metrics endpoint.
pub struct MetricsQuery {
    pub period: Option<String>,
}

} // verus!
