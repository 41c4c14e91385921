//! Verified core of a fragrance vending machine: the local inventory and
//! sales store, the sync protocol with the central server, the payment and
//! dispense flows, the ESP32 serial link protocol and the metrics helpers.

pub mod text;
pub mod models;
pub mod inventory;
pub mod records;
pub mod seqs;
pub mod central;
pub mod sync;
pub mod hardware;
pub mod payment;
pub mod handlers;
pub mod metrics;
pub mod requests;
