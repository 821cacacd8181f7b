//! Escrowed plan payments and redeemable, time-bounded vouchers, as two
//! independent state machines over explicit inputs.

pub mod host;
pub mod payment;
pub mod voucher;
