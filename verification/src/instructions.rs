//! The rules of each operation, on records that the caller has looked up.

pub mod accept_offer;
pub mod cancel_offer;
pub mod create_offer;
pub mod create_stock;
