//! Position keeping and trade booking: a portfolio of signed quantities with
//! weighted-average cost basis and per-currency cash settlement.
pub mod date;
pub mod fixed;
pub mod laws;
pub mod portfolio;
pub mod security;
pub mod trade;

pub use date::Date;
pub use fixed::Fixed;
pub use portfolio::{Holding, Portfolio};
pub use security::{Currency, Security, Value, ValueError};
pub use trade::{can_book, try_tx, tx, wgt_avg};
