//! Reply texts, reward rules, quote-card layout and text wrapping of a
//! Discord community bot, with their contracts.

pub mod decimal;
pub mod text;
pub mod rewards;
pub mod replies;
pub mod quote;
pub mod canvas;
pub mod numbers;
pub mod json;
pub mod tracking;
pub mod emoji;
