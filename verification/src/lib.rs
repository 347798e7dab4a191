//! A catalog of embroidery-thread colours and its matching engine:
//! exact lookup by floss code or by RGB triplet, nearest-colour lookup with
//! all ties reported, and a full stable similarity ranking.

pub mod approx;
pub mod catalog;
pub mod colour;
pub mod hex;
pub mod rank;
pub mod render;
pub mod report;
pub mod text;
