//! Protocol extensions: task status on the wire and capability negotiation.

pub mod capability;
pub mod sep1686;
