//! What holds of the pallet as a whole.

pub mod calls;
pub mod cover;
pub mod curve;
pub mod history;
pub mod lists;
pub mod mergers;
pub mod start;
