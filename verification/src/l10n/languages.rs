//! The languages of the interface.
pub mod cmn_hans;
pub mod eng_us;
pub mod epo;
