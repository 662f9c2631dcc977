pub mod bind_transmitter;
pub mod bind_transmitter_resp;
pub mod error;
pub mod formats;
pub mod generic_nack;
pub mod laws;
pub mod pdu;
pub mod status;
pub mod submit_sm;
pub mod submit_sm_resp;
