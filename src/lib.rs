//! Client for a multi-factor-authentication HTTP API: signed request
//! construction, response classification and the polling state machine
//! that turns an out-of-band approval into a yes/no answer.
pub mod client;
pub mod encoding;
pub mod order;
pub mod params;
pub mod polling;
pub mod response;
pub mod signing;
