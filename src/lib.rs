//! Core logic of a camera node: the status page text, the chunked UTF-8
//! response decoder and the network-join state machine.
pub mod decoder;
pub mod page;
pub mod wifi;

pub use decoder::{is_success_status, ChunkedTextDecoder, DecodeStep, CAPACITY};
pub use page::{index_html, templated};
pub use wifi::{
    awaited_action, AuthPolicy, JoinAction, JoinError, JoinEvent, JoinPhase, Wifi, PASSWORD_MAX,
    RETRY_MS, SSID_MAX,
};
