//! A network-addressable RGB light: the shared colour record, the two
//! ingestors that update it (HTTP query and raw UDP text), the brightness
//! compositor, the debouncing render step and the wifi start-up machine.

pub mod api_handler;
pub mod color_state;
pub mod decimal;
pub mod query;
pub mod render;
pub mod rgb_led;
pub mod udp_ingest;
pub mod wifi;
pub mod writes;
