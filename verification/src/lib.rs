//! Logic of a wireless presenter that relays input events to a USB host:
//! framing and decoding of the command stream, synthesis of HID reports from
//! the cumulative input state, and the operating modes of the radio.

pub mod app;
pub mod ascii;
pub mod command;
pub mod command_text;
pub mod hid_report;
pub mod line_buffer;
pub mod nrf24_mode;
pub mod number;
pub mod words;
