//! Reading a WiFi-join URI out of a scanned QR code and turning it into a
//! command that joins the network, together with the single-slot mailbox that
//! carries camera frames from the capture loop to the scanner.

pub mod decoder;
pub mod error;
pub mod fields;
pub mod grammar;
pub mod key;
pub mod laws;
pub mod mailbox;
pub mod nmcli;
pub mod params;
pub mod percent;
pub mod pipeline;
pub mod preview;
pub mod text;
pub mod uri;
