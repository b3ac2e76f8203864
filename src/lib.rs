//! Command/response protocol engine for the Nikon F90x family of cameras,
//! spoken over a serial line: command encoding, checksummed data packets,
//! fixed-response validation, telemetry decoding and the session handshake.

pub mod messaging;
pub mod camera_interface;
pub mod shooting_data;
pub mod cli_commands;
