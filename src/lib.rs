//! Firmware flashing logic for a USB keyboard controller: the hex image
//! parser, device-mode classification, the upload packet protocol and the
//! stage sequence that ties them together.

pub mod hex;
pub mod image;
pub mod upload;
pub mod device;
pub mod flash;
