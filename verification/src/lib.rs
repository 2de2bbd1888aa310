//! Verified planning and protocol logic for fastboot flashing of MediaTek and
//! Android devices: Android sparse images, splitting images for a device's
//! download limit, fastboot wire commands and replies, slot resolution, GSI
//! flow planning, progress accounting and command-line validation.

pub mod sparse;
pub mod split;
pub mod text;
pub mod vars;
pub mod protocol;
pub mod image;
pub mod operation;
pub mod progress;
pub mod cli;
pub mod argv;
pub mod transport;
pub mod format;
pub mod device;
pub mod gsi;
pub mod manual;
pub mod force;
pub mod ui;
pub mod winusb;
pub mod layout;
pub mod plan;
pub mod simulate;
pub mod gsi_rows;
