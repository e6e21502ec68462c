//! PMU chip support: chip descriptions, the generic chip driver and firmware images.

pub mod chip;
pub mod commands;
pub mod device;
pub mod firmware;
pub mod ek86317a;
pub mod lp6281;
pub mod transcript;
