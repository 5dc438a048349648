//! Peripheral-bus model of the Kaypro family of Z80 computers: disk media,
//! the WD1793 floppy controller, the WD1002 Winchester controller, the
//! SY6545 CRT controller, the MM58167A clock and the machine's bus decoder.

use vstd::prelude::*;

pub mod config;
pub mod diagnostics;
pub mod media;
pub mod sy6545;
pub mod floppy_controller;
pub mod hard_disk_image;
pub mod wd1002;
pub mod sio;
pub mod rtc;
pub mod screen;
pub mod kaypro_machine;
pub mod keyboard;

verus! {

} // verus!
