//! Interrupt and exception dispatch core of a small kernel, together with the
//! interrupt-driven input drivers (keyboard scancode decoding, PS/2 mouse
//! bring-up and packet decode) and the framebuffer text/pixel sink they write
//! to.
//!
//! Hardware access is modelled explicitly: the trap vector table, the chained
//! interrupt controllers and the keyboard/mouse port pair are owned values
//! whose observable effects (registrations, end-of-interrupt signals, port
//! writes) are part of their state, so every rule about them is stated in
//! contracts and proved.  The thin layer that touches real ports and loads the
//! real descriptor table lives outside this crate.

pub mod interrupts;
pub mod keyboard;
pub mod mouse;
pub mod pic;
pub mod vesa_buffer;
