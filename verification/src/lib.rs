//! A verified core for a classic 8-bit fantasy-console virtual machine:
//! sixteen 8-bit registers, 4096 bytes of memory, a 16-entry call stack,
//! two countdown timers, a 16-key input latch and a 64x32 monochrome
//! frame buffer, driven one fetch-decode-execute cycle at a time.

pub mod clock;
pub mod cpu;
pub mod display;
pub mod laws;
