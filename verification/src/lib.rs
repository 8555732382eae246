//! A verified interpreter core for the CHIP-8 virtual machine.
//!
//! The machine state lives in [`machine::Chip8`]; one call of
//! [`machine::Chip8::step_with`] is one fetch-decode-execute cycle, and its
//! contract says exactly which state follows from which, through the
//! mathematical model in [`state`]. [`opcode`] decodes instruction words,
//! [`keypad`] holds the host's snapshot of the sixteen keys, [`timer`] turns
//! elapsed time into ticks of the 60 Hz clock, and [`laws`] proves what holds
//! of the instruction set as a whole.
//!
//! The host owns everything outside: it loads the program image, samples the
//! keyboard, paints the display and sounds the tone.

mod entropy;
pub mod keypad;
pub mod laws;
pub mod machine;
pub mod opcode;
pub mod state;
pub mod timer;
