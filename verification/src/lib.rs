//! A terminal countdown timer, without the terminal.
//!
//! The crate holds everything the timer decides: how a duration is read from
//! its textual form, how the event loop reacts to ticks and key presses, and
//! where each row of the large clock face goes on a screen of a given size.
//! Waiting for events and writing to the terminal are left to the caller.

pub mod argument;
pub mod behaviour;
pub mod clock;
pub mod clock_face;
pub mod countdown;
pub mod duration;
pub mod font;
pub mod text;
