//! Qualification-test harness for flash-memory programmers.
//!
//! The library plans chip layouts, drives write-protect state with guaranteed
//! LIFO restoration, manages a golden snapshot of chip contents, sequences
//! named test cases, and encodes/decodes the command-line surface of the
//! `flashrom` binary. All chip and host-file effects go through the
//! [`flash::Flashrom`] trait, whose contracts are proved against the
//! in-memory simulator [`sim::SimFlash`].

pub mod cases;
pub mod cmd;
pub mod flash;
pub mod sim;
pub mod strutil;
pub mod tester;
pub mod types;
pub mod utils;
