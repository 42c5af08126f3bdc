//! Verified building blocks of a per-direction bandwidth-quota monitor for
//! control groups, and of a few small programs that keep it company.
//!
//! The monitor: [`config`] validates the startup parameters, [`supervisor`]
//! orders the acquisition of a direction's resources and classifies failures,
//! [`mmap`] and [`counter`] describe the shared counter record and its
//! mapping, [`monitor`] classifies samples against the quota and decides on
//! log lines, resets and shutdown, [`byte_count`] renders byte counts, and
//! [`shutdown`] is the signal that stops the workers.
//!
//! The company: [`kcov`] (kernel coverage records), [`simple_random`] (two
//! pseudo-random generators), [`connect_four`], [`stack_vm`],
//! [`text_generation`] and [`chat`], on top of the text helpers [`text`],
//! [`parse`] and [`words`].
//!
//! Nothing here reads a file, writes to a terminal or waits: the callers do,
//! and hand the library
//! plain values.

pub mod byte_count;
pub mod chat;
pub mod config;
pub mod connect_four;
pub mod counter;
pub mod direction;
pub mod kcov;
pub mod mmap;
pub mod monitor;
pub mod parse;
pub mod shutdown;
pub mod simple_random;
pub mod stack_vm;
pub mod supervisor;
pub mod text;
pub mod text_generation;
pub mod time;
pub mod words;
