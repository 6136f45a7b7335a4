//! A live monitor for streams of numbers: lines of comma-separated values go
//! in, and for each column a channel keeps the samples of a trailing window of
//! time, ready to be drawn as one line of a scrolling plot.
//!
//! Time is counted in whole milliseconds. The store never computes with the
//! values it keeps, so their type is a parameter.
//!
//! * [`parser`] splits a line into fields and reads them as values.
//! * [`measurements`] is the windowed store, [`window`] the rule by which it
//!   evicts, and [`sample`] what it holds.
//! * [`shared`] and [`ingest`] put the store behind a lock, between the
//!   thread that appends and the thread that draws.
//! * [`app`] and [`capture`] hold the state of the monitor between frames and
//!   turn a rendered frame into a PNG file.
//! * [`laws`] states what holds of all of this, whatever the input.
//! * [`clock`] declares the monotonic clock.
pub mod app;
pub mod capture;
pub mod clock;
pub mod ingest;
pub mod laws;
pub mod measurements;
pub mod parser;
pub mod sample;
pub mod shared;
pub mod window;
