//! A minimal desktop application shell, verified.
//!
//! The library holds the shell's whole observable logic: the host commands
//! exposed to an embedded web front-end (`commands`), the process
//! environment table with its additive `.env` loader (`env`), the log sink
//! configuration and the size-triggered rotation pipeline (`logsink`), and
//! the one-shot startup hook that reads the launch arguments (`startup`).
//! The host process around the library only performs I/O and event-loop
//! wiring, and hands plain values in and out.

pub mod commands;
pub mod env;
pub mod logsink;
pub mod startup;
