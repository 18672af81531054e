//! The verified core of a language server for SystemVerilog.
//!
//! Two things live here. The first is the source registry ([`sources`]): it
//! gives every file of a project a stable identity, holds its text
//! ([`buffer`]), counts its versions and schedules its parses
//! ([`schedule`]), so that a reader never takes the result of an overtaken
//! parse for the state of the file. The second is the diagnostics pipeline
//! ([`diagnostics`]): it plans the runs of the external checker tools and
//! reads their reports ([`verilator`], [`verible`]) into positioned
//! diagnostics ([`finding`]).
//!
//! Nothing in this crate starts a process, reads a file or blocks. It says
//! what is to be done, as plain values, and takes what happened as plain
//! values; [`server`] ties the two halves to the requests of an editor.
//!
//! Calls into other crates are few and marked: `ropey` holds the text,
//! `regex` matches report lines, `which` looks for executables. Their
//! contracts are stated where they are called and believed; everything else
//! is proved from them.

pub mod buffer;
pub mod config;
pub mod diagnostics;
pub mod finding;
pub mod pattern;
pub mod position;
pub mod schedule;
pub mod server;
pub mod sources;
pub mod text;
pub mod verible;
pub mod verilator;
