//! Directory listings with icons, permission bits, owner and group names and
//! a fuzzy modification age, laid out in aligned columns or as a plain list.
//!
//! The functions take and return plain values: reading directories, files
//! and the environment is left to the caller. Each states what it computes
//! in its contract, and its body is proved to meet it. The few functions of
//! the standard library whose behaviour is taken on trust are declared as
//! such, each with the claim that is made of it.

pub mod config;
pub mod entry;
pub mod icon;
pub mod names;
pub mod order;
pub mod render;
pub mod text;
pub mod time;
