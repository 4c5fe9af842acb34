//! Verified cores of a small set of system utilities: an ICMP echo
//! (ping) probe engine, and the rules behind `cat`, `ls` and `pwd`.
//!
//! Everything here computes on plain values. Sockets, files, clocks and
//! signal handlers belong to the program that drives this library.

pub mod cat;
pub mod checksum;
pub mod ls;
pub mod packet;
pub mod probe;
pub mod pwd;
pub mod report;
pub mod stats;
pub mod text;
