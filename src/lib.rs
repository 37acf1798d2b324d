//! Disk-capacity reporting: capacity arithmetic, number formatting and the
//! decisions of the probing session; beside it, the logic of a few small
//! file tools (a concatenator's copy loop, a Caesar substitution, and the
//! choice and display of directories).

pub mod capacity;
pub mod cat;
pub mod cipher;
pub mod format;
pub mod paths;
pub mod report;
pub mod session;
