//! Verified core of the thucra signing helper: the request dispatch and
//! replies of the VNPT CA plugin service, the JSON framing of those replies,
//! the port scan that brings the service up, and the paths and commands that
//! the first start prepares.

pub mod setup;
pub mod vnpt;
