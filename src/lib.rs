//! Read-only access to SqPack asset repositories and the excel tables stored in them.
pub mod error;
pub mod text;
pub mod packid;
pub mod bytes;
pub mod dat;
pub mod index2;
pub mod sqpack;
pub mod ex;
pub mod tex;
pub mod structs;
