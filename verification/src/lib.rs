//! A small file-operations service: scanning a folder for word-processor
//! documents, renaming a file without overwriting, and copying a file into a
//! folder with a timestamp suffix when the desired name is taken.
//!
//! The library holds the decision logic of each operation over plain string
//! values; the thin binary around it performs the actual filesystem calls and
//! feeds their outcomes back in.

pub mod copy;
pub mod greet;
pub mod paths;
pub mod rename;
pub mod scan;
pub mod text;
