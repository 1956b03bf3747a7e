//! A decoder for the MOV family of 8086 machine instructions.
//!
//! The library reads a raw byte buffer, classifies each leading byte as one of
//! the five MOV sub-encodings, resolves register and memory operands, and
//! produces structured instruction records together with their canonical
//! assembly-text rendering.

pub mod command;
pub mod storage;
pub mod text;
