//! Decoder for the binary classfile format of a stack-based virtual machine: a byte
//! cursor, the constant pool and its resolver, the class, field and method tables, and the
//! recursive attribute and annotation bodies, each specified by a grammar over the input
//! bytes, plus the text that a renderer shows for fields and methods.
pub mod types;
pub mod cursor;
pub mod pool;
pub mod flags;
pub mod lists;
pub mod annotations;
pub mod attributes;
pub mod reader;
pub mod text;
pub mod render;
pub mod truncation;
