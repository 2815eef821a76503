//! Decoding and checking of compiled-unit container files.
//!
//! A byte buffer is decoded into a [`root::ClassFile`] by
//! [`reader::read_class_file`], which enforces offset and length bounds on
//! every read; the decoded unit is then validated by
//! [`checker::check_class_file`], which re-walks the constant pool and every
//! index use against the variant that the referencing site expects, parsing
//! descriptors with the [`descriptor`] grammar along the way.
//!
//! The wire form itself is specified by the `enc_*` functions of
//! [`encoding`]: a successful decode re-encodes to exactly the input buffer,
//! and [`determinism`] proves that no well-formed unit's wire form is a
//! strict prefix of another's — so decoding is fail-closed against both
//! truncated and extended buffers.

pub mod attribute;
pub mod checker;
pub mod constant_pool;
pub mod cp_accessor;
pub mod descriptor;
pub mod determinism;
pub mod encoding;
pub mod error;
pub mod reader;
pub mod root;
pub mod text;
pub mod validate;
pub mod writer;
