//! A small register machine and the assembler that feeds it.
//!
//! Source text is split into statements ([`assembler::parse`]), the
//! statements are packed into a stream of eight-byte instructions
//! ([`assembler::translate`]), and the stream is executed by a
//! [`rt::proc::Processor`] owned by a [`rt::Runtime`].

pub mod assembler;
pub mod errors;
pub mod rt;
