//! Bounded multi-source line emitters: a head-like tool that prints the
//! first N lines or bytes of each input source, and a cat-like tool that
//! concatenates sources with optional line numbering.

pub mod cat;
pub mod head;
pub mod lines;
pub mod numbering;
pub mod parsing;
pub mod source;
