//! Package descriptors: the record that describes one package, the
//! line-oriented metadata it is read from, and the state machine that fills
//! it while a driver fetches the resources.
//!
//! `package` holds the descriptor and the rule by which one metadata line is
//! read against it; `line` the keys; `text` the decoding and the splitting
//! into lines. `resolver` is the machine, `reading` says what a resolution
//! comes to without it, and `driven` proves that the two agree.

pub mod decimal;
pub mod diagnostic;
pub mod driven;
pub mod line;
pub mod package;
pub mod reading;
pub mod resolver;
pub mod text;
