//! The core of a VHDL analyzer: a recursive-descent parser for subtype
//! indications, which must disambiguate array, record and resolution forms
//! with one token of lookahead and speculative rewinding, and a legality
//! checker for assignment targets against a resolved-name model.
pub mod tokens;
pub mod ast;
pub mod grammar;
pub mod names;
pub mod range;
pub mod subtype_indication;
pub mod target;
pub mod laws;
