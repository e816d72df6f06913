//! The kernel of a streaming database engine: the types of its values, the
//! encoding that turns a value into the bytes of a cell and back, the context
//! that a running query carries, and the rules by which users and their
//! privileges change.
//!
//! Every function states what it returns over a plain model of its data, and
//! is proved to do so; but for the calls into other crates, where the contract
//! says what is taken on trust.

pub mod scheduler;
pub mod types;
pub mod user;
pub mod value_encoding;
