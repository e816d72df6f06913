//! Users, what they may do, and the rules by which both change. The rules
//! work on what is held in memory; whoever keeps the users on disk asks the
//! rules first and writes what they give.

pub mod privilege;

pub mod info;
pub mod manager;
