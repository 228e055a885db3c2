//! An interactive command-line shell library: a tokenizer with quoting,
//! escaping and tilde expansion, an `ls`-style metadata formatter and
//! directory lister, and argument scanners for a fixed set of built-in
//! commands. All observable behaviour is stated in contracts and verified;
//! the surrounding process (prompt loop, file system calls) supplies plain
//! values and prints the strings this library produces.

pub mod error;
pub mod strutil;
pub mod numfmt;
pub mod parser;
pub mod timefmt;
pub mod listing;
pub mod userdb;
pub mod commands;
pub mod registry;
pub mod shell;
