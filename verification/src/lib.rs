//! A line-oriented command interpreter core: a lexer with shell-style
//! quoting, a redirection-aware parser, a PATH resolver, and the pure
//! decision logic of the dispatcher. The interactive edge (line editing,
//! file handles, process spawning) lives outside this library.
pub mod builtins;
pub mod dispatch;
pub mod lexer;
pub mod parser;
pub mod resolve;
pub mod strutil;
pub mod token;
