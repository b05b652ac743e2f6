//! A line-oriented pattern-search library: it compiles a regular-expression
//! pattern, scans text content line by line, collects the matching lines with
//! optional line-number prefixes and highlight markup, aggregates per-file
//! outcomes across a directory traversal, and formats the results for display.

pub mod config;
pub mod matcher;
pub mod outcome;
pub mod present;
pub mod scanner;
pub mod strutil;
