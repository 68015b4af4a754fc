//! Compiles a Lucene-style search query into a parameterized SQL statement.
//!
//! The pipeline runs strictly left to right: `parser::query` turns the raw
//! query text into a [`ast::Term`] tree, the rewrite passes in [`ast`]
//! produce new trees (`deanonymize`, `rename`, `replace_expressions`,
//! applied through the generic `transform`), and [`compose::to_sql`] walks
//! the final tree and emits the SQL text together with its named
//! parameters, enforcing an optional field whitelist.

pub mod ast;
pub mod compose;
pub mod laws;
pub mod parser;
