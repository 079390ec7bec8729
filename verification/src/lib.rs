//! A read-only reader and query engine for SQLite database files.
//!
//! The whole database file is handed over as a byte slice; every function
//! here is a function of those bytes and of the query alone.
//!
//! From the bottom up: [`utils`] and [`bytes`] read integers, [`typecodes`]
//! reads column values, [`page_io`] loads pages, [`record`] reads the record
//! of a cell, [`btree`] and [`index`] walk table and index B-trees,
//! [`schema`] reads the schema table, [`syntax`] reads SQL, [`query`] answers
//! a `SELECT`, and [`command`] answers a command line. The modules whose
//! names end in `laws` hold what is proved of the others.

pub mod btree;
pub mod bytes;
pub mod chars;
pub mod command;
pub mod error;
pub mod index;
pub mod index_laws;
pub mod page_io;
pub mod planner_laws;
pub mod query;
pub mod query_laws;
pub mod record;
pub mod schema;
pub mod syntax;
pub mod table_laws;
pub mod text;
pub mod typecodes;
pub mod utils;
