//! An in-process SQL engine: value system, plan algebra, plan compiler and
//! plan executor over an in-memory table store, with the byte-level helpers
//! of its page layer.

pub mod byteutils;
pub mod text;
pub mod identifier;
pub mod types;
pub mod floatops;
pub mod columnvalueops;
pub mod databaseinfo;
pub mod databasestorage;
pub mod tempdb;
pub mod queryplan;
pub mod sqlsyntax;
pub mod btree;
pub mod prettyselect;
