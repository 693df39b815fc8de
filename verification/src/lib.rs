//! An in-memory table store with schema and constraint enforcement, driven by
//! SQL-like statements that are translated into typed mutation requests.

pub mod assoc;
pub mod cell;
pub mod column;
pub mod constraint;
pub mod database;
pub mod error;
pub mod grammar;
pub mod interpreter;
pub mod keyed;
pub mod literal;
pub mod record;
pub mod request;
pub mod statement;
pub mod table;
pub mod views;
