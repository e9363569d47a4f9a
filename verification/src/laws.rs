//! What holds of the library as a whole.

pub mod assertions;
pub mod command;
pub mod contexts;
pub mod document;
pub mod extraction;
pub mod findings;
pub mod models;
pub mod output;
pub mod selection;
pub mod steps;
pub mod trees;
pub mod verdicts;
pub mod walk;
