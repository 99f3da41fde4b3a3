pub mod error;
pub mod games;
pub mod text;
pub mod tools;
pub mod verticals;
pub mod workflow;
