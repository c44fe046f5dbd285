pub mod catalog;
pub mod controller;
pub mod output;
pub mod process;
