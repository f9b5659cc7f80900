use vstd::prelude::*;

pub mod config;
pub mod desktop;
pub mod display;
pub mod favorites;
pub mod files;
pub mod help;
pub mod i18n;
pub mod keys;
pub mod laws;
pub mod models;
pub mod runner;
pub mod search;
pub mod sort;
pub mod state;
pub mod text;
pub mod update;
pub mod web;

verus! {
} // verus!
