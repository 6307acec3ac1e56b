//! Options trading journal core: strategy catalogue, leg templates, alert rules,
//! journal navigation and text helpers, with their contracts proved by Verus.

pub mod actions;
pub mod app;
pub mod calendar;
pub mod calculations;
pub mod dates;
pub mod description;
pub mod journal;
pub mod keys;
pub mod models;
pub mod navigation;
pub mod playbooks;
pub mod storage;
pub mod text;

