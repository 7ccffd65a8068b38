//! Recipe book library: recipes, search, sessions and page logic.
pub mod outside;
pub mod text;
pub mod sorting;
pub mod recipe;
pub mod entries;
pub mod search;
pub mod auth;
pub mod login_states;
pub mod theme;
pub mod pages;
pub mod server;
pub mod storage;
pub mod quantity;
