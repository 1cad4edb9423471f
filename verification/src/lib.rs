pub mod app;
pub mod batch;
pub mod controllers;
pub mod db_actions;
pub mod laws;
pub mod models;
pub mod services;
pub mod store;
