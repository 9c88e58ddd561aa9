pub mod activity;
pub mod clock;
pub mod decimal;
pub mod idle;
pub mod models;
pub mod oauth;
pub mod protocol;
pub mod service;
pub mod tasks;
pub mod text;
pub mod timer;
