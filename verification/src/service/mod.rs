//! The rules of the services: what is accepted, what is made of it, and
//! which error answers what is not.

pub mod event_service;
pub mod user_service;
pub mod watch_service;
