//! Durable storage of remote-service connection profiles and their access
//! tokens: the profile collection, the secret namespace, and the manager that
//! joins the two with a fixed write order.

pub mod connection;
pub mod error;
pub mod layout;
pub mod manager;
pub mod profiles;
pub mod secrets;
