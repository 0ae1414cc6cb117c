//! The platform-independent logic of Fractal's Android support: the message
//! carried by a panic, the stored form of the sessions, the layout of the
//! encrypted sessions file, and the decisions taken when sessions are loaded,
//! stored and deleted.

pub mod keystore;
pub mod media;
pub mod panic;
pub mod platform;
pub mod session_data;
pub mod session_store;
