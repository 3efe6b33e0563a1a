//! A local application shell: embedded assets served over a custom scheme,
//! a logging bridge for messages from rendered content, and the window's
//! lifecycle decisions.
pub mod assets;
pub mod bridge;
pub mod error;
pub mod lifecycle;
pub mod logger;
pub mod text;
