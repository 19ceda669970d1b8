//! The Dart VM Service side: Flutter Driver commands and replies, the per-connection
//! buffers of logs and errors, and the plan of each gesture.

pub mod driver;
pub mod gesture;
pub mod buffers;
