//! Verified core of a Model Context Protocol server that drives Flutter applications
//! through the Dart VM Service.

pub mod text;
pub mod codec;
pub mod services;
pub mod entities;
pub mod json;
pub mod finder;
pub mod application;
pub mod vm;
pub mod tools;
pub mod files;
