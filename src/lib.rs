//! Locating native libraries in a vcpkg tree and gathering the ports that a
//! workspace asks vcpkg to install.

pub mod args;
pub mod env;
pub mod locate;
pub mod manifest;
pub mod probe;
pub mod progress;
pub mod text;
