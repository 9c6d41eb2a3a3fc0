//! A tamper-evident record store for the identity record of a guest virtual
//! machine, together with the small decision procedures of the surrounding
//! virtualization services.

pub mod bytes;
pub mod cipher;
pub mod classpath;
pub mod codec;
pub mod debug_config;
pub mod endian;
pub mod error;
pub mod instance;
pub mod locator;
pub mod names;
pub mod partition;
pub mod payload;
pub mod record;
pub mod tag;
pub mod text;
pub mod vfio;
