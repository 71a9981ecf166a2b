//! The settings that the engine is run with, and the services around them.

pub mod charles;
pub mod crypto;
pub mod external_proxy;
pub mod map_local;

pub use crypto::{CryptoConfig, CryptoService, DecryptError};
pub use external_proxy::ExternalProxy;
