//! The resources a bridge exposes: the bridge handles themselves through
//! their authentication states, the provisioning request body, and lights.

pub mod bridge;
pub mod device;
pub mod light;

pub use bridge::{Bridge, BridgeConfig, Bridges, UnauthBridge, UnauthBridges};
pub use light::{Light, Lights};
