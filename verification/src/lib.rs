//! Message routing, device health tracking and the client-side rules of a
//! small IPC broker: devices report telemetry and heartbeats, a broker routes
//! them to monitors and tracks each device's health, monitors send commands
//! back to chosen devices.

pub mod broker;
pub mod client;
pub mod clock;
pub mod health;
pub mod message;
pub mod text;
