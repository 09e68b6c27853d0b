//! Control of Yeelight smart bulbs over the local network.
//!
//! The bulb speaks JSON over TCP, one document to a line. This library decides what is said to
//! a bulb, understands what it says, and keeps the last known state of it. It does no input or
//! output of its own: the owner of a connection carries bytes between a bulb and a
//! [`YeelightClient`], and datagrams between the network and [`discovery`].
pub mod client;
pub mod command;
pub mod discovery;
pub mod entries;
pub mod error;
pub mod json;
pub mod message;
pub mod order;
pub mod state;
pub mod text;
pub mod wire;

pub use client::YeelightClient;
pub use command::{AdjustAction, AdjustProp, PowerMode, Transition};
pub use error::{Result, YeelightError};
pub use state::{ColorMode, LightState};
