//! The chat backend's logic: the change feed consumer, the fan-out
//! dispatcher, the connection registry and lifecycle, the metrics emitter and
//! the request/response interface, each as functions from plain values to
//! plain values with their contracts.

pub mod api;
pub mod clock;
pub mod config;
pub mod dispatch;
pub mod feed;
pub mod item;
pub mod lifecycle;
pub mod metrics;
pub mod registry;
pub mod routing;
pub mod string_map;
pub mod text;
pub mod types;
pub mod websocket;
pub mod wire;

pub use metrics::MetricsHelper;
