//! A monitor of network services: it plans rounds of probes over the
//! configured hosts, keeps the latest result of each service, and lets an
//! operator browse the results host by host.

pub mod app;
pub mod clock;
pub mod config;
pub mod listing;
pub mod monitor;
pub mod probe;
pub mod round;
pub mod store;
pub mod text;
pub mod ui;

pub use app::App;
pub use config::Config;
pub use monitor::MonitorEngine;
