//! Core logic of the DSH desk pet: the state aggregator that turns DSH events
//! into a render snapshot, the settings panel's address field, mouse input,
//! the pixel-art pack, and the small parsers, validators and decisions
//! around the network connections and the DSH child process.

pub mod strings;
pub mod keyed;
pub mod json;
pub mod types;
pub mod state;
pub mod state_laws;
pub mod term;
pub mod child_dsh;
pub mod sse;
pub mod rpc;
pub mod config;
pub mod assets;
pub mod platform;
pub mod tray;
pub mod audio;
pub mod shot;
pub mod input;
pub mod renderer;
