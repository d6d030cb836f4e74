//! Decision core of a TCP and UDP port forwarder.
pub mod addr;
pub mod answer;
pub mod config;
pub mod daemon;
pub mod editor;
pub mod manager;
pub mod nft;
pub mod nft_manager;
pub mod number;
pub mod process;
pub mod screen;
pub mod supervisor;
pub mod text;
pub mod tunnel;
pub mod version;
