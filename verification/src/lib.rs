//! Verified core of the gilgamesh spiking-neural-network toolkit.

pub mod text;
pub mod config;
pub mod neurons;
pub mod data;
pub mod evaluate;
pub mod bench;
pub mod checkpoint;
pub mod layers;
pub mod hw_forward;
pub mod simulators;
pub mod training;
pub mod raster;
