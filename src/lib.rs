//! Streaming decode pipeline core: sample normalization, a bounded sample
//! ring, the decode worker's decisions and the playback adapter's pull logic,
//! together with the track catalog that hands tracks to the pipeline.

pub mod adapter;
pub mod config;
pub mod control;
pub mod images;
pub mod library;
pub mod pcm;
pub mod playlist;
pub mod queue;
pub mod ring;
pub mod scan;
pub mod seek;
pub mod sort;
pub mod text;
pub mod ui;
pub mod worker;
