//! Core logic of a desktop-capture and screen-recording service.
//!
//! The library models and verifies the real-time frame pipeline of the
//! service: the shared-memory frame ring and its on-wire header layout, the
//! BGRA to YUV420 colour conversion feeding the H.264 encoder, the recording
//! session with its FPS throttle and bounded hand-off queue, the process-wide
//! recording state, and the control-plane command handling with its
//! length-delimited JSON protocol. Platform glue (display enumeration, GPU
//! copies, named pipes, file output) lives outside the library and exchanges
//! plain values with it.

pub mod capture;
pub mod codec;
pub mod driver_shm;
pub mod encoder;
pub mod ipc;
pub mod json;
pub mod monitor;
pub mod protocol;
pub mod recording;
pub mod ring;
pub mod service;
pub mod service_codec;
pub mod shared_memory;
pub mod text;
pub mod wire;
