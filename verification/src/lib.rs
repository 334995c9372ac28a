//! The decisions of a browser template that draws a scene from a physics
//! simulation running in another worker: how the shared block between them is
//! laid out and read without tearing, when the two sides are brought together,
//! and what the debug overlays show.
//!
//! Pages, workers, the GPU and floating-point geometry are left to the
//! application around this library.

pub mod boot;
pub mod main_thread;
pub mod overlays;
pub mod pointer;
pub mod protocol;
pub mod render_thread;
pub mod scene;
pub mod seqlock;
pub mod sim_link;
pub mod text;
pub mod urls;
