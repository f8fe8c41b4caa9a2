//! Motion-capture marker playback: loading C3D files into an asset cache,
//! announcing a finished load exactly once, spawning and animating one marker
//! per labelled point, and the decision logic of an orbit camera.
pub mod asset;
pub mod loader;
pub mod markers;
pub mod camera;
