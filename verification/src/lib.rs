//! A scene of instanced objects with caches at every level, and the pacing
//! of the frames that present it.
//!
//! A [`scene::Scene`] holds groups by name, a [`group::Group`] holds objects
//! that share one pipeline, an [`object::Object`] holds one mesh and its
//! instances. Each level caches what it hands to the recorder: the object its
//! draw batch, the group the list of its objects' batches, the scene the
//! submission list for all presentation targets, the camera its uniform
//! payload. Handing out a mutable handle on a part marks the cache of the
//! whole stale, and nothing else; asking for a cached value rebuilds what is
//! stale on the way down and nothing that is current.
//!
//! An [`engine::Engine`] joins a scene with a [`driver::FrameDriver`], which
//! keeps one completion handle per presentation target and decides, from what
//! the host loop reports, what the loop does next.
//!
//! The library does no floating-point arithmetic and talks to no device.
//! Real numbers pass through as IEEE-754 single-precision bit patterns;
//! matrices are made by functions that the caller supplies; shaders, render
//! passes and images are named by handles.

pub mod camera;
pub mod device;
pub mod driver;
pub mod engine;
pub mod group;
pub mod instance;
pub mod mesh;
pub mod object;
pub mod pipeline;
pub mod registry;
pub mod scene;
pub mod target;
