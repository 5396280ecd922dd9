//! The camera and its cached uniform payload.
//!
//! All real numbers are carried as IEEE-754 single-precision bit patterns, the
//! form in which they are handed to the graphics device. The camera never
//! computes with them: the matrices are made by a function that the caller
//! supplies, and the camera decides when that function has to run.

use vstd::prelude::*;

verus! {

/// The bit pattern of `1.0`.
pub const ONE: u32 = 0x3f80_0000;

/// The bit pattern of `45.0`.
pub const DEFAULT_FOV_Y: u32 = 0x4234_0000;

/// The bit pattern of `0.01`.
pub const DEFAULT_Z_NEAR: u32 = 0x3c23_d70a;

/// The bit pattern of `100.0`.
pub const DEFAULT_Z_FAR: u32 = 0x42c8_0000;

/// Where the camera stands, where it looks and how it projects.
#[derive(Clone, Copy, Debug, PartialEq, Eq)]
pub struct CameraConfiguration {
    pub position: [u32; 3],
    pub angle: [u32; 3],
    pub aspect: u32,
    pub fov_y: u32,
    pub z_near: u32,
    pub z_far: u32,
}

impl CameraConfiguration {
    /// A camera at the origin that looks along its forward axis, with a square
    /// aspect, a field of view of 45 and the depth range 0.01 to 100.
    pub open spec fn initial() -> Self {
        CameraConfiguration {
            position: [0u32, 0u32, 0u32],
            angle: [0u32, 0u32, 0u32],
            aspect: ONE,
            fov_y: DEFAULT_FOV_Y,
            z_near: DEFAULT_Z_NEAR,
            z_far: DEFAULT_Z_FAR,
        }
    }
}

impl Default for CameraConfiguration {
    fn default() -> (r: Self)
        ensures
            r == CameraConfiguration::initial(),
    {
        CameraConfiguration {
            position: [0u32, 0u32, 0u32],
            angle: [0u32, 0u32, 0u32],
            aspect: ONE,
            fov_y: DEFAULT_FOV_Y,
            z_near: DEFAULT_Z_NEAR,
            z_far: DEFAULT_Z_FAR,
        }
    }
}

/// The uniform payload: the view and the projection matrix, each as sixteen
/// bit patterns in column-major order.
#[derive(Clone, Copy, Debug, PartialEq, Eq)]
pub struct CameraData {
    pub view: [u32; 16],
    pub projection: [u32; 16],
}

/// A camera configuration together with the payload last made from it, if
/// that payload is still current.
pub struct Camera {
    configuration: CameraConfiguration,
    subbuffer: Option<CameraData>,
}

impl Camera {
    /// The current configuration.
    pub closed spec fn config(self) -> CameraConfiguration {
        self.configuration
    }

    /// The cached payload; `None` while the cache is stale.
    pub closed spec fn cached(self) -> Option<CameraData> {
        self.subbuffer
    }

    /// A camera in the initial configuration, with a stale cache.
    pub fn new() -> (r: Self)
        ensures
            r.config() == CameraConfiguration::initial(),
            r.cached() is None,
    {
        Camera { configuration: CameraConfiguration::default(), subbuffer: None }
    }

    /// The uniform payload. While the cache is current it is handed out as it
    /// is and `build` does not run; a stale cache is filled with what `build`
    /// makes of the current configuration.
    pub fn subbuffer<B: FnOnce(&CameraConfiguration) -> CameraData>(&mut self, build: B) -> (data:
        CameraData)
        requires
            old(self).cached() is None ==> build.requires((&old(self).config(),)),
        ensures
            final(self).config() == old(self).config(),
            final(self).cached() == Some(data),
            old(self).cached() matches Some(hit) ==> data == hit,
            old(self).cached() is None ==> build.ensures((&old(self).config(),), data),
    {
        match self.subbuffer {
            Some(data) => data,
            None => {
                let data = build(&self.configuration);
                self.store(data);
                data
            },
        }
    }

    /// Fills the cache.
    pub(crate) fn store(&mut self, data: CameraData)
        ensures
            final(self).config() == old(self).config(),
            final(self).cached() == Some(data),
        no_unwind
    {
        self.subbuffer = Some(data);
    }

    /// The cached payload, if it is current.
    pub fn payload(&self) -> (data: Option<CameraData>)
        ensures
            data == self.cached(),
    {
        self.subbuffer
    }

    /// Replaces the configuration by what `f` makes of it and marks the cache
    /// stale, whether or not `f` changed anything.
    pub fn update<F: FnOnce(CameraConfiguration) -> CameraConfiguration>(&mut self, f: F)
        requires
            f.requires((old(self).config(),)),
        ensures
            f.ensures((old(self).config(),), final(self).config()),
            final(self).cached() is None,
    {
        self.invalidate();
        self.configuration = f(self.configuration);
    }

    /// Marks the cache stale.
    pub fn invalidate(&mut self)
        ensures
            final(self).config() == old(self).config(),
            final(self).cached() is None,
        no_unwind
    {
        self.subbuffer = None;
    }

    /// The current configuration.
    pub fn configuration(&self) -> (c: CameraConfiguration)
        ensures
            c == self.config(),
    {
        self.configuration
    }

    /// Whether the cached payload is current.
    pub fn is_valid(&self) -> (b: bool)
        ensures
            b == self.cached().is_some(),
    {
        self.subbuffer.is_some()
    }
}

} // verus!
