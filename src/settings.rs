use vstd::prelude::*;

verus! {

/// Samples per pixel that a camera uses unless told otherwise.
pub const DEFAULT_SAMPLES_PER_PIXEL: u32 = 500;

/// Bounce budget that a camera uses unless told otherwise.
pub const DEFAULT_MAX_DEPTH: u32 = 400;

/// Why a render configuration was rejected.
#[derive(Debug, Clone, Copy, PartialEq, Eq, Structural)]
pub enum ConfigError {
    ZeroWidth,
    ZeroHeight,
    ZeroSamples,
    TooLarge,
}

/// The integer part of a camera's configuration.
#[derive(Debug, Clone, Copy, PartialEq, Eq, Structural)]
pub struct RenderSettings {
    pub image_width: u32,
    pub image_height: u32,
    pub sample_per_pixel: u32,
    pub max_depth: u32,
}

/// An RGBA buffer of `width` by `height` pixels, and one of its rows, have
/// an addressable length.
pub open spec fn grid_fits(width: nat, height: nat) -> bool {
    &&& width * 4 <= usize::MAX
    &&& width * height * 4 <= usize::MAX
}

/// The outcome of validating a configuration: the first failed check, or
/// the settings unchanged.
pub open spec fn checked_settings(
    image_width: u32,
    image_height: u32,
    sample_per_pixel: u32,
    max_depth: u32,
) -> Result<RenderSettings, ConfigError> {
    if image_width == 0 {
        Err(ConfigError::ZeroWidth)
    } else if image_height == 0 {
        Err(ConfigError::ZeroHeight)
    } else if sample_per_pixel == 0 {
        Err(ConfigError::ZeroSamples)
    } else if !grid_fits(image_width as nat, image_height as nat) {
        Err(ConfigError::TooLarge)
    } else {
        Ok(RenderSettings { image_width, image_height, sample_per_pixel, max_depth })
    }
}

impl RenderSettings {
    /// A configuration that rendering accepts.
    pub open spec fn wf(&self) -> bool {
        &&& self.image_width > 0
        &&& self.image_height > 0
        &&& self.sample_per_pixel > 0
        &&& grid_fits(self.image_width as nat, self.image_height as nat)
    }

    /// Checks a configuration: dimensions and sample count are non-zero and
    /// the RGBA pixel grid fits in memory.
    pub fn new(image_width: u32, image_height: u32, sample_per_pixel: u32, max_depth: u32) -> (r:
        Result<RenderSettings, ConfigError>)
        ensures
            r == checked_settings(image_width, image_height, sample_per_pixel, max_depth),
            r matches Ok(s) ==> s.wf(),
    {
        if image_width == 0 {
            return Err(ConfigError::ZeroWidth);
        }
        if image_height == 0 {
            return Err(ConfigError::ZeroHeight);
        }
        if sample_per_pixel == 0 {
            return Err(ConfigError::ZeroSamples);
        }
        let w = image_width as usize;
        let h = image_height as usize;
        let area = w.checked_mul(h);
        match area {
            None => {
                proof {
                    assert(w * h * 4 > usize::MAX) by (nonlinear_arith)
                        requires
                            w * h > usize::MAX,
                    ;
                }
                Err(ConfigError::TooLarge)
            },
            Some(a) => {
                if a > usize::MAX / 4 {
                    Err(ConfigError::TooLarge)
                } else {
                    proof {
                        assert(w * 4 <= w * h * 4) by (nonlinear_arith)
                            requires
                                h >= 1,
                        ;
                    }
                    Ok(RenderSettings { image_width, image_height, sample_per_pixel, max_depth })
                }
            },
        }
    }

    /// The configuration of a camera of the given size with the default
    /// sample count and bounce budget.
    pub fn with_defaults(image_width: u32, image_height: u32) -> (r: Result<
        RenderSettings,
        ConfigError,
    >)
        ensures
            r == checked_settings(
                image_width,
                image_height,
                DEFAULT_SAMPLES_PER_PIXEL,
                DEFAULT_MAX_DEPTH,
            ),
    {
        RenderSettings::new(image_width, image_height, DEFAULT_SAMPLES_PER_PIXEL, DEFAULT_MAX_DEPTH)
    }

    /// Number of pixels of the image.
    pub fn pixel_count(&self) -> (r: usize)
        requires
            self.wf(),
        ensures
            r == self.image_width * self.image_height,
    {
        proof {
            let w = self.image_width as nat;
            let h = self.image_height as nat;
            assert(w * h <= w * h * 4) by (nonlinear_arith);
        }
        (self.image_width as usize) * (self.image_height as usize)
    }
}

} // verus!
