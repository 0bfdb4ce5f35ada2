//! Engine configuration and clamping of caller-supplied options.

use vstd::prelude::*;

verus! {

/// Default size of the reusable read buffer.
pub const DEFAULT_BUFFER_SIZE: usize = 100_000;

/// Smallest read buffer size the engine will operate with; lower requests
/// are clamped up to this floor.
pub const MIN_BUFFER_SIZE: usize = 4_096;

/// Default size at which the accumulated bytes become one multipart part.
pub const DEFAULT_DATA_PART_SIZE: usize = 5_242_880;

/// Smallest part size the engine will operate with; lower requests are
/// clamped up to this floor.
pub const MIN_DATA_PART_SIZE: usize = 5_242_880;

/// Default number of part uploads that may be in flight concurrently.
pub const DEFAULT_SEMAPHORE_PERMITS: usize = 4;

/// At least one part upload must be admitted at a time.
pub const MIN_SEMAPHORE_PERMITS: usize = 1;

/// Additional options for an object upload to control the `buffer_size`,
/// the `data_part_size`, and the `semaphore_permits`. A `None` field asks
/// for the default; values below the documented floors are clamped up,
/// never rejected.
pub struct UploadObjectAdditionalOptions {
    pub buffer_size: Option<usize>,
    pub data_part_size: Option<usize>,
    pub semaphore_permits: Option<usize>,
}

impl Default for UploadObjectAdditionalOptions {
    /// All fields default to `None`, i.e. the documented default values.
    fn default() -> (r: UploadObjectAdditionalOptions)
        ensures
            r.buffer_size is None,
            r.data_part_size is None,
            r.semaphore_permits is None,
    {
        UploadObjectAdditionalOptions { buffer_size: None, data_part_size: None, semaphore_permits: None }
    }
}

/// The effective value of one option: the requested value if given, else
/// `default_value`, clamped up to `floor`.
pub open spec fn clamped(requested: Option<usize>, default_value: usize, floor: usize) -> usize {
    let base = if requested is Some { requested->0 } else { default_value };
    if base < floor {
        floor
    } else {
        base
    }
}

/// Clamping is idempotent: feeding an already-clamped value back in as a
/// request leaves it unchanged.
pub proof fn lemma_clamped_idempotent(requested: Option<usize>, default_value: usize, floor: usize)
    ensures
        clamped(Some(clamped(requested, default_value, floor)), default_value, floor)
            == clamped(requested, default_value, floor),
{
}

/// The engine's effective configuration, with every floor established.
pub struct EngineConfig {
    pub buffer_size: usize,
    pub data_part_size: usize,
    pub semaphore_permits: usize,
}

impl EngineConfig {
    /// Every field is at or above its documented floor.
    pub open spec fn wf(self) -> bool {
        &&& self.buffer_size >= MIN_BUFFER_SIZE
        &&& self.data_part_size >= MIN_DATA_PART_SIZE
        &&& self.semaphore_permits >= MIN_SEMAPHORE_PERMITS
    }

    /// Resolves caller-supplied options into the effective configuration,
    /// applying defaults and clamping each value up to its floor.
    pub fn from_options(options: &UploadObjectAdditionalOptions) -> (c: EngineConfig)
        ensures
            c.buffer_size == clamped(options.buffer_size, DEFAULT_BUFFER_SIZE, MIN_BUFFER_SIZE),
            c.data_part_size
                == clamped(options.data_part_size, DEFAULT_DATA_PART_SIZE, MIN_DATA_PART_SIZE),
            c.semaphore_permits
                == clamped(options.semaphore_permits, DEFAULT_SEMAPHORE_PERMITS, MIN_SEMAPHORE_PERMITS),
            c.wf(),
    {
        EngineConfig {
            buffer_size: clamp_option(options.buffer_size, DEFAULT_BUFFER_SIZE, MIN_BUFFER_SIZE),
            data_part_size: clamp_option(
                options.data_part_size,
                DEFAULT_DATA_PART_SIZE,
                MIN_DATA_PART_SIZE,
            ),
            semaphore_permits: clamp_option(
                options.semaphore_permits,
                DEFAULT_SEMAPHORE_PERMITS,
                MIN_SEMAPHORE_PERMITS,
            ),
        }
    }
}

/// Executable counterpart of `clamped`.
fn clamp_option(requested: Option<usize>, default_value: usize, floor: usize) -> (r: usize)
    ensures
        r == clamped(requested, default_value, floor),
{
    let base = match requested {
        Some(v) => v,
        None => default_value,
    };
    if base < floor {
        floor
    } else {
        base
    }
}

} // verus!
