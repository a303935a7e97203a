//! Fixed limits and scale factors of the accounting engine.

use vstd::prelude::*;

verus! {

/// Maximum byte length of a station name; names are padded into a buffer of
/// exactly this width.
pub const MAX_NAME_LEN: usize = 64;

/// Maximum byte length of a station city; cities are padded into a buffer of
/// exactly this width.
pub const MAX_CITY_LEN: usize = 48;

/// Maximum byte length of a station metadata URI; URIs are padded into a
/// buffer of exactly this width.
pub const MAX_URI_LEN: usize = 128;

/// Fixed-point scale factor: micro-units of point value per whole point.
/// Point earnings are `energy * rate / MICROS_PER_POINT`, rounded toward zero.
pub const MICROS_PER_POINT: u64 = 1_000_000;

/// Width in bytes of a world-plot region key, an opaque fixed-width buffer.
pub const REGION_KEY_LEN: usize = 64;

} // verus!
