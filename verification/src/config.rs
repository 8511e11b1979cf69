//! Externally supplied settings, validated once at startup.

use vstd::prelude::*;
use crate::error::ConfigError;

verus! {

/// The validated settings: how many raw bytes a generated secret has, and
/// the default pixel dimensions of a rendered QR snapshot. Requests cannot
/// override them.
#[derive(Clone, Copy, Debug, PartialEq, Eq, Structural)]
pub struct Config {
    pub secret_len: u8,
    pub width: u32,
    pub height: u32,
}

impl Config {
    /// Validated: every setting is positive, and the dimensions leave the
    /// headroom the QR renderer's 32-bit arithmetic needs (it adds the
    /// module count plus quiet zone — at most 185 — to the requested size).
    pub open spec fn wf(self) -> bool {
        self.secret_len >= 1 && 1 <= self.width <= u32::MAX - 184 && 1 <= self.height <= u32::MAX
            - 184
    }

    /// Validates raw settings. Each must be positive and fit its field;
    /// the first offender is reported.
    pub fn new(secret_len: u64, width: u64, height: u64) -> (r: Result<Config, ConfigError>)
        ensures
            r is Ok <==> (1 <= secret_len <= u8::MAX && 1 <= width <= u32::MAX - 184 && 1 <= height
                <= u32::MAX - 184),
            r matches Ok(c) ==> c.wf() && c.secret_len == secret_len && c.width == width
                && c.height == height,
            r matches Err(e) ==> e == (if !(1 <= secret_len <= u8::MAX) {
                ConfigError::BadSecretLen
            } else if !(1 <= width <= u32::MAX - 184) {
                ConfigError::BadWidth
            } else {
                ConfigError::BadHeight
            }),
    {
        if secret_len < 1 || secret_len > u8::MAX as u64 {
            return Err(ConfigError::BadSecretLen);
        }
        if width < 1 || width > (u32::MAX - 184) as u64 {
            return Err(ConfigError::BadWidth);
        }
        if height < 1 || height > (u32::MAX - 184) as u64 {
            return Err(ConfigError::BadHeight);
        }
        Ok(Config { secret_len: secret_len as u8, width: width as u32, height: height as u32 })
    }
}

} // verus!
