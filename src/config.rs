//! Validation of a render configuration's integer parameters.
use vstd::prelude::*;

verus! {

/// A configuration that cannot be rendered.
#[derive(Clone, Copy, Debug, PartialEq, Eq, Structural)]
pub enum ConfigError {
    /// The fractal power is below 2, so the bailout `2^(1/(power-1))` is undefined.
    PowerTooSmall,
    /// The pixel buffer does not hold exactly `side * side` bytes.
    BufferLength,
}

/// Checks a fractal power and a pixel buffer length against a grid side.
/// The power is tested first.
pub fn check_config(side: usize, power: u32, buffer_len: usize) -> (r: Result<(), ConfigError>)
    ensures
        r == Ok::<(), ConfigError>(()) <==> power >= 2 && buffer_len == side * side,
        r == Err::<(), ConfigError>(ConfigError::PowerTooSmall) <==> power < 2,
        r == Err::<(), ConfigError>(ConfigError::BufferLength) <==> power >= 2 && buffer_len
            != side * side,
{
    if power < 2 {
        return Err(ConfigError::PowerTooSmall);
    }
    match side.checked_mul(side) {
        Some(n) => {
            if n == buffer_len {
                Ok(())
            } else {
                Err(ConfigError::BufferLength)
            }
        },
        None => Err(ConfigError::BufferLength),
    }
}

} // verus!
