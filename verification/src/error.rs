use vstd::prelude::*;

verus! {

/// Why a transform could not be configured.
#[derive(Clone, Copy, Debug, PartialEq, Eq, Structural)]
pub enum ConfigError {
    /// The window was to hold no sample at all.
    ZeroWindow,
}

} // verus!
