use vstd::prelude::*;

verus! {

/// Style options handed on to the terminal adapter; the prompt logic only carries them.
#[derive(Clone, Copy, Debug, PartialEq, Eq, Structural)]
pub struct RenderConfig {
    /// Whether the adapter may use colors.
    pub colored: bool,
}

impl RenderConfig {
    /// The configuration with colors.
    pub fn default_colored() -> (r: RenderConfig)
        ensures
            r.colored,
    {
        RenderConfig { colored: true }
    }

    /// The configuration without any styling.
    pub fn empty() -> (r: RenderConfig)
        ensures
            !r.colored,
    {
        RenderConfig { colored: false }
    }
}

} // verus!
