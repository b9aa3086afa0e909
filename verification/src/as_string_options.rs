use vstd::prelude::*;

verus! {

/// Options of the image-to-text conversion: how much the collaborator
/// shrinks the image before translation, and how much each pixel is
/// darkened before lookup. Unset fields fall back to their defaults when
/// the values are read.
#[derive(Clone, Debug)]
pub struct AsStringOptions {
    shrink: Option<u32>,
    darken: Option<u8>,
}

impl AsStringOptions {
    /// The configured shrink factor, if one was set.
    pub closed spec fn spec_shrink(&self) -> Option<u32> {
        self.shrink
    }

    /// The configured darkening, if one was set.
    pub closed spec fn spec_darken(&self) -> Option<u8> {
        self.darken
    }

    /// The effective shrink factor: the configured one, or no shrinking.
    pub open spec fn spec_shrink_value(&self) -> u32 {
        match self.spec_shrink() {
            Some(s) => s,
            None => 1u32,
        }
    }

    /// The effective darkening: the configured one, or none.
    pub open spec fn spec_darken_value(&self) -> u8 {
        match self.spec_darken() {
            Some(d) => d,
            None => 0u8,
        }
    }

    /// Options with nothing set: the defaults apply.
    pub fn new() -> (r: AsStringOptions)
        ensures
            r.spec_shrink() is None,
            r.spec_darken() is None,
    {
        AsStringOptions { shrink: None, darken: None }
    }

    /// Sets the shrink factor.
    pub fn set_shrink(self, shrink: u32) -> (r: AsStringOptions)
        ensures
            r.spec_shrink() == Some(shrink),
            r.spec_darken() == self.spec_darken(),
    {
        AsStringOptions { shrink: Some(shrink), ..self }
    }

    /// Sets the darkening.
    pub fn set_darken(self, darken: u8) -> (r: AsStringOptions)
        ensures
            r.spec_shrink() == self.spec_shrink(),
            r.spec_darken() == Some(darken),
    {
        AsStringOptions { darken: Some(darken), ..self }
    }

    /// The effective (shrink, darken) pair: unset fields fall back to no
    /// shrinking and no darkening.
    pub fn get_values(&self) -> (r: (u32, u8))
        ensures
            r.0 == match self.spec_shrink() {
                Some(s) => s,
                None => 1u32,
            },
            r.1 == match self.spec_darken() {
                Some(d) => d,
                None => 0u8,
            },
    {
        let darken = match self.darken {
            Some(d) => d,
            None => 0,
        };
        let shrink = match self.shrink {
            Some(s) => s,
            None => 1,
        };
        (shrink, darken)
    }
}

impl Default for AsStringOptions {
    /// The same options as `new`: nothing set.
    fn default() -> (r: Self)
        ensures
            r.spec_shrink() is None,
            r.spec_darken() is None,
    {
        Self::new()
    }
}

} // verus!
