//! The context a layer hands to a parameter initializer.
use vstd::prelude::*;

verus! {

/// Fan geometry for initialization calculations.
#[derive(Debug, Clone, Copy, PartialEq, Eq, Structural)]
pub struct Fan {
    /// Fan-in dimension.
    pub fan_in: usize,
    /// Fan-out dimension.
    pub fan_out: usize,
}

impl Fan {
    /// The fan geometry with the given extents.
    pub fn new(fan_in: usize, fan_out: usize) -> (r: Fan)
        ensures
            r == (Fan { fan_in, fan_out }),
    {
        Fan { fan_in, fan_out }
    }
}

/// Semantic role of a parameter during initialization.
#[derive(Debug, Clone, Copy, PartialEq, Eq, Structural)]
pub enum ParameterRole {
    /// Layer weight matrix.
    Weight,
    /// Layer bias vector.
    Bias,
    /// Layer scale parameter (e.g. LayerNorm weight).
    Scale,
    /// Layer offset parameter (e.g. LayerNorm bias).
    Offset,
    /// Other unclassified parameter.
    Other,
}

/// Context provided by a layer when lowering a semantic initializer policy.
#[derive(Debug, Clone, Copy, PartialEq, Eq, Structural)]
pub struct InitContext {
    /// Semantic parameter role.
    pub role: ParameterRole,
    /// Fan geometry, if applicable.
    pub fan: Option<Fan>,
}

impl InitContext {
    /// A context for `role` with no fan geometry.
    pub fn new(role: ParameterRole) -> (r: InitContext)
        ensures
            r == (InitContext { role, fan: None }),
    {
        InitContext { role, fan: None }
    }

    /// The same context with the given fan geometry attached.
    pub fn with_fan(self, fan_in: usize, fan_out: usize) -> (r: InitContext)
        ensures
            r == (InitContext { fan: Some(Fan { fan_in, fan_out }), ..self }),
    {
        InitContext { role: self.role, fan: Some(Fan { fan_in, fan_out }) }
    }
}

} // verus!
