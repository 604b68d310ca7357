//! The load policy with which a stage is opened.
use vstd::prelude::*;

verus! {

/// Specifies the initial set of prims to load when opening a stage.
#[derive(Clone, Copy, Debug, PartialEq, Eq, Structural)]
pub enum InitialLoadSet {
    /// Load all loadable prims (default).
    LoadAll,
    /// Load no loadable prims.
    LoadNone,
}

/// The value of each policy in the native enumeration.
pub open spec fn native_load_set(l: InitialLoadSet) -> u32 {
    match l {
        InitialLoadSet::LoadAll => 0,
        InitialLoadSet::LoadNone => 1,
    }
}

impl Default for InitialLoadSet {
    fn default() -> (r: Self)
        ensures
            r == InitialLoadSet::LoadAll,
    {
        InitialLoadSet::LoadAll
    }
}

impl InitialLoadSet {
    /// The value that the native factory takes for this policy.
    pub fn native_value(&self) -> (r: u32)
        ensures
            r == native_load_set(*self),
    {
        match self {
            InitialLoadSet::LoadAll => 0,
            InitialLoadSet::LoadNone => 1,
        }
    }
}

} // verus!
