use vstd::prelude::*;

verus! {

/// The tabs of the dashboard.
#[derive(Debug, Clone, Copy, PartialEq, Eq, Structural)]
pub enum View {
    Home,
    Api,
    Preferences,
}

} // verus!
