use vstd::prelude::*;

use crate::property::PropertySet;

verus! {

/// A record whose fields are exposed as tracked properties.
///
/// Every model shape names an identity type `ID`, which ties its property set to the state
/// maps that are sized from it, so that trackers of unrelated shapes cannot be mixed.
pub trait Model {
    type ID: 'static;

    /// The property set shared by every value of this shape.
    ///
    /// A store sizes its trackers from what this returns. An impl may state in its own
    /// `ensures` which set it returns, and verified callers then know the trackers' size.
    fn get_properties(&self) -> &'static PropertySet<Self::ID>;
}

} // verus!
