//! Assets as the engine's consumers see them: handle-valued accessors and a
//! set of asset handles.

use vstd::prelude::*;
use crate::raw_vc::RawVc;

verus! {

/// A set of asset handles.
#[derive(Debug, Hash, PartialEq, Eq)]
pub struct AssetsSet {
    pub assets: Vec<RawVc>,
}

impl AssetsSet {
    /// An empty set of assets.
    pub fn new() -> (r: AssetsSet)
        ensures
            r.assets@.len() == 0,
    {
        AssetsSet { assets: Vec::new() }
    }
}

/// Something the engine can treat as an asset: a path, content, and the
/// assets it references, each produced as a handle. Implemented by the
/// embedding application's asset kinds.
pub trait Asset {
    /// The handle of the asset's path value.
    fn path(&self) -> RawVc;

    /// The handle of the asset's content value.
    fn content(&self) -> RawVc;

    /// The assets this asset references.
    fn references(&self) -> AssetsSet;
}

} // verus!
