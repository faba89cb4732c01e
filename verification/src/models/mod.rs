use crate::options::ModelOptions;
use vstd::prelude::*;

verus! {

/// A model that can be called: it names the options that its calls start
/// from. The options of one call are merged over them.
pub trait Model: Send + Sync + 'static {
    fn options(&self) -> &ModelOptions;
}

} // verus!
