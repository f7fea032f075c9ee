//! The CSV target, which writes nothing.
use vstd::prelude::*;
use crate::Arguments;
use crate::target::{ConvertError, Sources, Target};

verus! {

/// Leaves the source as it is: there is nothing to convert.
pub struct TargetCsv {}

impl Target for TargetCsv {
    fn convert(&self, _args: &Arguments, _sources: &Sources) -> (r: Result<Option<String>, ConvertError>)
        ensures
            r matches Ok(None),
    {
        Ok(None)
    }
}

} // verus!
