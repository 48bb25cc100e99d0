//! The factor by which every power value is scaled.

use crate::error::PipelineError;
use vstd::prelude::*;

verus! {

/// The factor in force: `factor` for a primary load, which must then be
/// given, and `unit` for any other load, whatever `factor` holds.
pub open spec fn factor_in_force<V>(is_primary_load: bool, factor: Option<V>, unit: V) -> Result<
    V,
    PipelineError,
> {
    if !is_primary_load {
        Ok(unit)
    } else {
        match factor {
            Some(factor) => Ok(factor),
            None => Err(PipelineError::MissingFactor),
        }
    }
}

/// The factor to scale every power value by, settled before any other work
/// is done: the caller's `factor` for a primary load, and `unit`, the factor
/// that changes nothing, otherwise. A primary load without a factor is
/// `MissingFactor`; no factor is made up for it.
pub fn effective_factor<V>(is_primary_load: bool, factor: Option<V>, unit: V) -> (r: Result<
    V,
    PipelineError,
>)
    ensures
        r == factor_in_force(is_primary_load, factor, unit),
{
    if !is_primary_load {
        Ok(unit)
    } else {
        match factor {
            Some(factor) => Ok(factor),
            None => Err(PipelineError::MissingFactor),
        }
    }
}

} // verus!
