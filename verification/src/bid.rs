//! Benchmark identifiers as the public API names them.

use vstd::prelude::*;
use vstd::string::StringSliceAdditionalSpecFns;

use crate::utils::{str_to_bytes, vec_skip};

verus! {

/// Identifies one benchmark within a group: an optional function name and
/// an optional parameter description, both held as UTF-8 bytes.
#[derive(Debug)]
pub struct BenchmarkId {
    pub function_name: Option<Vec<u8>>,
    pub parameter: Option<Vec<u8>>,
}

impl BenchmarkId {
    /// An id from a function name and a parameter value.
    pub fn new(function_name: &str, parameter: &str) -> (r: Self)
        ensures
            r.function_name matches Some(f) && f@ == function_name.spec_bytes(),
            r.parameter matches Some(p) && p@ == parameter.spec_bytes(),
    {
        BenchmarkId {
            function_name: Some(str_to_bytes(function_name)),
            parameter: Some(str_to_bytes(parameter)),
        }
    }

    /// The id of a benchmark named by its group alone.
    pub fn no_function() -> (r: Self)
        ensures
            r.function_name is None,
            r.parameter is None,
    {
        BenchmarkId { function_name: None, parameter: None }
    }

    /// An id from just a parameter value, for benchmarking one function
    /// over a variety of inputs.
    pub fn from_parameter(parameter: &str) -> (r: BenchmarkId)
        ensures
            r.function_name is None,
            r.parameter matches Some(p) && p@ == parameter.spec_bytes(),
    {
        BenchmarkId { function_name: None, parameter: Some(str_to_bytes(parameter)) }
    }
}

/// Closes [`AsBenchmarkId`] against outside implementations.
pub trait Sealed {

}

/// Conversion of user-supplied names into benchmark ids.
pub trait AsBenchmarkId: Sealed {
    /// The benchmark id this value names.
    fn as_benchmark_id(&self) -> BenchmarkId;
}

impl Sealed for BenchmarkId {

}

impl AsBenchmarkId for BenchmarkId {
    fn as_benchmark_id(&self) -> (r: BenchmarkId)
        ensures
            ({
                match self.function_name {
                    Some(f) => r.function_name matches Some(g) && g@ == f@,
                    None => r.function_name is None,
                }
            }),
            ({
                match self.parameter {
                    Some(p) => r.parameter matches Some(q) && q@ == p@,
                    None => r.parameter is None,
                }
            }),
    {
        BenchmarkId {
            function_name: match &self.function_name {
                Some(f) => Some(vec_skip(f, 0)),
                None => None,
            },
            parameter: match &self.parameter {
                Some(p) => Some(vec_skip(p, 0)),
                None => None,
            },
        }
    }
}

impl<'s> Sealed for &'s str {

}

impl<'s> AsBenchmarkId for &'s str {
    fn as_benchmark_id(&self) -> (r: BenchmarkId)
        ensures
            r.function_name matches Some(f) && f@ == (*self).spec_bytes(),
            r.parameter is None,
    {
        BenchmarkId { function_name: Some(str_to_bytes(self)), parameter: None }
    }
}

} // verus!
