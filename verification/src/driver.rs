//! The entry point: both passes run once each, in order, over a whole
//! program.

use vstd::prelude::*;

use crate::ast::{Program, SpecProgram};
use crate::post::{post_process, pp_program};
use crate::rewrite::{rewrite, rw_program};

verus! {

/// The transform's configuration surface; it is deliberately empty, there are
/// no tunable options.
#[derive(Debug, Default, Clone, Copy, PartialEq, Eq)]
pub struct Config {}

/// What the whole transform computes: the primary rewrite followed by the
/// post-processing pass.
pub open spec fn transformed(p: SpecProgram) -> SpecProgram {
    pp_program(rw_program(p))
}

/// Desugar every directive of a program: replace each armed conditional and
/// each switch with case children by an equivalent conditional expression,
/// leave every other node unchanged, and strip all placeholder markers the
/// first pass introduced.
pub fn process_transform(program: Program, _config: Config) -> (r: Program)
    ensures
        r@ == transformed(program@),
{
    let rewritten = rewrite(&program);
    post_process(&rewritten)
}

} // verus!
