//! The external optimizer run that follows the dialect repair: its command
//! line, and what its outcome does to the module.

use vstd::prelude::*;
use crate::engine::BuildEngine;
use crate::text::views;
use crate::tool::{join, join_path, program_or, program_or_default, ToolInvocation};

verus! {

/// A failure of the repair and optimization pipeline.
#[derive(Debug, Clone, Copy, PartialEq, Eq)]
pub enum PipelineError {
    /// The optimizer exited with a failure status.
    OptimizerFailed,
}

/// The optimizer's arguments: load the two plugins found in `dir`, run their
/// passes (overflow checks and assume hints removed) and global dead-code
/// elimination, and print the module as text.
pub open spec fn optimizer_args(dir: Seq<char>) -> Seq<Seq<char>> {
    seq![
        "-load="@ + join_path(dir, "RemoveOverflowChecks.so"@),
        "-load="@ + join_path(dir, "RemoveAssume.so"@),
        "-remove-overflow-checks"@,
        "-remove-assume"@,
        "-globaldce"@,
        "-S"@,
    ]
}

/// The optimizer invocation, with the plugins looked up in `plugin_dir`.
/// The repaired module goes to its standard input; the optimized module
/// comes from its standard output.
pub fn optimizer_invocation(engine: &BuildEngine, plugin_dir: &str) -> (r: ToolInvocation)
    ensures
        r.program@ == program_or(engine.opt, "opt"@),
        views(r.args@) == optimizer_args(plugin_dir@),
{
    let program = program_or_default(&engine.opt, "opt");
    let overflow = join(plugin_dir, "RemoveOverflowChecks.so");
    let hints = join(plugin_dir, "RemoveAssume.so");
    let mut load_overflow = String::from_str("-load=");
    load_overflow.append(overflow.as_str());
    let mut load_hints = String::from_str("-load=");
    load_hints.append(hints.as_str());
    let mut args: Vec<String> = Vec::new();
    args.push(load_overflow);
    args.push(load_hints);
    args.push(String::from_str("-remove-overflow-checks"));
    args.push(String::from_str("-remove-assume"));
    args.push(String::from_str("-globaldce"));
    args.push(String::from_str("-S"));
    proof {
        let v = views(args@);
        let want = optimizer_args(plugin_dir@);
        assert forall|k: int| 0 <= k < 6 implies v[k] == want[k] by {
            assert(v[k] == args@[k]@);
        }
        assert(v =~= want);
    }
    ToolInvocation { program, args }
}

/// Takes the optimizer's outcome into `module`, the module's contents: on
/// success its output replaces them; on failure they stay as they were and
/// the failure is reported.
pub fn apply_optimizer_output(module: &mut Vec<u8>, exit_ok: bool, output: Vec<u8>) -> (r: Result<
    (),
    PipelineError,
>)
    ensures
        exit_ok ==> r is Ok && final(module)@ == output@,
        !exit_ok ==> r == Err::<(), PipelineError>(PipelineError::OptimizerFailed) && final(module)@
            == old(module)@,
{
    if exit_ok {
        *module = output;
        Ok(())
    } else {
        Err(PipelineError::OptimizerFailed)
    }
}

} // verus!
