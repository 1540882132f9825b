//! The second stage: lowering the finished IR module to a browser artifact.

use vstd::prelude::*;
use crate::engine::{is_browser_kind, BuildEngine};
use crate::text::{same_text, starts_with, views};
use crate::tool::{program_or, program_or_default, ToolInvocation};

verus! {

/// The configured emission kind names a browser output that the second
/// stage cannot produce.
#[derive(Debug, Clone, Copy, PartialEq, Eq)]
pub enum DispatchError {
    UnsupportedBrowserKind,
}

/// The file of a unit with the given extension, in the output directory.
pub open spec fn unit_file_path(out_dir: Seq<char>, crate_name: Seq<char>, ext: Seq<char>) -> Seq<
    char,
> {
    out_dir + seq!['/'] + crate_name + seq!['.'] + ext
}

/// The IR module that the first pass writes for a unit.
pub open spec fn ir_path(out_dir: Seq<char>, crate_name: Seq<char>) -> Seq<char> {
    unit_file_path(out_dir, crate_name, "ll"@)
}

/// The extension of the artifact for a browser-output kind, where the kind
/// is one of the two supported.
pub open spec fn browser_extension(kind: Seq<char>) -> Option<Seq<char>> {
    if kind == "em-html"@ {
        Some("html"@)
    } else if kind == "em-js"@ {
        Some("js"@)
    } else {
        None
    }
}

/// The emission kind, where it names a browser output.
pub open spec fn browser_request(emit: Option<String>) -> Option<Seq<char>> {
    match emit {
        Some(e) => if is_browser_kind(e@) {
            Some(e@)
        } else {
            None
        },
        None => None,
    }
}

/// The second stage's arguments: the module, the graphics and audio
/// libraries, and the artifact to write.
pub open spec fn browser_args(ir: Seq<char>, artifact: Seq<char>) -> Seq<Seq<char>> {
    seq![ir, "-lGL"@, "-lSDL"@, "-s"@, "USE_SDL=2"@, "-o"@, artifact]
}

/// The file of a unit with the given extension, in the output directory.
pub fn unit_file(out_dir: &str, crate_name: &str, ext: &str) -> (r: String)
    ensures
        r@ == unit_file_path(out_dir@, crate_name@, ext@),
{
    let mut r = String::from_str(out_dir);
    r.append("/");
    r.append(crate_name);
    r.append(".");
    r.append(ext);
    proof {
        reveal_strlit("/");
        reveal_strlit(".");
    }
    r
}

/// The IR module that the first pass writes for a unit.
pub fn ir_module_path(out_dir: &str, crate_name: &str) -> (r: String)
    ensures
        r@ == ir_path(out_dir@, crate_name@),
{
    unit_file(out_dir, crate_name, "ll")
}

/// The second-stage invocation for a unit. Nothing is dispatched unless the
/// emission kind names a browser output; an unsupported browser output is
/// an error, found before anything is run.
pub fn browser_invocation(
    emit: &Option<String>,
    engine: &BuildEngine,
    crate_name: &str,
    out_dir: &str,
) -> (r: Result<Option<ToolInvocation>, DispatchError>)
    ensures
        browser_request(*emit) is None ==> r matches Ok(None),
        browser_request(*emit) is Some && browser_extension(browser_request(*emit)->0) is None
            ==> r == Err::<Option<ToolInvocation>, DispatchError>(
            DispatchError::UnsupportedBrowserKind,
        ),
        browser_request(*emit) is Some && browser_extension(browser_request(*emit)->0) is Some
            ==> {
            let ext = browser_extension(browser_request(*emit)->0)->0;
            &&& r matches Ok(Some(_))
            &&& r->Ok_0->0.program@ == program_or(engine.emcc, "emcc"@)
            &&& views(r->Ok_0->0.args@) == browser_args(
                ir_path(out_dir@, crate_name@),
                unit_file_path(out_dir@, crate_name@, ext),
            )
        },
{
    let kind = match emit {
        Some(e) => e,
        None => return Ok(None),
    };
    if !starts_with(kind.as_str(), "em-") {
        return Ok(None);
    }
    let ext = if same_text(kind.as_str(), "em-html") {
        "html"
    } else if same_text(kind.as_str(), "em-js") {
        "js"
    } else {
        return Err(DispatchError::UnsupportedBrowserKind);
    };
    let program = program_or_default(&engine.emcc, "emcc");
    let mut args: Vec<String> = Vec::new();
    args.push(ir_module_path(out_dir, crate_name));
    args.push(String::from_str("-lGL"));
    args.push(String::from_str("-lSDL"));
    args.push(String::from_str("-s"));
    args.push(String::from_str("USE_SDL=2"));
    args.push(String::from_str("-o"));
    args.push(unit_file(out_dir, crate_name, ext));
    proof {
        let v = views(args@);
        let want = browser_args(
            ir_path(out_dir@, crate_name@),
            unit_file_path(out_dir@, crate_name@, browser_extension(kind@)->0),
        );
        assert forall|k: int| 0 <= k < 7 implies v[k] == want[k] by {
            assert(v[k] == args@[k]@);
        }
        assert(v =~= want);
    }
    Ok(Some(ToolInvocation { program, args }))
}

} // verus!
