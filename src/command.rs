//! Classification of an intercepted compile command and its rewrite.
//!
//! Telling build-time tooling from the project's own binaries is a
//! heuristic: a compile whose unit is named `build-script-build`, or one
//! without `--target` while the engine cross-compiles, is taken for tooling.
//! A toolchain that changes the shape of its invocations can defeat it.

use vstd::prelude::*;
use crate::engine::{needs_repair, BuildEngine};
use crate::text::{concatenate, has_prefix, same_text, starts_with, views};

verus! {

/// The tool that an intercepted command runs.
#[derive(Debug, Clone, Copy, PartialEq, Eq)]
pub enum ToolKind {
    /// The native compiler.
    Rustc,
    /// The documentation tool.
    Rustdoc,
    /// Any other program.
    Other,
}

/// One intercepted invocation: its tool, arguments, environment overrides
/// and working directory.
pub struct CompileCommand {
    pub kind: ToolKind,
    pub args: Vec<String>,
    pub envs: Vec<(String, String)>,
    pub cwd: String,
}

/// What the classifier found in a compiler invocation.
pub struct Classification {
    /// `--crate-type bin` is present.
    pub is_binary: bool,
    /// The value after the first `--crate-name`.
    pub crate_name: String,
    /// The value after the first `--out-dir`.
    pub out_dir: String,
    /// `--target` is present.
    pub has_target: bool,
    /// The invocation builds build-time tooling.
    pub is_build: bool,
}

/// A compiler invocation lacks a flag that the rewrite depends on.
#[derive(Debug, Clone, Copy, PartialEq, Eq)]
pub enum ClassifyError {
    MissingCrateName,
    MissingOutDir,
}

/// The value that follows the first occurrence of `flag` at or after `i`
/// that has an argument after it.
pub open spec fn flag_value_from(args: Seq<String>, flag: Seq<char>, i: int) -> Option<Seq<char>>
    decreases args.len() - i,
{
    if i < 0 || i + 1 >= args.len() {
        None
    } else if args[i]@ == flag {
        Some(args[i + 1]@)
    } else {
        flag_value_from(args, flag, i + 1)
    }
}

/// The value that follows the first occurrence of `flag`.
pub open spec fn flag_value(args: Seq<String>, flag: Seq<char>) -> Option<Seq<char>> {
    flag_value_from(args, flag, 0)
}

/// `a` stands at `i` in `args`, immediately followed by `b`.
pub open spec fn pair_at(args: Seq<String>, a: Seq<char>, b: Seq<char>, i: int) -> bool {
    0 <= i && i + 1 < args.len() && args[i]@ == a && args[i + 1]@ == b
}

/// `a` is immediately followed by `b` somewhere in `args`.
pub open spec fn has_pair(args: Seq<String>, a: Seq<char>, b: Seq<char>) -> bool {
    exists|i: int| #[trigger] pair_at(args, a, b, i)
}

/// `a` is one of `args`.
pub open spec fn has_arg(args: Seq<String>, a: Seq<char>) -> bool {
    exists|i: int| 0 <= i < args.len() && args[i]@ == a
}

/// The unit name: the value after the first `--crate-name`.
pub open spec fn crate_name_of(args: Seq<String>) -> Option<Seq<char>> {
    flag_value(args, "--crate-name"@)
}

/// The output directory: the value after the first `--out-dir`.
pub open spec fn out_dir_of(args: Seq<String>) -> Option<Seq<char>> {
    flag_value(args, "--out-dir"@)
}

/// The invocation produces an executable: `--crate-type bin`.
pub open spec fn is_binary_target(args: Seq<String>) -> bool {
    has_pair(args, "--crate-type"@, "bin"@)
}

/// The invocation names a target explicitly.
pub open spec fn has_target_flag(args: Seq<String>) -> bool {
    has_arg(args, "--target"@)
}

/// The invocation builds build-time tooling: its unit is the build script,
/// or it names no target while the engine cross-compiles.
pub open spec fn is_tooling(args: Seq<String>, engine: BuildEngine) -> bool {
    crate_name_of(args) == Some("build-script-build"@) || (!has_target_flag(args)
        && engine.target is Some)
}

/// The error for an invocation whose unit name (first) or output directory
/// cannot be found.
pub open spec fn classify_error(args: Seq<String>) -> Option<ClassifyError> {
    if crate_name_of(args) is None {
        Some(ClassifyError::MissingCrateName)
    } else if out_dir_of(args) is None {
        Some(ClassifyError::MissingOutDir)
    } else {
        None
    }
}

/// The value after the first `flag`.
fn find_flag_value(args: &Vec<String>, flag: &str) -> (r: Option<String>)
    ensures
        r matches Some(v) ==> flag_value(args@, flag@) == Some(v@),
        r is None ==> flag_value(args@, flag@) is None,
{
    let mut i: usize = 0;
    while i < args.len() && i + 1 < args.len()
        invariant
            i <= args@.len(),
            flag_value(args@, flag@) == flag_value_from(args@, flag@, i as int),
        decreases args@.len() - i,
    {
        if same_text(args[i].as_str(), flag) {
            return Some(args[i + 1].clone());
        }
        i = i + 1;
    }
    None
}

/// Whether `a` is immediately followed by `b` somewhere in `args`.
fn find_pair(args: &Vec<String>, a: &str, b: &str) -> (r: bool)
    ensures
        r == has_pair(args@, a@, b@),
{
    let mut i: usize = 0;
    while i < args.len() && i + 1 < args.len()
        invariant
            i <= args@.len(),
            forall|j: int| j < i ==> !#[trigger] pair_at(args@, a@, b@, j),
        decreases args@.len() - i,
    {
        if same_text(args[i].as_str(), a) && same_text(args[i + 1].as_str(), b) {
            assert(pair_at(args@, a@, b@, i as int));
            return true;
        }
        i = i + 1;
    }
    assert forall|j: int| !#[trigger] pair_at(args@, a@, b@, j) by {
        if j >= i {
            assert(!(0 <= j && j + 1 < args@.len()));
        }
    }
    false
}

/// Whether `a` is one of `args`.
fn find_arg(args: &Vec<String>, a: &str) -> (r: bool)
    ensures
        r == has_arg(args@, a@),
{
    let mut i: usize = 0;
    while i < args.len()
        invariant
            i <= args@.len(),
            forall|j: int| 0 <= j < i ==> args@[j]@ != a@,
        decreases args@.len() - i,
    {
        if same_text(args[i].as_str(), a) {
            return true;
        }
        i = i + 1;
    }
    false
}

/// Classifies a compiler invocation by its arguments.
pub fn classify(args: &Vec<String>, engine: &BuildEngine) -> (r: Result<Classification, ClassifyError>)
    ensures
        classify_error(args@) matches Some(e) ==> r == Err::<Classification, ClassifyError>(e),
        classify_error(args@) is None ==> r is Ok,
        r matches Ok(c) ==> {
            &&& Some(c.crate_name@) == crate_name_of(args@)
            &&& Some(c.out_dir@) == out_dir_of(args@)
            &&& c.is_binary == is_binary_target(args@)
            &&& c.has_target == has_target_flag(args@)
            &&& c.is_build == is_tooling(args@, *engine)
        },
{
    let is_binary = find_pair(args, "--crate-type", "bin");
    let crate_name = match find_flag_value(args, "--crate-name") {
        Some(v) => v,
        None => return Err(ClassifyError::MissingCrateName),
    };
    let out_dir = match find_flag_value(args, "--out-dir") {
        Some(v) => v,
        None => return Err(ClassifyError::MissingOutDir),
    };
    let has_target = find_arg(args, "--target");
    let is_build = same_text(crate_name.as_str(), "build-script-build") || (!has_target
        && engine.target.is_some());
    Ok(Classification { is_binary, crate_name, out_dir, has_target, is_build })
}

/// The arguments from `i` on that survive the removal of the emission
/// flags: a separate `--emit` goes with the value after it, and every other
/// argument that begins with `--emit` goes alone; the rest keep their order.
pub open spec fn kept_args_from(args: Seq<Seq<char>>, i: int) -> Seq<Seq<char>>
    decreases args.len() - i,
{
    if i < 0 || i >= args.len() {
        Seq::empty()
    } else if args[i] == "--emit"@ && i + 1 < args.len() {
        kept_args_from(args, i + 2)
    } else if has_prefix(args[i], "--emit"@) {
        kept_args_from(args, i + 1)
    } else {
        seq![args[i]] + kept_args_from(args, i + 1)
    }
}

/// The arguments that survive the removal of the emission flags.
pub open spec fn kept_args(args: Seq<Seq<char>>) -> Seq<Seq<char>> {
    kept_args_from(args, 0)
}

/// No argument that survives the removal begins with `--emit`.
pub proof fn lemma_kept_args_clean(args: Seq<Seq<char>>, i: int)
    requires
        0 <= i,
    ensures
        forall|j: int|
            0 <= j < kept_args_from(args, i).len() ==> !has_prefix(
                #[trigger] kept_args_from(args, i)[j],
                "--emit"@,
            ),
    decreases args.len() - i,
{
    if i < args.len() {
        if args[i] == "--emit"@ && i + 1 < args.len() {
            lemma_kept_args_clean(args, i + 2);
            assert(kept_args_from(args, i) == kept_args_from(args, i + 2));
        } else if has_prefix(args[i], "--emit"@) {
            lemma_kept_args_clean(args, i + 1);
            assert(kept_args_from(args, i) == kept_args_from(args, i + 1));
        } else {
            lemma_kept_args_clean(args, i + 1);
            let rest = kept_args_from(args, i + 1);
            assert forall|j: int|
                0 <= j < kept_args_from(args, i).len() implies !has_prefix(
                #[trigger] kept_args_from(args, i)[j],
                "--emit"@,
            ) by {
                assert(kept_args_from(args, i) == seq![args[i]] + rest);
                if j > 0 {
                    assert(kept_args_from(args, i)[j] == rest[j - 1]);
                } else {
                    assert(kept_args_from(args, i)[j] == args[i]);
                }
            }
        }
    } else {
        assert(kept_args_from(args, i).len() == 0);
    }
}

/// The compiler is asked for dual emission: the binary's own compile, with
/// repair planned exactly when the emission kind asks for it.
pub open spec fn plans_repair(args: Seq<String>, engine: BuildEngine) -> bool {
    is_binary_target(args) && !is_tooling(args, engine) && needs_repair(engine.emit)
}

/// Removing the emission flags keeps arguments that never held one as they
/// are.
pub proof fn law_kept_args_without_emission(v: Seq<Seq<char>>)
    requires
        forall|i: int| 0 <= i < v.len() ==> !has_prefix(#[trigger] v[i], "--emit"@),
    ensures
        kept_args(v) == v,
{
    lemma_kept_suffix(v, 0);
    assert(v.subrange(0, v.len() as int) =~= v);
}

/// Without emission flags, the arguments from `i` on all survive.
proof fn lemma_kept_suffix(v: Seq<Seq<char>>, i: int)
    requires
        0 <= i <= v.len(),
        forall|j: int| 0 <= j < v.len() ==> !has_prefix(#[trigger] v[j], "--emit"@),
    ensures
        kept_args_from(v, i) == v.subrange(i, v.len() as int),
    decreases v.len() - i,
{
    reveal_strlit("--emit");
    if i < v.len() {
        assert(!has_prefix(v[i], "--emit"@));
        if v[i] == "--emit"@ {
            assert(v[i].subrange(0, 6) =~= v[i]);
        }
        lemma_kept_suffix(v, i + 1);
        assert(seq![v[i]] + v.subrange(i + 1, v.len() as int) =~= v.subrange(i, v.len() as int));
    } else {
        assert(v.subrange(i, v.len() as int) =~= Seq::<Seq<char>>::empty());
    }
}

/// The emission that the rewritten command requests next to the dependency
/// metadata: textual IR where repair is planned, the configured kind as it
/// stands otherwise, and nothing for tooling and non-binary compiles.
pub open spec fn planned_emit(args: Seq<String>, engine: BuildEngine) -> Option<Seq<char>> {
    if is_binary_target(args) && !is_tooling(args, engine) {
        if needs_repair(engine.emit) {
            Some("llvm-ir"@)
        } else {
            match engine.emit {
                Some(e) => Some(e@),
                None => None,
            }
        }
    } else {
        None
    }
}

/// The arguments with the requested emission in place of any earlier one,
/// and link-time optimization where `lto` holds.
pub open spec fn emission_args(args: Seq<Seq<char>>, emit: Option<Seq<char>>, lto: bool) -> Seq<
    Seq<char>,
> {
    match emit {
        None => args,
        Some(e) => kept_args(args) + seq!["--emit"@, "dep-info,"@ + e] + if lto {
            seq!["-C"@, "lto"@]
        } else {
            Seq::empty()
        },
    }
}

/// The arguments with the alternate system root, where one is configured
/// and the invocation is not tooling.
pub open spec fn sysroot_args(args: Seq<Seq<char>>, sysroot: Option<String>, tooling: bool) -> Seq<
    Seq<char>,
> {
    match sysroot {
        Some(root) => if tooling {
            args
        } else {
            args + seq!["--sysroot"@, root@]
        },
        None => args,
    }
}

/// The arguments of the rewritten compiler invocation.
pub open spec fn rewritten_args(args: Seq<String>, engine: BuildEngine) -> Seq<Seq<char>> {
    sysroot_args(
        emission_args(views(args), planned_emit(args, engine), plans_repair(args, engine)),
        engine.sysroot,
        is_tooling(args, engine),
    )
}

/// A binary of the project compiled under an emission kind that asks for
/// repair keeps every argument but the emission flags, in order, none of
/// them beginning with `--emit`; then asks for dependency metadata and
/// textual IR, and for link-time optimization; then names the alternate
/// system root, where one is configured.
pub proof fn law_repair_kind_rewrite(args: Seq<String>, engine: BuildEngine)
    requires
        is_binary_target(args),
        !is_tooling(args, engine),
        needs_repair(engine.emit),
    ensures
        ({
            let out = rewritten_args(args, engine);
            let kept = kept_args(views(args));
            let root = match engine.sysroot {
                Some(r) => seq!["--sysroot"@, r@],
                None => Seq::empty(),
            };
            &&& out == kept + seq!["--emit"@, "dep-info,llvm-ir"@, "-C"@, "lto"@] + root
            &&& forall|j: int| 0 <= j < kept.len() ==> !has_prefix(#[trigger] kept[j], "--emit"@)
        }),
{
    reveal_strlit("dep-info,");
    reveal_strlit("llvm-ir");
    reveal_strlit("dep-info,llvm-ir");
    lemma_kept_args_clean(views(args), 0);
    let kept = kept_args(views(args));
    let e = kept + seq!["--emit"@, "dep-info,"@ + "llvm-ir"@] + seq!["-C"@, "lto"@];
    assert(emission_args(views(args), planned_emit(args, engine), true) == e);
    assert("dep-info,"@ + "llvm-ir"@ =~= "dep-info,llvm-ir"@);
    assert(e =~= kept + seq!["--emit"@, "dep-info,llvm-ir"@, "-C"@, "lto"@]);
    match engine.sysroot {
        Some(r) => {
            assert(e + seq!["--sysroot"@, r@] =~= kept + seq![
                "--emit"@,
                "dep-info,llvm-ir"@,
                "-C"@,
                "lto"@,
            ] + seq!["--sysroot"@, r@]);
        },
        None => {
            assert(e =~= kept + seq!["--emit"@, "dep-info,llvm-ir"@, "-C"@, "lto"@] + Seq::<
                Seq<char>,
            >::empty());
        },
    }
}

/// A compile of build-time tooling runs as it came: in particular the
/// alternate system root is never added to it.
pub proof fn law_tooling_runs_unchanged(args: Seq<String>, engine: BuildEngine)
    requires
        is_tooling(args, engine),
    ensures
        rewritten_args(args, engine) == views(args),
{
}

/// The arguments with the emission flags removed and `--emit
/// dep-info,<emit>` appended, followed by `-C lto` where `lto` holds.
fn emission_rewrite(args: &Vec<String>, emit: &str, lto: bool) -> (r: Vec<String>)
    ensures
        views(r@) == emission_args(views(args@), Some(emit@), lto),
{
    let ghost v = views(args@);
    let mut out: Vec<String> = Vec::new();
    let mut i: usize = 0;
    assert(views(out@) + kept_args_from(v, 0) =~= kept_args(v));
    while i < args.len()
        invariant
            i <= args@.len(),
            v == views(args@),
            views(out@) + kept_args_from(v, i as int) == kept_args(v),
        decreases args@.len() - i,
    {
        let ghost before = views(out@);
        assert(v[i as int] == args@[i as int]@);
        if same_text(args[i].as_str(), "--emit") && i + 1 < args.len() {
            i = i + 2;
        } else if starts_with(args[i].as_str(), "--emit") {
            i = i + 1;
        } else {
            out.push(args[i].clone());
            proof {
                assert(views(out@) =~= before.push(v[i as int]));
                assert(before + (seq![v[i as int]] + kept_args_from(v, i + 1)) =~= views(out@)
                    + kept_args_from(v, i + 1));
            }
            i = i + 1;
        }
    }
    assert(views(out@) + kept_args_from(v, i as int) =~= views(out@));
    let ghost kept = out@;
    out.push(String::from_str("--emit"));
    out.push(concatenate("dep-info,", emit));
    if lto {
        out.push(String::from_str("-C"));
        out.push(String::from_str("lto"));
    }
    proof {
        let want = emission_args(views(args@), Some(emit@), lto);
        assert(views(out@).len() == want.len());
        assert forall|k: int| 0 <= k < want.len() implies views(out@)[k] == want[k] by {
            if k < kept.len() {
                assert(views(out@)[k] == views(kept)[k]);
            }
        }
        assert(views(out@) =~= want);
    }
    out
}

/// The plan for a compiler invocation's unit, for the stages after the
/// first pass.
pub struct UnitPlan {
    pub crate_name: String,
    pub out_dir: String,
    /// The IR module is to be repaired and optimized.
    pub repair: bool,
    /// The emission kind that the second stage dispatches on.
    pub emit: Option<String>,
}

/// A command ready to run, with the plan for its unit where it is a
/// compiler invocation.
pub struct Prepared {
    pub command: CompileCommand,
    pub unit: Option<UnitPlan>,
}

/// Prepares an intercepted command. Other tools pass through unchanged.
/// A compiler invocation is classified; for the project's own binaries an
/// emission kind, where configured, is requested next to the dependency
/// metadata (textual IR and link-time optimization for the kinds that ask
/// for repair), and the alternate system root is added to every compile but
/// tooling. Environment and working directory are kept.
pub fn prepare(cmd: CompileCommand, engine: &BuildEngine) -> (r: Result<Prepared, ClassifyError>)
    ensures
        cmd.kind != ToolKind::Rustc ==> r == Ok::<Prepared, ClassifyError>(
            (Prepared { command: cmd, unit: None }),
        ),
        cmd.kind == ToolKind::Rustc ==> {
            &&& classify_error(cmd.args@) matches Some(e) ==> r == Err::<Prepared, ClassifyError>(e)
            &&& classify_error(cmd.args@) is None ==> r is Ok
        },
        cmd.kind == ToolKind::Rustc && r is Ok ==> {
            let p = r->Ok_0;
            let args = cmd.args@;
            &&& p.command.kind == cmd.kind
            &&& p.command.envs == cmd.envs
            &&& p.command.cwd == cmd.cwd
            &&& views(p.command.args@) == rewritten_args(args, *engine)
            &&& p.unit is Some
            &&& Some(p.unit->0.crate_name@) == crate_name_of(args)
            &&& Some(p.unit->0.out_dir@) == out_dir_of(args)
            &&& p.unit->0.repair == plans_repair(args, *engine)
            &&& p.unit->0.emit == if is_binary_target(args) && !is_tooling(args, *engine) {
                engine.emit
            } else {
                None
            }
        },
{
    match cmd.kind {
        ToolKind::Rustc => {},
        _ => return Ok(Prepared { command: cmd, unit: None }),
    }
    let c = match classify(&cmd.args, engine) {
        Ok(c) => c,
        Err(e) => return Err(e),
    };
    let CompileCommand { kind, args, envs, cwd } = cmd;
    let own_binary = c.is_binary && !c.is_build;
    let repair = own_binary && BuildEngine::emit_needs_35(&engine.emit);
    let mut new_args = if !own_binary {
        args
    } else if repair {
        emission_rewrite(&args, "llvm-ir", true)
    } else {
        match &engine.emit {
            Some(e) => emission_rewrite(&args, e.as_str(), false),
            None => args,
        }
    };
    let ghost emitted = new_args@;
    if !c.is_build {
        match &engine.sysroot {
            Some(root) => {
                new_args.push(String::from_str("--sysroot"));
                new_args.push(root.clone());
                proof {
                    assert(views(new_args@) =~= views(emitted)
                        + seq!["--sysroot"@, root@]);
                }
            },
            None => {},
        }
    }
    let emit = if own_binary {
        match &engine.emit {
            Some(e) => Some(e.clone()),
            None => None,
        }
    } else {
        None
    };
    let unit = UnitPlan { crate_name: c.crate_name, out_dir: c.out_dir, repair, emit };
    Ok(Prepared { command: CompileCommand { kind, args: new_args, envs, cwd }, unit: Some(unit) })
}

} // verus!
