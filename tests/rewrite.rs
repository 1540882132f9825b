use emscripten_engine::command::{classify, prepare, ClassifyError, CompileCommand, ToolKind};
use emscripten_engine::dispatch::{browser_invocation, ir_module_path};
use emscripten_engine::engine::BuildEngine;
use emscripten_engine::optimize::optimizer_invocation;
use emscripten_engine::repair::repair_module;

fn strings(v: &[&str]) -> Vec<String> {
    v.iter().map(|s| s.to_string()).collect()
}

fn engine(target: Option<&str>, sysroot: Option<&str>, emit: Option<&str>) -> BuildEngine {
    BuildEngine {
        target: target.map(|s| s.to_string()),
        sysroot: sysroot.map(|s| s.to_string()),
        emcc: None,
        opt: None,
        emit: emit.map(|s| s.to_string()),
    }
}

fn rustc(args: &[&str]) -> CompileCommand {
    CompileCommand {
        kind: ToolKind::Rustc,
        args: strings(args),
        envs: vec![("CARGO_PKG_NAME".to_string(), "app".to_string())],
        cwd: "/work".to_string(),
    }
}

#[test]
fn emit_kinds_that_need_repair() {
    assert!(BuildEngine::emit_needs_35(&Some("llvm35-ir".to_string())));
    assert!(BuildEngine::emit_needs_35(&Some("em-html".to_string())));
    assert!(BuildEngine::emit_needs_35(&Some("em-js".to_string())));
    assert!(!BuildEngine::emit_needs_35(&Some("asm".to_string())));
    assert!(!BuildEngine::emit_needs_35(&Some("llvm35".to_string())));
    assert!(!BuildEngine::emit_needs_35(&Some("em".to_string())));
    assert!(!BuildEngine::emit_needs_35(&None));
}

#[test]
fn other_tools_pass_through_unchanged() {
    let cmd = CompileCommand {
        kind: ToolKind::Other,
        args: strings(&["build.sh", "--emit=link"]),
        envs: vec![("A".to_string(), "1".to_string())],
        cwd: "/w".to_string(),
    };
    let e = engine(Some("asmjs-unknown-emscripten"), Some("/sysroot"), Some("em-html"));
    let p = prepare(cmd, &e).ok().unwrap();
    assert_eq!(p.command.kind, ToolKind::Other);
    assert_eq!(p.command.args, strings(&["build.sh", "--emit=link"]));
    assert_eq!(p.command.envs, vec![("A".to_string(), "1".to_string())]);
    assert_eq!(p.command.cwd, "/w");
    assert!(p.unit.is_none());
}

#[test]
fn browser_binary_end_to_end_rewrite() {
    let cmd = rustc(&[
        "--crate-type", "bin", "--crate-name", "app", "--out-dir", "/tmp/build",
        "--target", "asmjs-unknown-emscripten", "src/main.rs", "--emit=dep-info,link",
    ]);
    let e = engine(Some("asmjs-unknown-emscripten"), Some("/sysroot"), Some("em-html"));
    let p = prepare(cmd, &e).ok().unwrap();
    assert_eq!(
        p.command.args,
        strings(&[
            "--crate-type", "bin", "--crate-name", "app", "--out-dir", "/tmp/build",
            "--target", "asmjs-unknown-emscripten", "src/main.rs",
            "--emit", "dep-info,llvm-ir", "-C", "lto", "--sysroot", "/sysroot",
        ])
    );
    assert_eq!(p.command.envs, vec![("CARGO_PKG_NAME".to_string(), "app".to_string())]);
    assert_eq!(p.command.cwd, "/work");
    assert_eq!(p.command.kind, ToolKind::Rustc);
    let u = p.unit.unwrap();
    assert_eq!(u.crate_name, "app");
    assert_eq!(u.out_dir, "/tmp/build");
    assert!(u.repair);
    assert_eq!(u.emit, Some("em-html".to_string()));
}

#[test]
fn legacy_kind_without_cross_target() {
    let cmd = rustc(&["--crate-name", "app", "--crate-type", "bin", "--out-dir", "out"]);
    let e = engine(None, None, Some("llvm35-ir"));
    let p = prepare(cmd, &e).ok().unwrap();
    assert_eq!(
        p.command.args,
        strings(&[
            "--crate-name", "app", "--crate-type", "bin", "--out-dir", "out",
            "--emit", "dep-info,llvm-ir", "-C", "lto",
        ])
    );
    let u = p.unit.unwrap();
    assert!(u.repair);
    assert_eq!(u.emit, Some("llvm35-ir".to_string()));
}

#[test]
fn plain_kind_is_passed_verbatim_without_lto() {
    let cmd = rustc(&["--crate-type", "bin", "--crate-name", "app", "--out-dir", "out", "--emit=link"]);
    let e = engine(None, None, Some("asm"));
    let p = prepare(cmd, &e).ok().unwrap();
    assert_eq!(
        p.command.args,
        strings(&["--crate-type", "bin", "--crate-name", "app", "--out-dir", "out", "--emit", "dep-info,asm"])
    );
    let u = p.unit.unwrap();
    assert!(!u.repair);
    assert_eq!(u.emit, Some("asm".to_string()));
}

#[test]
fn library_gets_only_the_sysroot() {
    let cmd = rustc(&["--crate-type", "lib", "--crate-name", "dep", "--out-dir", "out", "--target", "t", "--emit=link"]);
    let e = engine(Some("t"), Some("/root"), Some("em-js"));
    let p = prepare(cmd, &e).ok().unwrap();
    assert_eq!(
        p.command.args,
        strings(&["--crate-type", "lib", "--crate-name", "dep", "--out-dir", "out", "--target", "t", "--emit=link", "--sysroot", "/root"])
    );
    let u = p.unit.unwrap();
    assert!(!u.repair);
    assert_eq!(u.emit, None);
}

#[test]
fn build_script_is_tooling_and_unchanged() {
    let args = ["--crate-type", "bin", "--crate-name", "build-script-build", "--out-dir", "out", "--target", "t"];
    let e = engine(Some("t"), Some("/root"), Some("em-html"));
    let p = prepare(rustc(&args), &e).ok().unwrap();
    assert_eq!(p.command.args, strings(&args));
    let u = p.unit.unwrap();
    assert!(!u.repair);
    assert_eq!(u.emit, None);
}

#[test]
fn host_compile_under_cross_target_is_tooling() {
    let args = ["--crate-type", "bin", "--crate-name", "helper", "--out-dir", "out"];
    let e = engine(Some("asmjs-unknown-emscripten"), Some("/root"), Some("llvm35-ir"));
    let c = classify(&strings(&args), &e).ok().unwrap();
    assert!(c.is_binary);
    assert!(!c.has_target);
    assert!(c.is_build);
    let p = prepare(rustc(&args), &e).ok().unwrap();
    assert_eq!(p.command.args, strings(&args));
    assert!(!p.unit.unwrap().repair);
}

#[test]
fn classification_fields() {
    let args = strings(&["--crate-name", "app", "--crate-type", "bin", "--out-dir", "/o", "--target", "x"]);
    let c = classify(&args, &engine(Some("x"), None, None)).ok().unwrap();
    assert!(c.is_binary);
    assert!(c.has_target);
    assert!(!c.is_build);
    assert_eq!(c.crate_name, "app");
    assert_eq!(c.out_dir, "/o");
    let lib = strings(&["--crate-name", "app", "--crate-type", "lib", "--out-dir", "/o", "bin"]);
    assert!(!classify(&lib, &engine(None, None, None)).ok().unwrap().is_binary);
}

#[test]
fn missing_crate_name_is_an_error() {
    let args = strings(&["--crate-type", "bin", "--out-dir", "/o", "--crate-name"]);
    assert_eq!(classify(&args, &engine(None, None, None)).err(), Some(ClassifyError::MissingCrateName));
    let r = prepare(rustc(&["--out-dir", "/o"]), &engine(None, None, None));
    assert!(matches!(r, Err(ClassifyError::MissingCrateName)));
}

#[test]
fn missing_out_dir_is_an_error() {
    let args = strings(&["--crate-type", "bin", "--crate-name", "app"]);
    assert_eq!(classify(&args, &engine(None, None, None)).err(), Some(ClassifyError::MissingOutDir));
    let r = prepare(rustc(&["--crate-name", "app"]), &engine(None, None, None));
    assert!(matches!(r, Err(ClassifyError::MissingOutDir)));
}

#[test]
fn whole_plan_for_a_browser_binary() {
    let cmd = rustc(&[
        "--crate-type", "bin", "--crate-name", "app", "--out-dir", "/tmp/build", "--target", "asmjs-unknown-emscripten",
    ]);
    let e = engine(Some("asmjs-unknown-emscripten"), Some("/sysroot"), Some("em-html"));
    let p = prepare(cmd, &e).ok().unwrap();
    let args = &p.command.args;
    assert!(args.windows(2).any(|w| w[0] == "--emit" && w[1] == "dep-info,llvm-ir"));
    assert!(args.windows(2).any(|w| w[0] == "-C" && w[1] == "lto"));
    assert!(args.windows(2).any(|w| w[0] == "--sysroot" && w[1] == "/sysroot"));
    let u = p.unit.unwrap();
    assert!(u.repair);
    assert_eq!(ir_module_path(&u.out_dir, &u.crate_name), "/tmp/build/app.ll");
    let module = repair_module(&vec!["!7 = distinct !{!7}".to_string()]);
    assert_eq!(module, "!7 = metadata !{metadata !7}\n");
    let opt = optimizer_invocation(&e, "/bin");
    assert_eq!(opt.args.iter().filter(|a| a.starts_with("-load=")).count(), 2);
    let t = browser_invocation(&u.emit, &e, &u.crate_name, &u.out_dir).unwrap().unwrap();
    assert_eq!(t.args[0], "/tmp/build/app.ll");
    assert_eq!(t.args[6], "/tmp/build/app.html");
}

#[test]
fn split_emission_flag_is_replaced_with_its_value() {
    let args = ["--crate-name", "n", "--crate-type", "bin", "--out-dir", "d", "--emit", "link"];
    let p = prepare(rustc(&args), &engine(None, None, Some("em-html"))).ok().unwrap();
    assert_eq!(
        p.command.args,
        strings(&["--crate-name", "n", "--crate-type", "bin", "--out-dir", "d", "--emit", "dep-info,llvm-ir", "-C", "lto"])
    );
    let p = prepare(rustc(&args), &engine(None, None, Some("asm"))).ok().unwrap();
    assert_eq!(
        p.command.args,
        strings(&["--crate-name", "n", "--crate-type", "bin", "--out-dir", "d", "--emit", "dep-info,asm"])
    );
}

#[test]
fn split_emission_flag_in_the_middle() {
    let args = ["--emit", "dep-info,link", "--crate-name", "n", "--crate-type", "bin", "--out-dir", "d", "--emit=metadata", "main.rs"];
    let p = prepare(rustc(&args), &engine(None, Some("/r"), Some("asm"))).ok().unwrap();
    assert_eq!(
        p.command.args,
        strings(&["--crate-name", "n", "--crate-type", "bin", "--out-dir", "d", "main.rs", "--emit", "dep-info,asm", "--sysroot", "/r"])
    );
}
