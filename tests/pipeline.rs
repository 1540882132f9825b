use emscripten_engine::dispatch::{browser_invocation, ir_module_path, unit_file, DispatchError};
use emscripten_engine::engine::BuildEngine;
use emscripten_engine::optimize::{apply_optimizer_output, optimizer_invocation, PipelineError};
use emscripten_engine::repair::{repair_line, repair_module};
use emscripten_engine::text::{concatenate, replace, same_text, starts_with};
use emscripten_engine::tool::{join, program_or_default};

fn engine(emcc: Option<&str>, opt: Option<&str>) -> BuildEngine {
    BuildEngine {
        target: None,
        sysroot: None,
        emcc: emcc.map(|s| s.to_string()),
        opt: opt.map(|s| s.to_string()),
        emit: None,
    }
}

#[test]
fn distinct_metadata_is_collapsed() {
    assert_eq!(repair_line("!7 = distinct !{!1}"), "!7 = metadata !{metadata !1}");
    assert_eq!(repair_line("!0 = !{i32 1, !\"x\"}"), "!0 = metadata !{i32 1, metadata !\"x\"}");
}

#[test]
fn bare_metadata_line_round_trips() {
    assert_eq!(repair_line("!{i32 2}"), "!{i32 2}");
    assert_eq!(repair_line("!"), "!");
}

#[test]
fn plain_lines_are_kept() {
    for l in ["define void @f() {", "  call void @g(), !dbg !5", "", "; distinct metadata !1"] {
        assert_eq!(repair_line(l), l);
        assert_eq!(repair_line(&repair_line(l)), l);
    }
}

#[test]
fn module_repair_ends_every_line() {
    let lines = vec!["define i32 @main() {".to_string(), "!1 = distinct !{}".to_string(), "}".to_string()];
    assert_eq!(repair_module(&lines), "define i32 @main() {\n!1 = metadata !{}\n}\n");
    assert_eq!(repair_module(&Vec::new()), "");
}

#[test]
fn optimizer_command_line() {
    let t = optimizer_invocation(&engine(None, None), "/usr/lib/engine");
    assert_eq!(t.program, "opt");
    assert_eq!(
        t.args,
        vec![
            "-load=/usr/lib/engine/RemoveOverflowChecks.so",
            "-load=/usr/lib/engine/RemoveAssume.so",
            "-remove-overflow-checks",
            "-remove-assume",
            "-globaldce",
            "-S",
        ]
    );
    let t = optimizer_invocation(&engine(None, Some("/llvm/bin/opt")), "/plugins/");
    assert_eq!(t.program, "/llvm/bin/opt");
    assert_eq!(t.args[0], "-load=/plugins/RemoveOverflowChecks.so");
    assert_eq!(t.args[1], "-load=/plugins/RemoveAssume.so");
}

#[test]
fn optimizer_failure_leaves_module() {
    let mut module = b"!1 = metadata !{}\n".to_vec();
    let r = apply_optimizer_output(&mut module, false, b"garbage".to_vec());
    assert_eq!(r, Err(PipelineError::OptimizerFailed));
    assert_eq!(module, b"!1 = metadata !{}\n".to_vec());
}

#[test]
fn optimizer_success_replaces_module() {
    let mut module = b"old".to_vec();
    let r = apply_optimizer_output(&mut module, true, b"new module".to_vec());
    assert_eq!(r, Ok(()));
    assert_eq!(module, b"new module".to_vec());
}

#[test]
fn html_dispatch() {
    let t = browser_invocation(&Some("em-html".to_string()), &engine(None, None), "app", "/tmp/build")
        .unwrap()
        .unwrap();
    assert_eq!(t.program, "emcc");
    assert_eq!(
        t.args,
        vec!["/tmp/build/app.ll", "-lGL", "-lSDL", "-s", "USE_SDL=2", "-o", "/tmp/build/app.html"]
    );
}

#[test]
fn js_dispatch_with_configured_toolchain() {
    let t = browser_invocation(&Some("em-js".to_string()), &engine(Some("/em/emcc"), None), "game", "out")
        .unwrap()
        .unwrap();
    assert_eq!(t.program, "/em/emcc");
    assert_eq!(t.args[0], "out/game.ll");
    assert_eq!(t.args[6], "out/game.js");
}

#[test]
fn unknown_browser_kind_is_fatal() {
    let r = browser_invocation(&Some("em-htm".to_string()), &engine(None, None), "app", "/tmp/build");
    assert!(matches!(r, Err(DispatchError::UnsupportedBrowserKind)));
    let r = browser_invocation(&Some("em-".to_string()), &engine(None, None), "app", "/tmp/build");
    assert!(matches!(r, Err(DispatchError::UnsupportedBrowserKind)));
}

#[test]
fn no_dispatch_outside_browser_kinds() {
    for emit in [None, Some("llvm35-ir".to_string()), Some("asm".to_string())] {
        let r = browser_invocation(&emit, &engine(None, None), "app", "out");
        assert!(matches!(r, Ok(None)));
    }
}

#[test]
fn module_and_artifact_paths() {
    assert_eq!(ir_module_path("/tmp/build", "app"), "/tmp/build/app.ll");
    assert_eq!(unit_file("d", "u", "html"), "d/u.html");
}

#[test]
fn text_helpers() {
    assert!(starts_with("--emit=link", "--emit"));
    assert!(!starts_with("--em", "--emit"));
    assert!(same_text("bin", "bin"));
    assert!(!same_text("bin", "binary"));
    assert_eq!(concatenate("dep-info,", "asm"), "dep-info,asm");
    assert_eq!(replace("aXbXX", "X", "yy"), "ayybyyyy");
    assert_eq!(replace("aaa", "aa", "b"), "ba");
    assert_eq!(join("", "f.so"), "f.so");
    assert_eq!(join("/d", "f.so"), "/d/f.so");
    assert_eq!(join("/d/", "f.so"), "/d/f.so");
    assert_eq!(program_or_default(&None, "opt"), "opt");
    assert_eq!(program_or_default(&Some("x".to_string()), "opt"), "x");
}

#[test]
fn distinct_qualifier_dropped_from_label_line() {
    assert_eq!(repair_line("!7 = distinct !{i32 1}"), "!7 = metadata !{i32 1}");
    assert_eq!(repair_line("!12 = distinct !{}"), "!12 = metadata !{}");
}
