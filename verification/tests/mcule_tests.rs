use vasea::mcule::CompileStep;
use vasea::redoxri::self_compile_prelude;
use vasea::{
    forced_rebuild_exit, rebuild_exit, same_text, self_compile_action, status_code, BuildConfig, CommandOutcome, Mcule,
    Redoxri, ScriptAction, MUTED_NOT_STARTED, MUTED_NO_CODE, NOT_STARTED, NO_CODE,
};

fn strings(v: &[&str]) -> Vec<String> {
    v.iter().map(|s| s.to_string()).collect()
}

#[test]
fn new_makes_outpath_relative() {
    let m = Mcule::new("output", "out/");
    assert_eq!(m.name, "output");
    assert_eq!(m.outpath, "./out/");
    let k = Mcule::new("lib", "./out/lib.rlib");
    assert_eq!(k.outpath, "./out/lib.rlib");
    assert!(!m.is_muted());
    assert!(m.is_successful());
    assert!(m.inputs().is_empty());
    assert!(m.recipe().is_empty());
}

#[test]
fn add_step_replaces_out_placeholder() {
    let m = Mcule::new("vasea", "out/libvasae.rlib")
        .add_step(&["rustc", "src/lib.rs", "-o", "$out", "--crate-type=lib"]);
    assert_eq!(
        m.recipe(),
        &vec![strings(&["rustc", "src/lib.rs", "-o", "./out/libvasae.rlib", "--crate-type=lib"])]
    );
    let m = m.add_step(&["mkdir", "out"]);
    assert_eq!(m.recipe().len(), 2);
    assert_eq!(m.recipe()[1], strings(&["mkdir", "out"]));
}

#[test]
fn with_appends_inputs_in_order() {
    let a: Mcule = "src/lib.rs".into();
    let b: Mcule = String::from("tests/tests.rs").into();
    let m = Mcule::new("tests", "out/test").with(&[a]).with(&[b]);
    let outs: Vec<&str> = m.inputs().iter().map(|i| i.outpath.as_str()).collect();
    assert_eq!(outs, vec!["src/lib.rs", "tests/tests.rs"]);
    assert_eq!(m.inputs()[0].name, "");
}

#[test]
fn mute_and_unmute() {
    let mut m = Mcule::new("x", "ab");
    let copy = m.mute();
    assert!(m.is_muted());
    assert!(copy.is_muted());
    let copy = m.unmute();
    assert!(!m.is_muted());
    assert!(!copy.is_muted());
    assert_eq!(copy.outpath, "./ab");
}

#[test]
fn report_records_success() {
    let mut m = Mcule::new("x", "ab");
    let r = m.report_and_just_compile(vec![0, 0]);
    assert!(r.is_successful());
    assert!(m.is_successful());
    m.report_and_just_compile(vec![0, 1, 0]);
    assert!(!m.is_successful());
    m.report_and_just_compile(vec![]);
    assert!(m.is_successful());
}

#[test]
fn success_depends_on_inputs() {
    let mut bad = Mcule::new("bad", "bad");
    bad.report_and_just_compile(vec![NOT_STARTED]);
    let top = Mcule::new("top", "top").with(&[bad]);
    assert!(!top.is_successful());
    let fine = Mcule::new("top", "top").with(&["f".into()]);
    assert!(fine.is_successful());
}

#[test]
fn up_to_date_from_ages() {
    let m = Mcule::new("t", "out/t").with(&["a".into(), "b".into()]);
    assert!(m.is_up_to_date(Some(10), &vec![Some(10), Some(20)]));
    assert!(!m.is_up_to_date(Some(10), &vec![Some(5), None]));
    assert!(!m.is_up_to_date(None, &vec![None, None]));
    assert!(!m.needs_compile(Some(10), &vec![Some(10), Some(20)]));
    assert!(m.needs_compile(Some(10), &vec![Some(20), Some(9)]));
    assert!(m.needs_compile(None, &vec![None, None]));
}

#[test]
fn status_codes() {
    assert_eq!(status_code(false, &CommandOutcome::Exited(3)), 3);
    assert_eq!(status_code(true, &CommandOutcome::Exited(0)), 0);
    assert_eq!(status_code(true, &CommandOutcome::NoExitCode), MUTED_NO_CODE);
    assert_eq!(status_code(true, &CommandOutcome::NotStarted), MUTED_NOT_STARTED);
    assert_eq!(status_code(false, &CommandOutcome::NoExitCode), NO_CODE);
    assert_eq!(status_code(false, &CommandOutcome::NotStarted), NOT_STARTED);
    assert_eq!(MUTED_NO_CODE, -0x7999_9998);
    assert_eq!(MUTED_NOT_STARTED, -0x7999_9997);
    assert_eq!(NO_CODE, -0x7999_9999);
    assert_eq!(NOT_STARTED, i32::MIN);
}

#[test]
fn clone_keeps_everything() {
    let mut m = Mcule::new("x", "out/x")
        .with(&[Mcule::new("y", "y1").add_step(&["cc", "$out"])])
        .add_step(&["ld", "$out"]);
    m.mute();
    m.report_and_just_compile(vec![0, 4]);
    let c = m.clone();
    assert_eq!(c.name, m.name);
    assert_eq!(c.outpath, m.outpath);
    assert_eq!(c.recipe(), m.recipe());
    assert_eq!(c.is_muted(), m.is_muted());
    assert_eq!(c.is_successful(), m.is_successful());
    assert_eq!(c.inputs()[0].recipe(), &vec![strings(&["cc", "./y1"])]);
}

#[test]
fn parse_args_keywords() {
    let cases = [
        ("rebuild", Some("rebuild_all")),
        ("self", Some("self_build")),
        ("clean", Some("clean")),
        ("get", Some("get_pkgs")),
        ("run", Some("run")),
        ("build", None),
        ("", None),
    ];
    for (word, flag) in cases {
        let args = strings(&["./build", word]);
        let mut settings = strings(&["-O"]);
        let r = Redoxri::parse_args_to_settings(&args, &mut settings);
        match flag {
            Some(f) => {
                assert!(r);
                assert_eq!(settings, strings(&["-O", "--cfg", f]));
            }
            None => {
                assert!(!r);
                assert_eq!(settings, strings(&["-O"]));
            }
        }
    }
}

#[test]
fn from_args_builds_the_script_unit() {
    let (rx, force) = Redoxri::from_args(&BuildConfig::plain(), &["", "--cfg", "", "debug"], strings(&["./build", "clean"]));
    assert!(force);
    assert_eq!(rx.args, strings(&["./build", "clean"]));
    assert_eq!(rx.args(), &strings(&["./build", "clean"]));
    assert!(!rx.mcule().is_muted());
    let m = rx.mcule();
    assert_eq!(m.name, "redoxri_script");
    assert_eq!(m.outpath, "./build");
    let outs: Vec<&str> = m.inputs().iter().map(|i| i.outpath.as_str()).collect();
    assert_eq!(outs, vec!["./build.rs", "redoxri.rs"]);
    assert_eq!(
        m.recipe(),
        &vec![strings(&[
            "rustc", "./build.rs", "--cfg", "bootstrapped", "--cfg", "debug", "--cfg", "clean"
        ])]
    );
    let (rx, force) = Redoxri::from_args(&BuildConfig::default(), &[""], strings(&["build"]));
    assert!(!force);
    assert_eq!(rx.mcule().outpath, "./build");
    assert_eq!(rx.mcule().recipe(), &vec![strings(&["rustc", "build.rs", "--cfg", "bootstrapped"])]);
}

#[test]
fn self_compile_decisions() {
    let plain = BuildConfig::plain();
    assert_eq!(self_compile_action(&plain, true, true), ScriptAction::ForceRebuild);
    assert_eq!(self_compile_action(&plain, true, false), ScriptAction::ForceRebuild);
    assert_eq!(self_compile_action(&plain, false, false), ScriptAction::Rebuild);
    assert_eq!(self_compile_action(&plain, false, true), ScriptAction::Proceed);
    let clean = BuildConfig { clean: true, ..plain };
    assert_eq!(self_compile_action(&clean, false, false), ScriptAction::Proceed);
    assert_eq!(self_compile_action(&clean, true, false), ScriptAction::ForceRebuild);
    assert_eq!(self_compile_prelude(&plain), (false, true));
    assert_eq!(self_compile_prelude(&clean), (true, true));
    let run = BuildConfig { run: true, bootstrapped: true, ..plain };
    assert_eq!(self_compile_prelude(&run), (true, false));
    assert_eq!(forced_rebuild_exit(), (true, 0));
    assert_eq!(rebuild_exit(true), (true, 0));
    assert_eq!(rebuild_exit(false), (false, 2));
}

#[test]
fn same_text_compares() {
    assert!(same_text("$out", "$out"));
    assert!(!same_text("$out", "$ou"));
}

#[test]
fn configured_units() {
    let plain = BuildConfig::plain();
    let iso = BuildConfig { isolate: true, ..plain };
    let m = Mcule::configured(&iso, "lib", "out/lib.rlib");
    assert_eq!(m.outpath(), "./out/out/lib.rlib");
    assert_eq!(m.name(), "lib");
    assert_eq!(Mcule::configured(&iso, "x", "./x").outpath(), "./out/./x");
    let muted = BuildConfig { mute_on_default: true, ..plain };
    let m = Mcule::configured(&muted, "x", "x1");
    assert!(m.is_muted());
    assert_eq!(m.outpath(), "./x1");
    assert!(!Mcule::configured(&plain, "x", "x1").is_muted());
}

#[test]
fn script_unit_under_options() {
    let plain = BuildConfig::plain();
    let cfg = BuildConfig { mute_self: true, isolate: true, ..plain };
    let (rx, force) = Redoxri::from_args(&cfg, &["$out"], strings(&["./build"]));
    assert!(!force);
    assert!(rx.mcule().is_muted());
    assert_eq!(rx.mcule().outpath(), "./out/./build");
    assert_eq!(
        rx.mcule().recipe(),
        &vec![strings(&["rustc", "./build.rs", "--cfg", "bootstrapped", "./out/./build"])]
    );
}

#[test]
fn compile_steps() {
    let plain = BuildConfig::plain();
    let clean = BuildConfig { clean: true, ..plain };
    let bare = Mcule::new("a", "a1");
    let made = Mcule::new("b", "b1").add_step(&["touch", "$out"]);
    assert_eq!(bare.compile_first_step(&clean, Some(3)), CompileStep::Skip);
    assert_eq!(made.compile_first_step(&clean, None), CompileStep::Clean);
    assert_eq!(made.compile_first_step(&plain, None), CompileStep::Build);
    assert_eq!(made.compile_first_step(&plain, Some(3)), CompileStep::VisitInputs);
}

#[test]
fn unmute_on_failure_reruns_failed_units() {
    let plain = BuildConfig::plain();
    let unmute = BuildConfig { unmute_on_fail: true, ..plain };
    let mut m = Mcule::new("a", "a1");
    m.mute();
    m.report_and_just_compile(vec![1]);
    assert!(!m.unmute_on_failure(&plain));
    assert!(m.is_muted());
    assert!(m.unmute_on_failure(&unmute));
    assert!(!m.is_muted());
    let mut ok = Mcule::new("b", "b1");
    ok.mute();
    ok.report_and_just_compile(vec![0]);
    assert!(!ok.unmute_on_failure(&unmute));
    assert!(ok.is_muted());
}

#[test]
fn with_in_two_steps_equals_with_all() {
    let base = Mcule::new("t", "t1");
    let one = base.clone().with(&["a".into()]).with(&["b".into(), "c".into()]);
    let all = base.clone().with(&["a".into(), "b".into(), "c".into()]);
    assert!(one == all);
}

#[test]
fn units_compare_by_value() {
    let a = Mcule::new("t", "t1").add_step(&["x"]);
    let b = Mcule::new("t", "t1").add_step(&["x"]);
    assert!(a == b);
    assert!(a != Mcule::new("t", "t2"));
}

#[test]
fn up_to_date_looks_at_direct_inputs_only() {
    // Same output and input paths, different sub-inputs: same answer for the same ages.
    let deep: Mcule = Mcule::new("a", "a1").with(&["z".into()]);
    let m = Mcule::new("t", "t1").with(&[deep]);
    let m2 = Mcule::new("t", "t1").with(&[Mcule::new("a", "a1")]);
    for (own, age) in [(Some(5u128), Some(7u128)), (Some(5), Some(3)), (None, None)] {
        assert_eq!(m.is_up_to_date(own, &vec![age]), m2.is_up_to_date(own, &vec![age]));
    }
}
