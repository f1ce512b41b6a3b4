use std::collections::HashSet;

use upbuild_rs::exec::entering_message;
use upbuild_rs::{ClassicFile, Config, Error, Exec};

fn strings(v: &[&str]) -> Vec<String> {
    v.iter().map(|s| s.to_string()).collect()
}

fn parse(s: &str) -> ClassicFile {
    ClassicFile::parse_lines(&s.lines().map(String::from).collect::<Vec<_>>()).unwrap()
}

fn cfg(args: &[&str]) -> Config {
    let mut a = strings(&["upbuild"]);
    a.extend(strings(args));
    Config::parse(&a).1
}

#[test]
fn args_drop_separator_or_take_passthrough() {
    let task = strings(&["make", "-j8", "--", "ignored"]);
    // without passthrough arguments only the separator itself goes
    assert_eq!(Exec::with_args(&task, &[], None), ["make", "-j8", "ignored"]);
    assert_eq!(Exec::with_args(&task, &strings(&["all"]), None), ["make", "-j8", "all"]);
}

#[test]
fn args_first_separator_only_and_argv0() {
    let task = strings(&["upbuild", "a", "--", "b", "--", "c"]);
    let me = String::from("/bin/upbuild");
    assert_eq!(Exec::with_args(&task, &[], Some(&me)), ["/bin/upbuild", "a", "b", "--", "c"]);
    assert_eq!(Exec::with_args(&task, &strings(&["x", "y"]), Some(&me)), ["/bin/upbuild", "a", "x", "y"]);
    assert_eq!(Exec::with_args(&strings(&["make"]), &[], None), ["make"]);
}

#[test]
fn directory_resolution_scenarios() {
    assert_eq!(Exec::run_dir(&None, None), None);
    assert_eq!(Exec::run_dir(&Some("..".into()), Some("..".into())), Some("../..".to_string()));
    for base in [None, Some("..".to_string()), Some("/b".to_string()), Some("b/".to_string())] {
        assert_eq!(Exec::run_dir(&base, Some("/a".into())), Some("/a".to_string()));
    }
    assert_eq!(Exec::run_dir(&Some("b/".into()), Some("c".into())), Some("b/c".to_string()));
}

#[test]
fn manifest_directory() {
    assert_eq!(Exec::relative_dir(".upbuild"), None);
    assert_eq!(Exec::relative_dir("./upbuild"), None);
    assert_eq!(Exec::relative_dir("../.upbuild"), Some("..".to_string()));
    assert_eq!(Exec::relative_dir("a/b/.upbuild"), Some("a/b".to_string()));
    assert_eq!(Exec::relative_dir("a//.upbuild"), Some("a".to_string()));
    assert_eq!(Exec::relative_dir("a/b/"), Some("a".to_string()));
    assert_eq!(Exec::relative_dir("/.upbuild"), Some("/".to_string()));
    assert_eq!(Exec::relative_dir("/"), None);
    assert_eq!(Exec::relative_dir(""), None);
}

const MANUAL: &str = "make\n@tags=host\ntests\n&&\nmake\n@tags=target\ncross\n&&\nmake\n@manual\n@tags=release,host\ninstall\n";

#[test]
fn round_trip_tags_and_selection() {
    let file = parse(MANUAL);
    let c = file.commands();
    assert_eq!(c.len(), 3);
    let sets: Vec<HashSet<String>> = c.iter().map(|x| x.tags().iter().cloned().collect()).collect();
    assert_eq!(sets[0], ["host"].iter().map(|s| s.to_string()).collect());
    assert_eq!(sets[1], ["target"].iter().map(|s| s.to_string()).collect());
    assert_eq!(sets[2], ["release", "host"].iter().map(|s| s.to_string()).collect());
    assert_eq!(c[0].args(), ["make", "tests"]);
    assert_eq!(c[1].args(), ["make", "cross"]);
    assert_eq!(c[2].args(), ["make", "install"]);
    let host = strings(&["host"]);
    let on: Vec<bool> = c.iter().map(|x| x.enabled_with_reject(&host, &[])).collect();
    assert_eq!(on, [true, false, true]);
    let on: Vec<bool> = c.iter().map(|x| x.enabled_with_reject(&[], &[])).collect();
    assert_eq!(on, [true, true, false]);
}

#[test]
fn selection_reject_beats_select_and_manual() {
    let file = parse("make\n@manual\n@tags=a\nx\n&&\nmake\n@disable\n@tags=a\ny\n");
    let c = file.commands();
    let a = strings(&["a"]);
    assert!(c[0].enabled_with_reject(&a, &[]));
    assert!(!c[0].enabled_with_reject(&a, &a));
    assert!(!c[1].enabled_with_reject(&a, &[]));
    assert!(!c[1].enabled_with_reject(&[], &[]));
}

#[test]
fn notices_on_directory_changes_only() {
    let file = parse("echo\n1\n&&\necho\n@cd=/some/dir\n2\n&&\necho\n3\n&&\necho\n4\n");
    let plan = Exec::plan("../.upbuild", &file, &cfg(&[]), &[]);
    assert_eq!(plan.entering(), &Some("..".to_string()));
    let s = plan.steps();
    assert_eq!(s.len(), 4);
    let notices: Vec<Option<String>> = s.iter().map(|x| x.entering().clone()).collect();
    assert_eq!(
        notices,
        [None, Some("/some/dir".to_string()), Some("..".to_string()), None]
    );
    let dirs: Vec<Option<String>> = s.iter().map(|x| x.dir().clone()).collect();
    assert_eq!(
        dirs,
        [Some("..".to_string()), Some("/some/dir".to_string()), Some("..".to_string()), Some("..".to_string())]
    );
}

#[test]
fn notice_names_current_directory_as_dot() {
    let file = parse("echo\n@cd=sub\n1\n&&\necho\n2\n");
    let plan = Exec::plan(".upbuild", &file, &cfg(&[]), &[]);
    assert_eq!(plan.entering(), &None);
    let notices: Vec<Option<String>> = plan.steps().iter().map(|x| x.entering().clone()).collect();
    assert_eq!(notices, [Some("sub".to_string()), Some(".".to_string())]);
    assert_eq!(entering_message("sub"), "upbuild: Entering directory `sub'");
}

#[test]
fn retmap_outcomes() {
    let file = parse("uv4\n@retmap=1=>0\n-b\n");
    let plan = Exec::plan(".upbuild", &file, &cfg(&[]), &[]);
    let step = &plan.steps()[0];
    assert!(step.outcome(1).is_ok());
    assert!(step.outcome(0).is_ok());
    assert!(matches!(step.outcome(2), Err(Error::ExitWithExitCode(2))));
    assert!(matches!(step.outcome(-5), Err(Error::ExitWithExitCode(-5))));
    let file = parse("t\n@retmap=0=>3,-1=>0\n");
    let step = &Exec::plan(".upbuild", &file, &cfg(&[]), &[]).steps()[0].args().to_vec();
    assert_eq!(step, &["t"]);
    let c = &file.commands()[0];
    assert_eq!(c.map_code(0), 3);
    assert_eq!(c.map_code(-1), 0);
    assert_eq!(c.map_code(isize::MIN), isize::MIN);
}

#[test]
fn plan_environment_files() {
    let plain = parse("make\n");
    let p = Exec::plan(".upbuild", &plain, &cfg(&[]), &[]);
    assert!(p.default_env());
    assert!(p.env_files().is_empty());
    let p = Exec::plan(".upbuild", &plain, &cfg(&["--ub-no-env"]), &[]);
    assert!(!p.default_env());
    let with_header = parse("@env=a.env\n@env=b.env\n@---\nmake\n");
    let p = Exec::plan(".upbuild", &with_header, &cfg(&["--ub-no-env"]), &[]);
    assert!(!p.default_env());
    assert_eq!(p.env_files(), ["a.env", "b.env"]);
}

#[test]
fn plan_recursion_mkdir_and_outfile() {
    let file = parse("upbuild\n@mkdir=out\n@outfile=log.txt\n--\nx\n&&\nmake\n@tags=t\n");
    let mut a = strings(&["/usr/bin/upbuild", "--ub-reject=t"]);
    a.push("--".into());
    let (_, c) = Config::parse(&a);
    let p = Exec::plan("proj/.upbuild", &file, &c, &strings(&["go"]));
    assert_eq!(p.steps().len(), 1);
    let s = &p.steps()[0];
    assert_eq!(s.args(), ["/usr/bin/upbuild", "go"]);
    assert_eq!(s.dir(), &Some("proj/..".to_string()));
    assert_eq!(s.mk_dir(), &Some("proj/out".to_string()));
    assert_eq!(s.out_file(), &Some("log.txt".to_string()));
    assert_eq!(s.entering(), &Some("proj/..".to_string()));
}
