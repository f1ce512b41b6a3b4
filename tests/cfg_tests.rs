use std::collections::HashSet;

use upbuild_rs::cfg::{generate_bash_completion, PLACEHOLDER};
use upbuild_rs::{Completion, Config};

fn args(a: &[&str]) -> Vec<String> {
    ["upbuild"].iter().chain(a.iter()).map(|x| x.to_string()).collect()
}

fn do_parse(a: &[&str]) -> (Vec<String>, Config) {
    Config::parse(&args(a))
}

fn string_set(list: &[&str]) -> HashSet<String> {
    list.iter().map(|s| s.to_string()).collect()
}

fn set_of(v: &[String]) -> HashSet<String> {
    v.iter().cloned().collect()
}

/// Checks every field of a configuration parsed after the name `upbuild`.
fn check_config(cfg: &Config, print: bool, select: &[&str], reject: &[&str]) {
    assert_eq!(cfg.print(), print);
    assert!(!cfg.add());
    assert!(!cfg.skip_env());
    assert_eq!(set_of(cfg.select()), string_set(select));
    assert_eq!(set_of(cfg.reject()), string_set(reject));
    assert_eq!(cfg.argv0(), "upbuild");
    assert_eq!(cfg.completion(), &None);
}

fn check_default(cfg: &Config) {
    check_config(cfg, false, &[], &[]);
}

#[test]
fn test_parse() {
    let (v, args) = do_parse(&[]);
    assert!(v.is_empty(), "!is_empty: was {:?}", v);
    check_default(&args);

    let (v, args) = do_parse(&["a", "b"]);
    assert_eq!(v, ["a", "b"]);
    check_default(&args);

    let (v, args) = do_parse(&["--"]);
    assert!(v.is_empty(), "!is_empty: was {:?}", v);
    check_default(&args);

    let (v, args) = do_parse(&["--ub-print"]);
    assert!(v.is_empty(), "!is_empty: was {:?}", v);
    check_config(&args, true, &[], &[]);

    let (v, args) = do_parse(&["--ub-print", "a", "b"]);
    assert_eq!(v, ["a", "b"]);
    check_config(&args, true, &[], &[]);

    // after any non-matched arguments normal arguments are accepted
    let (v, args) = do_parse(&["a", "b", "--ub-print"]);
    assert_eq!(v, ["a", "b", "--ub-print"]);
    check_config(&args, false, &[], &[]);

    // -- ends parsing
    let (v, args) = do_parse(&["--", "--ub-print"]);
    assert_eq!(v, ["--ub-print"]);
    check_config(&args, false, &[], &[]);

    let (v, args) = do_parse(&["--"]);
    assert!(v.is_empty(), "!is_empty: was {:?}", v);
    check_default(&args);
}

#[test]
fn test_parse_tags() {
    let (v, args) = do_parse(&["--ub-select=foo"]);
    assert!(v.is_empty(), "!is_empty: was {:?}", v);
    check_config(&args, false, &["foo"], &[]);

    let (v, args) = do_parse(&["--ub-reject=foo"]);
    assert!(v.is_empty(), "!is_empty: was {:?}", v);
    check_config(&args, false, &[], &["foo"]);

    let (v, args) = do_parse(&["--ub-reject=foo", "--ub-select=bar"]);
    assert!(v.is_empty(), "!is_empty: was {:?}", v);
    check_config(&args, false, &["bar"], &["foo"]);

    let (v, args) = do_parse(&["--ub-reject=foo", "--ub-select=bar", "--ub-select=foo"]);
    assert!(v.is_empty(), "!is_empty: was {:?}", v);
    check_config(&args, false, &["bar", "foo"], &[]);

    let (v, args) = do_parse(&["--ub-reject=foo", "--ub-select=bar", "--ub-reject=bar"]);
    assert!(v.is_empty(), "!is_empty: was {:?}", v);
    check_config(&args, false, &[], &["bar", "foo"]);

    let (v, args) = do_parse(&["--ub-reject=foo", "--ub-select=bar", "--", "--ub-reject=bar"]);
    assert_eq!(v, ["--ub-reject=bar"]);
    check_config(&args, false, &["bar"], &["foo"]);

    let (v, args) = do_parse(&["--ub-reject"]);
    assert_eq!(v, ["--ub-reject"]);
    check_default(&args);

    let (v, args) = do_parse(&["--ub-select"]);
    assert_eq!(v, ["--ub-select"]);
    check_default(&args);

    let (v, args) = do_parse(&["--ub-select="]);
    assert_eq!(v, ["--ub-select="]);
    check_default(&args);
}

#[test]
fn test_bash_completion_render() {
    let comp = generate_bash_completion();
    println!("{}", generate_bash_completion());
    assert!(!comp.contains(PLACEHOLDER));
    assert!(comp.contains("OPTS=(--ub-print --ub-add --ub-no-env --ub-select= --ub-reject=)\n"));
}

#[test]
fn parse_flags_other_options() {
    let (v, cfg) = do_parse(&["--ub-add", "--ub-no-env", "--ub-completion-list-tags", "x"]);
    assert_eq!(v, ["x"]);
    assert!(cfg.add());
    assert!(cfg.skip_env());
    assert!(!cfg.print());
    assert_eq!(cfg.completion(), &Some(Completion::PrintTags));
}

#[test]
fn parse_empty_argument_vector() {
    let (v, cfg) = Config::parse(&[]);
    assert!(v.is_empty());
    check_default(&cfg);
    let d = Config::default();
    check_default(&d);
}

#[test]
fn parse_program_name_is_kept() {
    let a: Vec<String> = ["/path/to/upbuild", "--ub-print", "all"].iter().map(|s| s.to_string()).collect();
    let (v, cfg) = Config::parse(&a);
    assert_eq!(v, ["all"]);
    assert_eq!(cfg.argv0(), "/path/to/upbuild");
    assert!(cfg.print());
}

#[test]
fn parse_unknown_option_stops() {
    let (v, cfg) = do_parse(&["--ub-print", "--other", "--ub-add"]);
    assert_eq!(v, ["--other", "--ub-add"]);
    assert!(cfg.print());
    assert!(!cfg.add());
}

#[test]
fn completion_keeps_indent_and_notes_placeholder() {
    let t = "a\n  # GENERATE THESE ARGUMENTS\n  OPTS=()\nb\n";
    let r = upbuild_rs::cfg::generate_bash_completion_(t);
    assert_eq!(
        r,
        "a\n  # Generated arguments:\n  OPTS=(--ub-print --ub-add --ub-no-env --ub-select= --ub-reject=)\nb"
    );
}

#[test]
fn completion_of_empty_template() {
    assert_eq!(upbuild_rs::cfg::generate_bash_completion_(""), "");
    // empty leading lines add no separator
    assert_eq!(upbuild_rs::cfg::generate_bash_completion_("\n\nx\n"), "x");
}

#[test]
fn completion_render() {
    let r = Completion::PrintCompletion.render();
    assert_eq!(r, generate_bash_completion());
    assert!(r.contains("complete -F _upbuild upbuild"));
}
