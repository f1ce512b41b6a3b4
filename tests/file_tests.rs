use std::collections::{HashMap, HashSet};

use upbuild_rs::file::{parse_line, parse_retmap, split_flag, Flags, Line};
use upbuild_rs::{ClassicFile, Cmd, Error};

fn string_set(list: &[&str]) -> HashSet<String> {
    list.iter().map(|s| s.to_string()).collect()
}

fn set_of(v: &[String]) -> HashSet<String> {
    v.iter().cloned().collect()
}

fn lines(s: &str) -> Vec<String> {
    s.lines().map(String::from).collect()
}

fn parse_(s: &str) -> Result<ClassicFile, Error> {
    println!("'{}'", s);
    let file = ClassicFile::parse_lines(&lines(s));
    println!("{:#?}", file);
    file
}

fn parse(s: &str) -> ClassicFile {
    parse_(s).unwrap()
}

fn expect_error(s: &str) -> Error {
    parse_(s).unwrap_err()
}

/// The fields of a task that most tests check.
struct Expect<'a> {
    tags: &'a [&'a str],
    disabled: bool,
    manual: bool,
    recurse: bool,
    cd: Option<&'a str>,
    mkdir: Option<&'a str>,
    outfile: Option<&'a str>,
    args: &'a [&'a str],
}

fn plain<'a>(args: &'a [&'a str]) -> Expect<'a> {
    Expect {
        tags: &[],
        disabled: false,
        manual: false,
        recurse: false,
        cd: None,
        mkdir: None,
        outfile: None,
        args,
    }
}

fn check(cmd: &Cmd, e: Expect) {
    assert_eq!(set_of(cmd.tags()), string_set(e.tags));
    assert_eq!(cmd.disabled(), e.disabled);
    assert_eq!(cmd.manual(), e.manual);
    assert_eq!(cmd.recurse(), e.recurse);
    assert!(cmd.retmap().is_empty());
    assert_eq!(cmd.cd(), &e.cd.map(String::from));
    assert_eq!(cmd.mk_dir(), e.mkdir.map(String::from));
    assert_eq!(cmd.out_file(), e.outfile.map(String::from));
    assert_eq!(cmd.args(), e.args);
}

#[test]
fn test_split_flag() {
    let (a, b) = split_flag("@retmap=1=>0").expect("should succeed");
    assert_eq!(("retmap", "1=>0"), (a.as_str(), b.as_str()));
    let (a, b) = split_flag("@disable").expect("should succeed");
    assert_eq!(("disable", ""), (a.as_str(), b.as_str()));
    assert!(split_flag("foo").is_err());
    assert!(split_flag("").is_err());
}

#[test]
fn test_parse_retmap() {
    assert_eq!(HashMap::from([(1, 0)]), parse_retmap("1=>0").expect("should succeed"));
    assert_eq!(
        HashMap::from([(1, 0), (0, 1), (200000, 200001)]),
        parse_retmap("1=>0,0=>1,200000=>200001").expect("should succeed")
    );
    assert!(parse_retmap("").is_err());
    assert!(parse_retmap("foo").is_err());
    assert!(parse_retmap("1=>0,bar").is_err());
    assert!(parse_retmap("1=>0,0").is_err());
}

fn tags_of(l: Line) -> HashSet<String> {
    match l {
        Line::Flag(Flags::Tags(t)) => set_of(&t),
        other => panic!("expected tags, got {:?}", other),
    }
}

#[test]
fn test_parse_line_flags() {
    assert_eq!(Line::Flag(Flags::Disable), parse_line("@disable").expect("should succeed"));
    assert!(parse_retmap("@disable=").is_err());
    assert!(parse_retmap("@disabl").is_err());

    assert_eq!(Line::Flag(Flags::Manual), parse_line("@manual").expect("should succeed"));
    assert!(parse_retmap("@manual=").is_err());
    assert!(parse_retmap("@manual").is_err());

    assert_eq!(
        Line::Flag(Flags::RetMap(HashMap::from([(1, 0), (0, 1)]))),
        parse_line("@retmap=0=>1,1=>0").expect("should succeed")
    );
    assert!(parse_retmap("@retmap=0=>1,").is_err());
    assert!(parse_retmap("@retmap").is_err());

    assert_eq!(Line::Flag(Flags::Cd("/path/to".into())), parse_line("@cd=/path/to").expect("should succeed"));
    assert!(parse_retmap("@cd=").is_err());
    assert!(parse_retmap("@cd").is_err());

    assert_eq!(
        Line::Flag(Flags::Mkdir("/path/to".into())),
        parse_line("@mkdir=/path/to").expect("should succeed")
    );
    assert!(parse_retmap("@mkdir=").is_err());
    assert!(parse_retmap("@mkdir").is_err());

    assert_eq!(
        Line::Flag(Flags::Outfile("out.txt".into())),
        parse_line("@outfile=out.txt").expect("should succeed")
    );
    assert!(parse_retmap("@outfile=").is_err());
    assert!(parse_retmap("@outfile").is_err());

    assert_eq!(string_set(&["foo", "bar", "bat"]), tags_of(parse_line("@tags=foo,bar,bat").expect("should succeed")));
    assert_eq!(HashSet::new(), tags_of(parse_line("@tags=").expect("should succeed")));
    assert_eq!(string_set(&["foo", "bar=bat"]), tags_of(parse_line("@tags=foo,bar=bat").expect("should succeed")));
    assert!(parse_retmap("@tags").is_err());
}

const MANUAL: &str = r"make
@tags=host
tests
&&
make
@tags=target
cross
&&
make
@manual
@tags=release,host
install
";

#[test]
fn test_tags_parsing() {
    let file = parse(MANUAL);
    let c = file.commands();
    assert_eq!(3, c.len());
    check(&c[0], Expect { tags: &["host"], ..plain(&["make", "tests"]) });
    check(&c[1], Expect { tags: &["target"], ..plain(&["make", "cross"]) });
    check(&c[2], Expect { tags: &["release", "host"], manual: true, ..plain(&["make", "install"]) });
}

#[test]
fn test_disable() {
    let s = "make\ntests\n&&\nmake\n@disable\ninstall\n";
    let file = parse(s);
    let c = file.commands();
    assert_eq!(2, c.len());
    check(&c[0], plain(&["make", "tests"]));
    check(&c[1], Expect { disabled: true, ..plain(&["make", "install"]) });
}

#[test]
fn test_recursive() {
    let s = "make\n-j8\n&&\nupbuild\n";
    let file = parse(s);
    let c = file.commands();
    assert_eq!(2, c.len());
    check(&c[0], plain(&["make", "-j8"]));
    assert_eq!(c[0].directory(), None);
    check(&c[1], Expect { recurse: true, ..plain(&["upbuild"]) });
    assert_eq!(c[1].directory().expect("should exist"), "..");
}

#[test]
fn test_retmap() {
    let s = r"uv4
# uv4 returns 1 if errors occurred - our library includes
# suck so map 1 to a success
@retmap=1=>0
# Also sucks as it outputs to a file
@outfile=log.txt
-j0
-b
project.uvproj
-o
log.txt
";
    let file = parse(s);
    assert_eq!(1, file.commands().len());
    let cmd = &file.commands()[0];

    assert!(cmd.tags().is_empty());
    assert!(!cmd.disabled());
    assert!(!cmd.manual());
    assert!(!cmd.recurse());
    assert_eq!(cmd.retmap(), &HashMap::from([(1, 0)]));
    assert_eq!(cmd.cd(), &None);
    assert_eq!(cmd.mk_dir(), None);
    assert_eq!(cmd.out_file(), Some(String::from("log.txt")));
    assert_eq!(cmd.args(), ["uv4", "-j0", "-b", "project.uvproj", "-o", "log.txt"]);

    for (v, exp) in [(0, 0), (1, 0), (2, 2), (-1, -1), (10000, 10000), (-10000, -10000)] {
        assert_eq!(cmd.map_code(v), exp, "Mapping {} expected {}", v, exp);
    }
}

#[test]
fn test_cd_recursive() {
    let s = "make\n-j8\n&&\nupbuild\n@cd=/path/to/the/rest\n";
    let file = parse(s);
    let c = file.commands();
    assert_eq!(2, c.len());
    check(&c[0], plain(&["make", "-j8"]));
    assert_eq!(c[0].directory(), None);
    check(&c[1], Expect { recurse: true, cd: Some("/path/to/the/rest"), ..plain(&["upbuild"]) });
    assert_eq!(c[1].directory().expect("should exist"), "/path/to/the/rest");
}

fn check_select_reject_tags(file: &ClassicFile, select: &[&str], reject: &[&str], expected: &[bool]) {
    let select: Vec<String> = select.iter().map(|s| s.to_string()).collect();
    let reject: Vec<String> = reject.iter().map(|s| s.to_string()).collect();
    println!("Expecting select={:?} reject={:?} tags to result in {:?}", select, reject, expected);
    let got: Vec<bool> = file.commands().iter().map(|x| x.enabled_with_reject(&select, &reject)).collect();
    assert_eq!(got, expected);
}

fn check_select_tags(file: &ClassicFile, select: &[&str], expected: &[bool]) {
    check_select_reject_tags(file, select, &[], expected)
}

#[test]
fn test_tags_selection() {
    let file = parse(MANUAL);
    let c = file.commands();
    assert_eq!(3, c.len());
    assert_eq!(set_of(c[0].tags()), string_set(&["host"]));
    assert!(!c[0].disabled());
    assert!(!c[0].manual());
    assert_eq!(set_of(c[1].tags()), string_set(&["target"]));
    assert!(!c[1].disabled());
    assert!(!c[1].manual());
    assert_eq!(set_of(c[2].tags()), string_set(&["release", "host"]));
    assert!(!c[2].disabled());
    assert!(c[2].manual());
    assert!(!c[2].recurse());

    check_select_tags(&file, &[], &[true, true, false]);
    check_select_tags(&file, &["host"], &[true, false, true]);
    check_select_tags(&file, &["release"], &[false, false, true]);
    check_select_tags(&file, &["target"], &[false, true, false]);
    check_select_tags(&file, &["release", "host"], &[true, false, true]);
    check_select_tags(&file, &["release", "target"], &[false, true, true]);
    check_select_tags(&file, &["release", "target", "host"], &[true, true, true]);

    check_select_reject_tags(&file, &["release", "target", "host"], &[], &[true, true, true]);
    check_select_reject_tags(&file, &[], &[], &[true, true, false]);
    check_select_reject_tags(&file, &[], &["target"], &[true, false, false]);
    check_select_reject_tags(&file, &[], &["host"], &[false, true, false]);
    check_select_reject_tags(&file, &["release"], &["host"], &[false, false, false]);
    check_select_reject_tags(&file, &["release", "target"], &["host"], &[false, true, false]);
    check_select_reject_tags(&file, &["host"], &["release"], &[true, false, false]);
}

#[test]
fn test_cd_mkdir() {
    let s = "cmake\n@cd=build\n@mkdir=build\n..\n--fresh\n&&\ncmake\n@cd=build\n--build\n.\n";
    let file = parse(s);
    let c = file.commands();
    assert_eq!(2, c.len());
    check(&c[0], Expect { cd: Some("build"), mkdir: Some("build"), ..plain(&["cmake", "..", "--fresh"]) });
    assert_eq!(c[0].directory().expect("should exist"), "build");
    check(&c[1], Expect { cd: Some("build"), ..plain(&["cmake", "--build", "."]) });
    assert_eq!(c[1].directory().expect("should exist"), "build");
}

#[test]
fn test_header_basic_parse() {
    let s = "@env=.env\n@---\nmake\ntests\n&&\nmake\n@disable\ninstall\n";
    let file = parse(s);
    assert_eq!(1, file.header().dotenv().len());
    assert_eq!(file.header().dotenv()[0], ".env");
    let c = file.commands();
    assert_eq!(2, c.len());
    check(&c[0], plain(&["make", "tests"]));
    check(&c[1], Expect { disabled: true, ..plain(&["make", "install"]) });

    let s = "@env=.env\n@---\n@---\nmake\ntests\n&&\nmake\n@disable\ninstall\n";
    let e = expect_error(s);
    assert!(e.message().contains("Header separator not allowed"), "e={}", e.message());

    let s = "@env=.env\n@---\nmake\n@env=.env2\ntests\n&&\nmake\n@disable\ninstall\n";
    let file = parse(s);
    assert_eq!(1, file.header().dotenv().len());
    assert_eq!(file.header().dotenv()[0], ".env");
    let c = file.commands();
    assert_eq!(2, c.len());
    check(&c[0], plain(&["make", "tests"]));
    assert_eq!(1, c[0].dotenv().len());
    assert_eq!(c[0].dotenv()[0], ".env2");
    check(&c[1], Expect { disabled: true, ..plain(&["make", "install"]) });
    assert_eq!(0, c[1].dotenv().len());

    let s = "make\n@env=.env\ntests\n&&\nmake\n@disable\ninstall\n";
    let file = parse(s);
    assert_eq!(0, file.header().dotenv().len());
    let c = file.commands();
    assert_eq!(2, c.len());
    check(&c[0], plain(&["make", "tests"]));
    assert_eq!(1, c[0].dotenv().len());
    assert_eq!(c[0].dotenv()[0], ".env");
    check(&c[1], Expect { disabled: true, ..plain(&["make", "install"]) });
    assert_eq!(0, c[1].dotenv().len());
}

#[test]
fn parse_errors_each_kind() {
    assert!(matches!(expect_error(""), Error::EmptyEntry));
    assert!(matches!(expect_error("make\n&&\n"), Error::EmptyEntry));
    assert!(matches!(expect_error("&&\nmake\n"), Error::EmptyEntry));
    assert!(matches!(expect_error("@disable\nmake\n"), Error::FlagBeforeCommand(l) if l == "@disable"));
    assert!(matches!(expect_error("@---\n@env=x\nmake\n"), Error::FlagBeforeCommand(l) if l == "@env=x"));
    assert!(matches!(expect_error("make\n@bogus=1\n"), Error::InvalidTag(l) if l == "@bogus=1"));
    assert!(matches!(expect_error("make\n@disable=yes\n"), Error::InvalidTag(l) if l == "@disable=yes"));
    assert!(matches!(expect_error("make\n@retmap=1=>x\n"), Error::InvalidRetMapDefinition(v) if v == "x"));
    assert!(matches!(expect_error("make\n@retmap=7\n"), Error::InvalidRetMapDefinition(v) if v == "7"));
    assert!(matches!(expect_error("make\n@---\n"), Error::InvalidHeaderField(_)));
}

#[test]
fn parse_comments_and_late_tags() {
    let file = parse("# leading\nmake\n# between\n@tags=a,b\n@tags=c\nall\n");
    let c = file.commands();
    assert_eq!(c.len(), 1);
    assert_eq!(c[0].args(), ["make", "all"]);
    assert_eq!(set_of(c[0].tags()), string_set(&["c"]));
}

#[test]
fn retmap_edge_values() {
    let m = parse_retmap("-1=>0,+2=>-3,1=>5,1=>6").expect("should succeed");
    assert_eq!(m, HashMap::from([(-1, 0), (2, -3), (1, 6)]));
    let big = format!("{}=>0", isize::MAX);
    assert_eq!(parse_retmap(&big).unwrap(), HashMap::from([(isize::MAX, 0)]));
    let small = format!("{}=>0", isize::MIN);
    assert_eq!(parse_retmap(&small).unwrap(), HashMap::from([(isize::MIN, 0)]));
    assert!(parse_retmap("99999999999999999999=>0").is_err());
    assert!(parse_retmap("-=>0").is_err());
    assert!(parse_retmap(" 1=>0").is_err());
}

#[test]
fn error_messages() {
    assert_eq!(Error::InvalidTag("@x".into()).message(), "Tag was not understood: @x");
    assert_eq!(Error::EmptyEntry.message(), "Empty entry");
    assert_eq!(Error::ExitWithExitCode(-12).message(), "Process exited with code: -12");
    assert_eq!(Error::ExitWithSignal(6).message(), "Process exited with signal: 6");
    assert_eq!(Error::ExitWithExitCode(isize::MIN).message(), format!("Process exited with code: {}", isize::MIN));
    assert_eq!(
        Error::UnableToReadOutfile("log.txt".into(), "gone".into()).message(),
        "Unable to read @outfile=log.txt: gone"
    );
    assert_eq!(Error::NotFound(".".into()).message(), "Unable to locate .upbuild from '.'");
}
