//! The `--ub-*` options that precede a command line's own arguments.
use vstd::prelude::*;

use crate::file::tag_set;
use crate::text::{
    find_text, first_match, has_prefix, lines_of, opt_text, same_text, slice_text, split_once_at,
    split_once_char, starts_with_text, text_lines, texts,
};

verus! {

/// What was asked of this program on its command line.
#[derive(Debug)]
pub struct Config {
    print: bool,
    skip_env: bool,
    select: Vec<String>,
    reject: Vec<String>,
    add: bool,
    argv0: String,
    completion: Option<Completion>,
}

/// A request for shell-completion output.
#[derive(Debug, PartialEq, Eq, Clone, Copy)]
pub enum Completion {
    PrintCompletion,
    PrintTags,
}

/// A [`Config`] as plain values; the tag lists are sets.
pub struct ConfigView {
    pub print: bool,
    pub skip_env: bool,
    pub select: Set<Seq<char>>,
    pub reject: Set<Seq<char>>,
    pub add: bool,
    pub argv0: Seq<char>,
    pub completion: Option<Completion>,
}

impl View for Config {
    type V = ConfigView;

    closed spec fn view(&self) -> ConfigView {
        ConfigView {
            print: self.print,
            skip_env: self.skip_env,
            select: tag_set(texts(self.select@)),
            reject: tag_set(texts(self.reject@)),
            add: self.add,
            argv0: self.argv0@,
            completion: self.completion,
        }
    }
}

/// The configuration when no option is given.
pub open spec fn default_config() -> ConfigView {
    ConfigView {
        print: false,
        skip_env: false,
        select: Set::empty(),
        reject: Set::empty(),
        add: false,
        argv0: "upbuild"@,
        completion: None,
    }
}

impl Default for Config {
    fn default() -> (r: Config)
        ensures
            r@ == default_config(),
    {
        let r = Config {
            print: false,
            skip_env: false,
            select: Vec::new(),
            reject: Vec::new(),
            add: false,
            argv0: "upbuild".to_string(),
            completion: None,
        };
        assert(r@.select =~= Set::<Seq<char>>::empty());
        assert(r@.reject =~= Set::<Seq<char>>::empty());
        r
    }
}

/// The tag that a `--ub-select=` or `--ub-reject=` argument names: the non-empty text
/// after its first `=`.
pub open spec fn tag_value(a: Seq<char>) -> Option<Seq<char>> {
    match split_once_char(a, '=') {
        Some((_, v)) => if v.len() > 0 {
            Some(v)
        } else {
            None
        },
        None => None,
    }
}

/// What one argument does to the option parsing.
pub enum ArgStep {
    /// Parsing stops; this argument and all after it are the command line's own.
    Stop,
    /// The argument is `--`: it is dropped and parsing stops.
    End,
    /// The argument is an option; parsing goes on with this configuration.
    Next(ConfigView),
}

/// What the argument `a` does to the configuration `c`.
pub open spec fn arg_step(a: Seq<char>, c: ConfigView) -> ArgStep {
    if has_prefix(a, "--"@) {
        let s = a.subrange(2, a.len() as int);
        if s == "ub-print"@ {
            ArgStep::Next(ConfigView { print: true, ..c })
        } else if s == "ub-no-env"@ {
            ArgStep::Next(ConfigView { skip_env: true, ..c })
        } else if s == "ub-add"@ {
            ArgStep::Next(ConfigView { add: true, ..c })
        } else if s == "ub-completion-list-tags"@ {
            ArgStep::Next(ConfigView { completion: Some(Completion::PrintTags), ..c })
        } else if s.len() == 0 {
            ArgStep::End
        } else if has_prefix(a, "--ub-select="@) {
            match tag_value(a) {
                Some(t) => ArgStep::Next(
                    ConfigView { select: c.select.insert(t), reject: c.reject.remove(t), ..c },
                ),
                None => ArgStep::Stop,
            }
        } else if has_prefix(a, "--ub-reject="@) {
            match tag_value(a) {
                Some(t) => ArgStep::Next(
                    ConfigView { reject: c.reject.insert(t), select: c.select.remove(t), ..c },
                ),
                None => ArgStep::Stop,
            }
        } else {
            ArgStep::Stop
        }
    } else {
        ArgStep::Stop
    }
}

/// Where option parsing ends, reading from position `i` with configuration `c`: the
/// position of the first argument left to the command line, and the configuration.
pub open spec fn options_from(args: Seq<Seq<char>>, i: int, c: ConfigView) -> (int, ConfigView)
    decreases args.len() - i,
{
    if i < 0 || i >= args.len() {
        (i, c)
    } else {
        match arg_step(args[i], c) {
            ArgStep::Stop => (i, c),
            ArgStep::End => (i + 1, c),
            ArgStep::Next(next) => options_from(args, i + 1, next),
        }
    }
}

/// Option parsing of a whole argument vector, whose first element is the program's name.
pub open spec fn options_spec(args: Seq<Seq<char>>) -> (int, ConfigView) {
    if args.len() == 0 {
        (0, default_config())
    } else {
        options_from(args, 1, ConfigView { argv0: args[0], ..default_config() })
    }
}

/// Adding a text to a list adds it to the set the list names.
pub proof fn lemma_tag_set_push(v: Seq<Seq<char>>, x: Seq<char>)
    ensures
        tag_set(v.push(x)) == tag_set(v).insert(x),
{
    assert forall|t: Seq<char>| #[trigger]
        tag_set(v.push(x)).contains(t) == tag_set(v).insert(x).contains(t) by {
        if v.push(x).contains(t) {
            let i = choose|i: int| 0 <= i < v.push(x).len() && v.push(x)[i] == t;
            if i < v.len() {
                assert(v[i] == t);
            }
        }
        if v.contains(t) {
            let i = choose|i: int| 0 <= i < v.len() && v[i] == t;
            assert(v.push(x)[i] == t);
        }
        if t == x {
            assert(v.push(x)[v.len() as int] == x);
        }
    }
    assert(tag_set(v.push(x)) =~= tag_set(v).insert(x));
}

/// Whether a list of strings holds the text `t`.
fn holds_text(v: &Vec<String>, t: &str) -> (r: bool)
    ensures
        r == tag_set(texts(v@)).contains(t@),
{
    let mut i: usize = 0;
    while i < v.len()
        invariant
            i <= v@.len(),
            forall|j: int| 0 <= j < i ==> v@[j]@ != t@,
        decreases v@.len() - i,
    {
        if same_text(v[i].as_str(), t) {
            assert(texts(v@)[i as int] == t@);
            return true;
        }
        i = i + 1;
    }
    false
}

/// Adds the tag `t` to `add` and takes it out of `drop`.
fn move_tag(t: &String, add: &mut Vec<String>, drop: &mut Vec<String>)
    ensures
        tag_set(texts(final(add)@)) == tag_set(texts(old(add)@)).insert(t@),
        tag_set(texts(final(drop)@)) == tag_set(texts(old(drop)@)).remove(t@),
{
    if !holds_text(add, t.as_str()) {
        add.push(t.clone());
        assert(texts(add@) =~= texts(old(add)@).push(t@));
        proof {
            lemma_tag_set_push(texts(old(add)@), t@);
        }
    } else {
        assert(tag_set(texts(add@)) =~= tag_set(texts(old(add)@)).insert(t@));
    }
    let mut kept: Vec<String> = Vec::new();
    let mut i: usize = 0;
    while i < drop.len()
        invariant
            i <= drop@.len(),
            *drop == *old(drop),
            tag_set(texts(kept@)) == tag_set(texts(drop@.subrange(0, i as int))).remove(t@),
        decreases drop@.len() - i,
    {
        let ghost before = texts(kept@);
        let ghost seen = texts(drop@.subrange(0, i as int));
        assert(texts(drop@.subrange(0, i + 1)) =~= seen.push(drop@[i as int]@));
        proof {
            lemma_tag_set_push(seen, drop@[i as int]@);
        }
        if !same_text(drop[i].as_str(), t.as_str()) {
            kept.push(drop[i].clone());
            assert(texts(kept@) =~= before.push(drop@[i as int]@));
            proof {
                lemma_tag_set_push(before, drop@[i as int]@);
            }
        }
        i = i + 1;
        assert(tag_set(texts(kept@)) =~= tag_set(texts(drop@.subrange(0, i as int))).remove(t@));
    }
    assert(drop@.subrange(0, drop@.len() as int) =~= drop@);
    *drop = kept;
}

/// Applies a `--ub-select=` or `--ub-reject=` argument: its tag joins `add` and leaves
/// `drop`. Returns false, changing nothing, when the argument names no tag.
fn apply_tags(arg: &str, add: &mut Vec<String>, drop: &mut Vec<String>) -> (r: bool)
    ensures
        r == tag_value(arg@).is_some(),
        r ==> tag_set(texts(final(add)@)) == tag_set(texts(old(add)@)).insert(
            tag_value(arg@).unwrap(),
        ),
        r ==> tag_set(texts(final(drop)@)) == tag_set(texts(old(drop)@)).remove(
            tag_value(arg@).unwrap(),
        ),
        !r ==> *final(add) == *old(add) && *final(drop) == *old(drop),
{
    match split_once_at(arg, '=') {
        Some((_, t)) => {
            if t.unicode_len() > 0 {
                move_tag(&t, add, drop);
                return true;
            }
        },
        None => return false,
    }
    false
}

impl Config {
    /// Whether `--ub-print` was given.
    pub fn print(&self) -> (r: bool)
        ensures
            r == self@.print,
    {
        self.print
    }

    /// Whether `--ub-add` was given.
    pub fn add(&self) -> (r: bool)
        ensures
            r == self@.add,
    {
        self.add
    }

    /// The completion output asked for, if any.
    pub fn completion(&self) -> (r: &Option<Completion>)
        ensures
            *r == self@.completion,
    {
        &self.completion
    }

    /// Reads the options at the front of an argument vector whose first element is the
    /// program's name; returns the arguments left to the command line, and the options.
    pub fn parse(args: &[String]) -> (r: (Vec<String>, Config))
        ensures
            texts(r.0@) == texts(args@).subrange(options_spec(texts(args@)).0, args@.len() as int),
            r.1@ == options_spec(texts(args@)).1,
            0 <= options_spec(texts(args@)).0 <= args@.len(),
    {
        let ghost all = texts(args@);
        let mut cfg = Config::default();
        let mut i: usize = 0;
        if args.len() > 0 {
            cfg.argv0 = args[0].clone();
            i = 1;
            assert(all[0] == args@[0]@);
        }
        assert(args.len() > 0 ==> cfg@ == (ConfigView { argv0: all[0], ..default_config() }));
        loop
            invariant_except_break
                args@.len() > 0 ==> options_from(all, i as int, cfg@) == options_spec(all),
            invariant
                i <= args@.len(),
                all == texts(args@),
                args@.len() > 0 ==> i >= 1,
                args@.len() == 0 ==> i == 0 && cfg@ == default_config(),
            ensures
                i <= args@.len(),
                args@.len() == 0 ==> i == 0 && cfg@ == default_config(),
                args@.len() > 0 ==> (i as int, cfg@) == options_spec(all),
            decreases args@.len() - i,
        {
            if i >= args.len() {
                break;
            }
            let arg = args[i].as_str();
            assert(all[i as int] == arg@);
            proof {
                reveal_strlit("--");
            }
            if !starts_with_text(arg, "--") {
                break;
            }
            let n = arg.unicode_len();
            let s = slice_text(arg, 2, n);
            let s = s.as_str();
            if same_text(s, "ub-print") {
                cfg.print = true;
            } else if same_text(s, "ub-no-env") {
                cfg.skip_env = true;
            } else if same_text(s, "ub-add") {
                cfg.add = true;
            } else if same_text(s, "ub-completion-list-tags") {
                cfg.completion = Some(Completion::PrintTags);
            } else if n == 2 {
                i = i + 1;
                break;
            } else if starts_with_text(arg, "--ub-select=") {
                if !apply_tags(arg, &mut cfg.select, &mut cfg.reject) {
                    break;
                }
            } else if starts_with_text(arg, "--ub-reject=") {
                if !apply_tags(arg, &mut cfg.reject, &mut cfg.select) {
                    break;
                }
            } else {
                break;
            }
            i = i + 1;
        }
        let mut rest: Vec<String> = Vec::new();
        let start = i;
        while i < args.len()
            invariant
                start <= i <= args@.len(),
                texts(rest@) == all.subrange(start as int, i as int),
                all == texts(args@),
            decreases args@.len() - i,
        {
            let ghost before = texts(rest@);
            rest.push(args[i].clone());
            assert(all[i as int] == args@[i as int]@);
            assert(texts(rest@) =~= before.push(args@[i as int]@));
            assert(all.subrange(start as int, i + 1) =~= all.subrange(start as int, i as int).push(
                all[i as int],
            ));
            i = i + 1;
        }
        (rest, cfg)
    }

    /// Whether `--ub-no-env` was given.
    pub fn skip_env(&self) -> (r: bool)
        ensures
            r == self@.skip_env,
    {
        self.skip_env
    }

    /// The selected tags.
    pub fn select(&self) -> (r: &[String])
        ensures
            tag_set(texts(r@)) == self@.select,
    {
        self.select.as_slice()
    }

    /// The rejected tags.
    pub fn reject(&self) -> (r: &[String])
        ensures
            tag_set(texts(r@)) == self@.reject,
    {
        self.reject.as_slice()
    }

    /// The name this program was called by.
    pub fn argv0(&self) -> (r: &String)
        ensures
            r@ == self@.argv0,
    {
        &self.argv0
    }
}

/// The options that take no value, as a completion offers them.
pub const FLAG_OPTIONS: &'static str = "--ub-print --ub-add --ub-no-env";

/// The options that take a value, as a completion offers them.
pub const VALUE_OPTIONS: &'static str = "--ub-select= --ub-reject=";

/// The line of a completion script that is replaced by the option list.
pub const PLACEHOLDER: &'static str = "# GENERATE THESE ARGUMENTS";

/// The note left where the placeholder stood.
pub const GENERATED_NOTE: &'static str = "# Generated arguments:";

/// The bash completion script, before the option list is filled in.
pub const BASH_COMPLETION_TEMPLATE: &'static str = r#"# bash completion for upbuild
_upbuild()
{
    local cur
    COMPREPLY=()
    cur="${COMP_WORDS[COMP_CWORD]}"

    # GENERATE THESE ARGUMENTS
    OPTS=()

    case "$cur" in
        --ub-select=*|--ub-reject=*)
            local tags
            tags=$(upbuild --ub-completion-list-tags 2>/dev/null)
            COMPREPLY=( $(compgen -W "$tags" -- "${cur#*=}") )
            return 0
            ;;
        -*)
            COMPREPLY=( $(compgen -W "${OPTS[*]}" -- "$cur") )
            [[ ${COMPREPLY-} == *= ]] && compopt -o nospace
            return 0
            ;;
    esac
}
complete -F _upbuild upbuild
"#;

/// The option-list line of a completion script, indented by `indent`.
pub open spec fn opts_line(indent: Seq<char>) -> Seq<char> {
    indent + "OPTS=("@ + FLAG_OPTIONS@ + " "@ + VALUE_OPTIONS@ + ")"@
}

/// One template line rendered, given the replacement owed to it: a placeholder line
/// becomes a note and makes the next line the option list.
pub open spec fn render_line(l: Seq<char>, next: Option<Seq<char>>) -> (Seq<char>, Option<Seq<char>>) {
    match first_match(l, PLACEHOLDER@) {
        Some(pos) => (
            l.subrange(0, pos) + GENERATED_NOTE@,
            Some(opts_line(l.subrange(0, pos))),
        ),
        None => match next {
            Some(n) => (n, None),
            None => (l, None),
        },
    }
}

/// `acc` with one more line: a newline goes between them when `acc` is not empty.
pub open spec fn append_line(acc: Seq<char>, piece: Seq<char>) -> Seq<char> {
    if acc.len() > 0 {
        acc + seq!['\n'] + piece
    } else {
        acc + piece
    }
}

/// The rendering of the template lines from position `i` on, after `acc`.
pub open spec fn render_from(
    lines: Seq<Seq<char>>,
    i: int,
    next: Option<Seq<char>>,
    acc: Seq<char>,
) -> Seq<char>
    decreases lines.len() - i,
{
    if i < 0 || i >= lines.len() {
        acc
    } else {
        let (piece, after) = render_line(lines[i], next);
        render_from(lines, i + 1, after, append_line(acc, piece))
    }
}

/// The completion script that a template makes.
pub open spec fn completion_text(template: Seq<char>) -> Seq<char> {
    render_from(text_lines(template), 0, None, Seq::empty())
}

fn option_list(indent: &str) -> (r: String)
    ensures
        r@ == opts_line(indent@),
{
    let mut r = indent.to_string();
    r.append("OPTS=(");
    r.append(FLAG_OPTIONS);
    r.append(" ");
    r.append(VALUE_OPTIONS);
    r.append(")");
    r
}

/// Fills the option list into a completion template.
pub fn generate_bash_completion_(template: &str) -> (r: String)
    ensures
        r@ == completion_text(template@),
{
    let lines = lines_of(template);
    let mut next: Option<String> = None;
    let mut out = String::new();
    let mut i: usize = 0;
    while i < lines.len()
        invariant
            i <= lines@.len(),
            texts(lines@) == text_lines(template@),
            render_from(texts(lines@), i as int, opt_text(next), out@) == completion_text(
                template@,
            ),
        decreases lines@.len() - i,
    {
        let line = lines[i].as_str();
        assert(texts(lines@)[i as int] == line@);
        let ghost old_next = opt_text(next);
        let ghost old_out = out@;
        let piece = match find_text(line, PLACEHOLDER) {
            Some(pos) => {
                let indent = slice_text(line, 0, pos);
                next = Some(option_list(indent.as_str()));
                let mut p = indent;
                p.append(GENERATED_NOTE);
                p
            },
            None => match next {
                Some(n) => {
                    next = None;
                    n
                },
                None => line.to_string(),
            },
        };
        if !out.as_str().is_empty() {
            out.append("\n");
            proof {
                reveal_strlit("\n");
            }
        }
        out.append(piece.as_str());
        proof {
            assert(render_line(line@, old_next) == (piece@, opt_text(next)));
            assert(out@ =~= append_line(old_out, piece@));
        }
        i = i + 1;
    }
    out
}

/// The bash completion script for this program.
pub fn generate_bash_completion() -> (r: String)
    ensures
        r@ == completion_text(BASH_COMPLETION_TEMPLATE@),
{
    generate_bash_completion_(BASH_COMPLETION_TEMPLATE)
}

impl Completion {
    /// The output of a completion request; the tag list is not rendered here.
    pub fn render(&self) -> (r: String)
        requires
            *self == Completion::PrintCompletion,
        ensures
            r@ == completion_text(BASH_COMPLETION_TEMPLATE@),
    {
        generate_bash_completion()
    }
}

} // verus!
