//! The task model and the manifest parser.
use std::collections::HashMap;
use vstd::prelude::*;

use crate::error::{result_view, Error, ErrorView, RetCode};
use crate::text::{
    clone_opt, code_text, has_prefix, opt_text, parse_code, same_text, slice_text, split_at_char,
    split_char, split_once_at, split_once_char, starts_with_char, starts_with_text, texts,
};

verus! {

broadcast use vstd::std_specs::hash::group_hash_axioms;

/// One manifest entry: a command line and the flags that steer it.
#[derive(Debug)]
pub struct Cmd {
    args: Vec<String>,
    tags: Vec<String>,
    cd: Option<String>,
    mkdir: Option<String>,
    outfile: Option<String>,
    retmap: HashMap<RetCode, RetCode>,
    disabled: bool,
    manual: bool,
    recurse: bool,
    dotenvs: Vec<String>,
}

/// A [`Cmd`] as plain values.
pub struct CmdView {
    pub args: Seq<Seq<char>>,
    pub tags: Seq<Seq<char>>,
    pub cd: Option<Seq<char>>,
    pub mkdir: Option<Seq<char>>,
    pub outfile: Option<Seq<char>>,
    pub retmap: Map<RetCode, RetCode>,
    pub disabled: bool,
    pub manual: bool,
    pub recurse: bool,
    pub dotenvs: Seq<Seq<char>>,
}

impl View for Cmd {
    type V = CmdView;

    closed spec fn view(&self) -> CmdView {
        CmdView {
            args: texts(self.args@),
            tags: texts(self.tags@),
            cd: opt_text(self.cd),
            mkdir: opt_text(self.mkdir),
            outfile: opt_text(self.outfile),
            retmap: self.retmap@,
            disabled: self.disabled,
            manual: self.manual,
            recurse: self.recurse,
            dotenvs: texts(self.dotenvs@),
        }
    }
}

/// The declarations that precede the body of a manifest.
#[derive(Debug)]
pub struct Header {
    dotenvs: Vec<String>,
}

impl View for Header {
    type V = Seq<Seq<char>>;

    closed spec fn view(&self) -> Seq<Seq<char>> {
        texts(self.dotenvs@)
    }
}

/// The set of tags that a list names.
pub open spec fn tag_set(v: Seq<Seq<char>>) -> Set<Seq<char>> {
    v.to_set()
}

/// The two sets share an element.
pub open spec fn meets(a: Set<Seq<char>>, b: Set<Seq<char>>) -> bool {
    exists|t: Seq<char>| a.contains(t) && b.contains(t)
}

/// Whether a task runs under the selected and rejected tag sets: a disabled task never, a
/// task with a rejected tag never, a manual task only when a selected tag names it, and
/// otherwise any task when nothing is selected, or one that a selected tag names.
pub open spec fn enabled_spec(c: CmdView, select: Set<Seq<char>>, reject: Set<Seq<char>>) -> bool {
    if c.disabled {
        false
    } else if meets(reject, tag_set(c.tags)) {
        false
    } else if c.manual && (select.is_empty() || !meets(select, tag_set(c.tags))) {
        false
    } else if !select.is_empty() {
        meets(select, tag_set(c.tags))
    } else {
        true
    }
}

/// A raw exit code as the return-code map maps it: the mapped value for a code in the
/// map, the code itself otherwise.
pub open spec fn map_code_spec(m: Map<RetCode, RetCode>, c: RetCode) -> RetCode {
    if m.contains_key(c) {
        m[c]
    } else {
        c
    }
}

/// The directory that a task asks to run in, before it is joined onto the manifest's
/// directory: its `@cd`, else `..` for a task that runs this program again.
pub open spec fn directory_spec(c: CmdView) -> Option<Seq<char>> {
    match c.cd {
        Some(d) => Some(d),
        None => if c.recurse {
            Some(".."@)
        } else {
            None
        },
    }
}

/// Whether two lists of strings share a text.
fn lists_meet(a: &[String], b: &[String]) -> (r: bool)
    ensures
        r == meets(tag_set(texts(a@)), tag_set(texts(b@))),
{
    let mut i: usize = 0;
    while i < a.len()
        invariant
            i <= a@.len(),
            forall|x: int, y: int| 0 <= x < i && 0 <= y < b@.len() ==> a@[x]@ != b@[y]@,
        decreases a@.len() - i,
    {
        let mut j: usize = 0;
        while j < b.len()
            invariant
                i < a@.len(),
                j <= b@.len(),
                forall|x: int, y: int| 0 <= x < i && 0 <= y < b@.len() ==> a@[x]@ != b@[y]@,
                forall|y: int| 0 <= y < j ==> a@[i as int]@ != b@[y]@,
            decreases b@.len() - j,
        {
            if same_text(a[i].as_str(), b[j].as_str()) {
                proof {
                    let t = a@[i as int]@;
                    assert(texts(a@)[i as int] == t);
                    assert(texts(b@)[j as int] == t);
                    assert(tag_set(texts(a@)).contains(t));
                    assert(tag_set(texts(b@)).contains(t));
                }
                return true;
            }
            j = j + 1;
        }
        i = i + 1;
    }
    proof {
        if meets(tag_set(texts(a@)), tag_set(texts(b@))) {
            let t = choose|t: Seq<char>|
                tag_set(texts(a@)).contains(t) && tag_set(texts(b@)).contains(t);
            let x = choose|x: int| 0 <= x < texts(a@).len() && texts(a@)[x] == t;
            let y = choose|y: int| 0 <= y < texts(b@).len() && texts(b@)[y] == t;
            assert(a@[x]@ == b@[y]@);
        }
    }
    false
}

/// Whether a list of strings names no tag at all.
fn names_none(a: &[String]) -> (r: bool)
    ensures
        r == tag_set(texts(a@)).is_empty(),
{
    proof {
        if a@.len() > 0 {
            assert(texts(a@)[0] == a@[0]@);
            assert(tag_set(texts(a@)).contains(a@[0]@));
        } else {
            assert(tag_set(texts(a@)) =~= Set::<Seq<char>>::empty());
        }
    }
    a.len() == 0
}

impl Cmd {
    /// The file whose contents are shown after the task succeeds.
    pub fn out_file(&self) -> (r: Option<String>)
        ensures
            opt_text(r) == self@.outfile,
    {
        clone_opt(&self.outfile)
    }

    /// Whether the task runs this program again.
    pub fn recurse(&self) -> (r: bool)
        ensures
            r == self@.recurse,
    {
        self.recurse
    }

    /// The directory the task asks to run in: its `@cd`, else `..` for a task that runs
    /// this program again, else none.
    pub fn directory(&self) -> (r: Option<String>)
        ensures
            opt_text(r) == directory_spec(self@),
    {
        match &self.cd {
            Some(d) => Some(d.clone()),
            None => {
                if self.recurse {
                    return Some("..".to_string());
                }
                None
            },
        }
    }

    /// The directory to create before the task runs.
    pub fn mk_dir(&self) -> (r: Option<String>)
        ensures
            opt_text(r) == self@.mkdir,
    {
        clone_opt(&self.mkdir)
    }

    /// A raw exit code as the task's return-code map turns it into.
    pub fn map_code(&self, c: RetCode) -> (r: RetCode)
        ensures
            r == map_code_spec(self@.retmap, c),
    {
        match self.retmap.get(&c) {
            Some(m) => *m,
            None => c,
        }
    }

    /// The task's command line, the executable first.
    pub fn args(&self) -> (r: &[String])
        ensures
            texts(r@) == self@.args,
    {
        self.args.as_slice()
    }

    /// Whether the task runs when the tags in `select_tags` are selected and those in
    /// `reject_tags` rejected.
    pub fn enabled_with_reject(&self, select_tags: &[String], reject_tags: &[String]) -> (r: bool)
        ensures
            r == enabled_spec(self@, tag_set(texts(select_tags@)), tag_set(texts(reject_tags@))),
    {
        if self.disabled {
            return false;
        }
        if lists_meet(reject_tags, self.tags.as_slice()) {
            return false;
        }
        let no_tags = names_none(select_tags);
        if self.manual && (no_tags || !lists_meet(select_tags, self.tags.as_slice())) {
            return false;
        }
        if !no_tags {
            return lists_meet(select_tags, self.tags.as_slice());
        }
        true
    }

    /// The task's tags.
    pub fn tags(&self) -> (r: &[String])
        ensures
            texts(r@) == self@.tags,
    {
        self.tags.as_slice()
    }

    /// Whether the task is disabled.
    pub fn disabled(&self) -> (r: bool)
        ensures
            r == self@.disabled,
    {
        self.disabled
    }

    /// Whether the task runs only when one of its tags is selected.
    pub fn manual(&self) -> (r: bool)
        ensures
            r == self@.manual,
    {
        self.manual
    }

    /// The task's own `@cd`, if any.
    pub fn cd(&self) -> (r: &Option<String>)
        ensures
            opt_text(*r) == self@.cd,
    {
        &self.cd
    }

    /// The task's return-code map.
    pub fn retmap(&self) -> (r: &HashMap<RetCode, RetCode>)
        ensures
            r@ == self@.retmap,
    {
        &self.retmap
    }

    /// The environment files that the task loads, in order.
    pub fn dotenv(&self) -> (r: &[String])
        ensures
            texts(r@) == self@.dotenvs,
    {
        self.dotenvs.as_slice()
    }
}

impl Header {
    /// The environment files that the whole manifest loads, in order.
    pub fn dotenv(&self) -> (r: &[String])
        ensures
            texts(r@) == self@,
    {
        self.dotenvs.as_slice()
    }
}

/// A task-scope flag.
#[derive(Debug, PartialEq)]
pub enum Flags {
    Disable,
    Tags(Vec<String>),
    Manual,
    Outfile(String),
    RetMap(HashMap<RetCode, RetCode>),
    Cd(String),
    Mkdir(String),
}

/// A flag that may belong to the header.
#[derive(Debug, PartialEq)]
pub enum HeaderFlags {
    Env(String),
}

/// What one manifest line says.
#[derive(Debug, PartialEq)]
pub enum Line {
    Flag(Flags),
    Arg(String),
    HeaderFlag(HeaderFlags),
    HeaderSeparator,
    Comment,
    End,
}

/// A [`Flags`] as plain values.
pub enum FlagView {
    Disable,
    Tags(Seq<Seq<char>>),
    Manual,
    Outfile(Seq<char>),
    RetMap(Map<RetCode, RetCode>),
    Cd(Seq<char>),
    Mkdir(Seq<char>),
}

/// A [`Line`] as plain values.
pub enum LineView {
    Flag(FlagView),
    Arg(Seq<char>),
    Env(Seq<char>),
    HeaderSeparator,
    Comment,
    End,
}

impl View for Flags {
    type V = FlagView;

    open spec fn view(&self) -> FlagView {
        match self {
            Flags::Disable => FlagView::Disable,
            Flags::Tags(t) => FlagView::Tags(texts(t@)),
            Flags::Manual => FlagView::Manual,
            Flags::Outfile(f) => FlagView::Outfile(f@),
            Flags::RetMap(m) => FlagView::RetMap(m@),
            Flags::Cd(d) => FlagView::Cd(d@),
            Flags::Mkdir(d) => FlagView::Mkdir(d@),
        }
    }
}

impl View for Line {
    type V = LineView;

    open spec fn view(&self) -> LineView {
        match self {
            Line::Flag(f) => LineView::Flag(f@),
            Line::Arg(a) => LineView::Arg(a@),
            Line::HeaderFlag(HeaderFlags::Env(e)) => LineView::Env(e@),
            Line::HeaderSeparator => LineView::HeaderSeparator,
            Line::Comment => LineView::Comment,
            Line::End => LineView::End,
        }
    }
}

/// The two characters `=>` stand at position `i` of `s`.
pub open spec fn arrow_at(s: Seq<char>, i: int) -> bool {
    0 <= i && i + 1 < s.len() && s[i] == '=' && s[i + 1] == '>'
}

/// `i` is the first position of the two characters `=>` in `s`.
pub open spec fn is_first_arrow(s: Seq<char>, i: int) -> bool {
    &&& arrow_at(s, i)
    &&& forall|j: int| 0 <= j < i ==> !#[trigger] arrow_at(s, j)
}

/// `s` cut at the first `=>`.
pub open spec fn split_arrow(s: Seq<char>) -> Option<(Seq<char>, Seq<char>)> {
    if exists|i: int| is_first_arrow(s, i) {
        let i = choose|i: int| is_first_arrow(s, i);
        Some((s.subrange(0, i), s.subrange(i + 2, s.len() as int)))
    } else {
        None
    }
}

/// One `from=>to` pair of a `@retmap` value `def`.
pub open spec fn retmap_pair(entry: Seq<char>, def: Seq<char>) -> Result<(RetCode, RetCode), ErrorView> {
    match split_arrow(entry) {
        None => Err(ErrorView::InvalidRetMapDefinition(def)),
        Some((a, b)) => match code_text(a) {
            None => Err(ErrorView::InvalidRetMapDefinition(a)),
            Some(x) => match code_text(b) {
                None => Err(ErrorView::InvalidRetMapDefinition(b)),
                Some(y) => Ok((x, y)),
            },
        },
    }
}

/// The map that the pairs from position `i` on add to `m`, a later pair for the same code
/// winning; or the error of the first bad pair.
pub open spec fn retmap_from(
    entries: Seq<Seq<char>>,
    i: int,
    m: Map<RetCode, RetCode>,
    def: Seq<char>,
) -> Result<Map<RetCode, RetCode>, ErrorView>
    decreases entries.len() - i,
{
    if i < 0 || i >= entries.len() {
        Ok(m)
    } else {
        match retmap_pair(entries[i], def) {
            Err(e) => Err(e),
            Ok((x, y)) => retmap_from(entries, i + 1, m.insert(x, y), def),
        }
    }
}

/// The return-code map that a `@retmap` value writes: comma-separated `int=>int` pairs.
pub open spec fn retmap_spec(def: Seq<char>) -> Result<Map<RetCode, RetCode>, ErrorView> {
    retmap_from(split_char(def, ','), 0, Map::empty(), def)
}

/// The tags that a `@tags` value lists; an empty value lists none.
pub open spec fn tag_list(value: Seq<char>) -> Seq<Seq<char>> {
    if value.len() == 0 {
        Seq::empty()
    } else {
        split_char(value, ',')
    }
}

/// The name and the value of a flag line: the text after `@` up to the first `=`, and the
/// text after that `=` (empty when there is none).
pub open spec fn flag_parts(l: Seq<char>) -> (Seq<char>, Seq<char>) {
    let rest = l.drop_first();
    match split_once_char(rest, '=') {
        Some(p) => p,
        None => (rest, Seq::empty()),
    }
}

/// What `split_flag` returns for a line.
pub open spec fn split_flag_spec(l: Seq<char>) -> Result<(Seq<char>, Seq<char>), ErrorView> {
    if l.len() > 0 && l[0] == '@' {
        Ok(flag_parts(l))
    } else {
        Err(ErrorView::InvalidTag(l))
    }
}

/// What a line that starts with `@` (and is none of the fixed ones) says.
pub open spec fn flag_line_spec(l: Seq<char>) -> Result<LineView, ErrorView> {
    let (name, value) = flag_parts(l);
    if name == "tags"@ {
        Ok(LineView::Flag(FlagView::Tags(tag_list(value))))
    } else if name == "retmap"@ {
        match retmap_spec(value) {
            Ok(m) => Ok(LineView::Flag(FlagView::RetMap(m))),
            Err(e) => Err(e),
        }
    } else if name == "outfile"@ {
        Ok(LineView::Flag(FlagView::Outfile(value)))
    } else if name == "cd"@ {
        Ok(LineView::Flag(FlagView::Cd(value)))
    } else if name == "mkdir"@ {
        Ok(LineView::Flag(FlagView::Mkdir(value)))
    } else if name == "env"@ {
        Ok(LineView::Env(value))
    } else if name == "disable"@ && value.len() == 0 {
        Ok(LineView::Flag(FlagView::Disable))
    } else if name == "manual"@ && value.len() == 0 {
        Ok(LineView::Flag(FlagView::Manual))
    } else {
        Err(ErrorView::InvalidTag(l))
    }
}

/// What one manifest line says, in order of priority: the fixed lines `@disable`,
/// `@manual` and `&&`, the header separator `@---...`, a `#` comment, a flag, else an
/// argument.
pub open spec fn line_spec(l: Seq<char>) -> Result<LineView, ErrorView> {
    if l == "@disable"@ {
        Ok(LineView::Flag(FlagView::Disable))
    } else if l == "@manual"@ {
        Ok(LineView::Flag(FlagView::Manual))
    } else if l == "&&"@ {
        Ok(LineView::End)
    } else if has_prefix(l, "@---"@) {
        Ok(LineView::HeaderSeparator)
    } else if l.len() > 0 && l[0] == '#' {
        Ok(LineView::Comment)
    } else if l.len() > 0 && l[0] == '@' {
        flag_line_spec(l)
    } else {
        Ok(LineView::Arg(l))
    }
}

fn find_arrow(s: &str) -> (r: Option<usize>)
    ensures
        r matches Some(i) ==> is_first_arrow(s@, i as int),
        r is None ==> !exists|i: int| is_first_arrow(s@, i),
{
    let n = s.unicode_len();
    let mut i: usize = 0;
    while i < n
        invariant
            n == s@.len(),
            i <= n,
            forall|j: int| 0 <= j < i ==> !#[trigger] arrow_at(s@, j),
        decreases n - i,
    {
        if i + 1 < n && s.get_char(i) == '=' && s.get_char(i + 1) == '>' {
            return Some(i);
        }
        i = i + 1;
    }
    proof {
        assert forall|k: int| !is_first_arrow(s@, k) by {
            if is_first_arrow(s@, k) {
                assert(!arrow_at(s@, k));
            }
        }
    }
    None
}

proof fn lemma_first_arrow_unique(s: Seq<char>, i: int, k: int)
    requires
        is_first_arrow(s, i),
        is_first_arrow(s, k),
    ensures
        i == k,
{
    if i < k {
        assert(!arrow_at(s, i));
    } else if k < i {
        assert(!arrow_at(s, k));
    }
}

fn parse_retmap_pair(entry: &str, def: &str) -> (r: Result<(RetCode, RetCode), Error>)
    ensures
        match r {
            Ok(p) => retmap_pair(entry@, def@) == Ok::<(RetCode, RetCode), ErrorView>(p),
            Err(e) => retmap_pair(entry@, def@) == Err::<(RetCode, RetCode), ErrorView>(e@),
        },
{
    let i = match find_arrow(entry) {
        Some(i) => i,
        None => {
            return Err(Error::InvalidRetMapDefinition(def.to_string()));
        },
    };
    proof {
        let k = choose|k: int| is_first_arrow(entry@, k);
        lemma_first_arrow_unique(entry@, i as int, k);
    }
    let n = entry.unicode_len();
    let a = slice_text(entry, 0, i);
    let b = slice_text(entry, i + 2, n);
    let x = match parse_code(a.as_str()) {
        Some(x) => x,
        None => {
            return Err(Error::InvalidRetMapDefinition(a));
        },
    };
    let y = match parse_code(b.as_str()) {
        Some(y) => y,
        None => {
            return Err(Error::InvalidRetMapDefinition(b));
        },
    };
    Ok((x, y))
}

/// Reads a `@retmap` value: comma-separated `int=>int` pairs.
pub fn parse_retmap(def: &str) -> (r: Result<HashMap<RetCode, RetCode>, Error>)
    ensures
        result_view(r) == retmap_spec(def@),
{
    let entries = split_at_char(def, ',');
    let mut h: HashMap<RetCode, RetCode> = HashMap::new();
    let mut i: usize = 0;
    while i < entries.len()
        invariant
            i <= entries@.len(),
            texts(entries@) == split_char(def@, ','),
            retmap_from(texts(entries@), i as int, h@, def@) == retmap_spec(def@),
        decreases entries@.len() - i,
    {
        assert(texts(entries@)[i as int] == entries@[i as int]@);
        match parse_retmap_pair(entries[i].as_str(), def) {
            Ok((a, b)) => {
                h.insert(a, b);
            },
            Err(e) => {
                return Err(e);
            },
        }
        i = i + 1;
    }
    Ok(h)
}

/// Cuts a flag line into its name and its value.
pub fn split_flag(l: &str) -> (r: Result<(String, String), Error>)
    ensures
        match r {
            Ok(p) => split_flag_spec(l@) == Ok::<(Seq<char>, Seq<char>), ErrorView>((p.0@, p.1@)),
            Err(e) => split_flag_spec(l@) == Err::<(Seq<char>, Seq<char>), ErrorView>(e@),
        },
{
    if !starts_with_char(l, '@') {
        return Err(Error::InvalidTag(l.to_string()));
    }
    let n = l.unicode_len();
    let rest = slice_text(l, 1, n);
    assert(rest@ == l@.drop_first());
    match split_once_at(rest.as_str(), '=') {
        Some(p) => Ok(p),
        None => Ok((rest, String::new())),
    }
}

/// Reads one manifest line.
pub fn parse_line(l: &str) -> (r: Result<Line, Error>)
    ensures
        result_view(r) == line_spec(l@),
{
    if same_text(l, "@disable") {
        return Ok(Line::Flag(Flags::Disable));
    }
    if same_text(l, "@manual") {
        return Ok(Line::Flag(Flags::Manual));
    }
    if same_text(l, "&&") {
        return Ok(Line::End);
    }
    if starts_with_text(l, "@---") {
        return Ok(Line::HeaderSeparator);
    }
    if starts_with_char(l, '#') {
        return Ok(Line::Comment);
    }
    if !starts_with_char(l, '@') {
        return Ok(Line::Arg(l.to_string()));
    }
    let (name, value) = match split_flag(l) {
        Ok(p) => p,
        Err(e) => {
            return Err(e);
        },
    };
    let name = name.as_str();
    if same_text(name, "tags") {
        let tags = if value.unicode_len() == 0 {
            Vec::new()
        } else {
            split_at_char(value.as_str(), ',')
        };
        assert(texts(tags@) =~= tag_list(value@));
        Ok(Line::Flag(Flags::Tags(tags)))
    } else if same_text(name, "retmap") {
        match parse_retmap(value.as_str()) {
            Ok(m) => Ok(Line::Flag(Flags::RetMap(m))),
            Err(e) => Err(e),
        }
    } else if same_text(name, "outfile") {
        Ok(Line::Flag(Flags::Outfile(value)))
    } else if same_text(name, "cd") {
        Ok(Line::Flag(Flags::Cd(value)))
    } else if same_text(name, "mkdir") {
        Ok(Line::Flag(Flags::Mkdir(value)))
    } else if same_text(name, "env") {
        Ok(Line::HeaderFlag(HeaderFlags::Env(value)))
    } else if same_text(name, "disable") && value.unicode_len() == 0 {
        Ok(Line::Flag(Flags::Disable))
    } else if same_text(name, "manual") && value.unicode_len() == 0 {
        Ok(Line::Flag(Flags::Manual))
    } else {
        Err(Error::InvalidTag(l.to_string()))
    }
}

/// The lines of a manifest, read: its header and its tasks in order.
#[derive(Debug)]
pub struct ClassicFile {
    commands: Vec<Cmd>,
    header: Header,
}

/// A [`ClassicFile`] as plain values.
pub struct FileView {
    pub commands: Seq<CmdView>,
    pub header: Seq<Seq<char>>,
}

impl View for ClassicFile {
    type V = FileView;

    closed spec fn view(&self) -> FileView {
        FileView { commands: cmd_views(self.commands@), header: self.header@ }
    }
}

/// The views of a list of tasks.
pub open spec fn cmd_views(v: Seq<Cmd>) -> Seq<CmdView> {
    v.map_values(|c: Cmd| c@)
}

/// Where the parser stands with respect to the header.
#[derive(Debug, Clone, Copy)]
pub enum HeaderDetectState {
    InHeader,
    InBody,
    Unknown,
}

/// The parser's state between two lines.
pub struct ParseView {
    pub entry: Option<CmdView>,
    pub entries: Seq<CmdView>,
    pub header: Seq<Seq<char>>,
    pub state: HeaderDetectState,
}

/// The program's own name: a task that runs it runs this manifest's parent again.
pub const SELF_NAME: &'static str = "upbuild";

/// A task opened by its executable `exe`.
pub open spec fn new_cmd_view(exe: Seq<char>, self_name: Seq<char>) -> CmdView {
    CmdView {
        args: seq![exe],
        tags: Seq::empty(),
        cd: None,
        mkdir: None,
        outfile: None,
        retmap: Map::empty(),
        disabled: false,
        manual: false,
        recurse: exe == self_name,
        dotenvs: Seq::empty(),
    }
}

/// A task with one flag applied.
pub open spec fn apply_flag_view(c: CmdView, f: FlagView) -> CmdView {
    match f {
        FlagView::Disable => CmdView { disabled: true, ..c },
        FlagView::Manual => CmdView { manual: true, ..c },
        FlagView::Tags(t) => CmdView { tags: t, ..c },
        FlagView::Outfile(o) => CmdView { outfile: Some(o), ..c },
        FlagView::RetMap(m) => CmdView { retmap: m, ..c },
        FlagView::Cd(d) => CmdView { cd: Some(d), ..c },
        FlagView::Mkdir(d) => CmdView { mkdir: Some(d), ..c },
    }
}

/// The parser's state after one more line, or the error that line raises.
pub open spec fn parse_step(st: ParseView, l: Seq<char>, self_name: Seq<char>) -> Result<ParseView, ErrorView> {
    match line_spec(l) {
        Err(e) => Err(e),
        Ok(LineView::HeaderSeparator) => match st.state {
            HeaderDetectState::InBody => Err(
                ErrorView::InvalidHeaderField("Header separator not allowed here"@),
            ),
            _ => Ok(ParseView { state: HeaderDetectState::InBody, ..st }),
        },
        Ok(LineView::Arg(a)) => Ok(
            ParseView {
                state: HeaderDetectState::InBody,
                entry: Some(
                    match st.entry {
                        Some(c) => CmdView { args: c.args.push(a), ..c },
                        None => new_cmd_view(a, self_name),
                    },
                ),
                ..st
            },
        ),
        Ok(LineView::Flag(f)) => match st.entry {
            Some(c) => Ok(
                ParseView {
                    state: HeaderDetectState::InBody,
                    entry: Some(apply_flag_view(c, f)),
                    ..st
                },
            ),
            None => Err(ErrorView::FlagBeforeCommand(l)),
        },
        Ok(LineView::Comment) => Ok(st),
        Ok(LineView::End) => match st.entry {
            Some(c) => Ok(
                ParseView {
                    state: HeaderDetectState::InBody,
                    entry: None,
                    entries: st.entries.push(c),
                    ..st
                },
            ),
            None => Err(ErrorView::EmptyEntry),
        },
        Ok(LineView::Env(e)) => match st.state {
            HeaderDetectState::InHeader => Ok(ParseView { header: st.header.push(e), ..st }),
            HeaderDetectState::Unknown => Ok(
                ParseView { state: HeaderDetectState::InHeader, header: st.header.push(e), ..st },
            ),
            HeaderDetectState::InBody => match st.entry {
                Some(c) => Ok(
                    ParseView { entry: Some(CmdView { dotenvs: c.dotenvs.push(e), ..c }), ..st },
                ),
                None => Err(ErrorView::FlagBeforeCommand(l)),
            },
        },
    }
}

/// The manifest that the state holds once the input has ended: the open task is closed;
/// with none open the input ended on a terminator or held no task.
pub open spec fn parse_finish(st: ParseView) -> Result<FileView, ErrorView> {
    match st.entry {
        Some(c) => Ok(FileView { commands: st.entries.push(c), header: st.header }),
        None => Err(ErrorView::EmptyEntry),
    }
}

/// The manifest that the lines from position `i` on make from the state `st`.
pub open spec fn parse_from(
    lines: Seq<Seq<char>>,
    i: int,
    st: ParseView,
    self_name: Seq<char>,
) -> Result<FileView, ErrorView>
    decreases lines.len() - i,
{
    if i < 0 || i >= lines.len() {
        parse_finish(st)
    } else {
        match parse_step(st, lines[i], self_name) {
            Err(e) => Err(e),
            Ok(next) => parse_from(lines, i + 1, next, self_name),
        }
    }
}

/// The state before the first line.
pub open spec fn parse_start() -> ParseView {
    ParseView {
        entry: None,
        entries: Seq::empty(),
        header: Seq::empty(),
        state: HeaderDetectState::Unknown,
    }
}

/// The manifest that a sequence of lines makes, or the error of the first bad line.
pub open spec fn parse_spec(lines: Seq<Seq<char>>, self_name: Seq<char>) -> Result<FileView, ErrorView> {
    parse_from(lines, 0, parse_start(), self_name)
}

impl Cmd {
    fn new(exe: String, self_name: &str) -> (r: Cmd)
        ensures
            r@ == new_cmd_view(exe@, self_name@),
    {
        let recurse = same_text(exe.as_str(), self_name);
        let mut args: Vec<String> = Vec::new();
        args.push(exe);
        let r = Cmd {
            args,
            tags: Vec::new(),
            cd: None,
            mkdir: None,
            outfile: None,
            retmap: HashMap::new(),
            disabled: false,
            manual: false,
            recurse,
            dotenvs: Vec::new(),
        };
        assert(r@.args =~= seq![exe@]);
        assert(r@.tags =~= Seq::<Seq<char>>::empty());
        assert(r@.dotenvs =~= Seq::<Seq<char>>::empty());
        r
    }

    fn append_arg(&mut self, arg: String)
        ensures
            final(self)@ == (CmdView { args: old(self)@.args.push(arg@), ..old(self)@ }),
    {
        self.args.push(arg);
        assert(texts(self.args@) =~= texts(old(self).args@).push(arg@));
    }

    fn append_dotenv(&mut self, arg: String)
        ensures
            final(self)@ == (CmdView { dotenvs: old(self)@.dotenvs.push(arg@), ..old(self)@ }),
    {
        self.dotenvs.push(arg);
        assert(texts(self.dotenvs@) =~= texts(old(self).dotenvs@).push(arg@));
    }

    fn apply_flag(&mut self, f: Flags)
        ensures
            final(self)@ == apply_flag_view(old(self)@, f@),
    {
        match f {
            Flags::Disable => self.disabled = true,
            Flags::Manual => self.manual = true,
            Flags::Tags(tags) => self.tags = tags,
            Flags::Outfile(filename) => self.outfile = Some(filename),
            Flags::RetMap(map) => self.retmap = map,
            Flags::Cd(dir) => self.cd = Some(dir),
            Flags::Mkdir(dir) => self.mkdir = Some(dir),
        }
    }
}

impl Header {
    fn new() -> (r: Header)
        ensures
            r@ == Seq::<Seq<char>>::empty(),
    {
        let r = Header { dotenvs: Vec::new() };
        assert(r@ =~= Seq::<Seq<char>>::empty());
        r
    }

    fn append_dotenv(&mut self, arg: String)
        ensures
            final(self)@ == old(self)@.push(arg@),
    {
        self.dotenvs.push(arg);
        assert(texts(self.dotenvs@) =~= texts(old(self).dotenvs@).push(arg@));
    }
}

/// The state view of the parser's variables.
spec fn state_view(
    entry: Option<Cmd>,
    entries: Seq<Cmd>,
    header: Header,
    state: HeaderDetectState,
) -> ParseView {
    ParseView {
        entry: match entry {
            Some(c) => Some(c@),
            None => None,
        },
        entries: cmd_views(entries),
        header: header@,
        state,
    }
}

impl ClassicFile {
    /// Reads a manifest from its lines; a task whose executable is `self_name` runs this
    /// program again.
    pub fn parse_lines_named(lines: &[String], self_name: &str) -> (r: Result<ClassicFile, Error>)
        ensures
            result_view(r) == parse_spec(texts(lines@), self_name@),
    {
        let ghost all = texts(lines@);
        let mut entry: Option<Cmd> = None;
        let mut entries: Vec<Cmd> = Vec::new();
        let mut header_state = HeaderDetectState::Unknown;
        let mut header = Header::new();
        assert(cmd_views(entries@) =~= Seq::<CmdView>::empty());
        let mut i: usize = 0;
        while i < lines.len()
            invariant
                i <= lines@.len(),
                all == texts(lines@),
                parse_from(all, i as int, state_view(entry, entries@, header, header_state), self_name@)
                    == parse_spec(all, self_name@),
            decreases lines@.len() - i,
        {
            let ghost before = state_view(entry, entries@, header, header_state);
            let ghost old_entries = entries@;
            let l = lines[i].as_str();
            assert(all[i as int] == l@);
            let line = match parse_line(l) {
                Ok(line) => line,
                Err(e) => {
                    return Err(e);
                },
            };
            match line {
                Line::HeaderSeparator => {
                    match header_state {
                        HeaderDetectState::InBody => {
                            return Err(
                                Error::InvalidHeaderField(
                                    "Header separator not allowed here".to_string(),
                                ),
                            );
                        },
                        _ => {
                            header_state = HeaderDetectState::InBody;
                        },
                    }
                },
                Line::Arg(f) => {
                    header_state = HeaderDetectState::InBody;
                    entry = match entry {
                        Some(mut cmd) => {
                            cmd.append_arg(f);
                            Some(cmd)
                        },
                        None => Some(Cmd::new(f, self_name)),
                    };
                },
                Line::Flag(f) => {
                    header_state = HeaderDetectState::InBody;
                    entry = match entry {
                        Some(mut cmd) => {
                            cmd.apply_flag(f);
                            Some(cmd)
                        },
                        None => {
                            return Err(Error::FlagBeforeCommand(l.to_string()));
                        },
                    };
                },
                Line::Comment => {},
                Line::End => {
                    header_state = HeaderDetectState::InBody;
                    entry = match entry {
                        Some(cmd) => {
                            let ghost cv = cmd@;
                            entries.push(cmd);
                            assert(cmd_views(entries@) =~= cmd_views(old_entries).push(cv));
                            None
                        },
                        None => {
                            return Err(Error::EmptyEntry);
                        },
                    };
                },
                Line::HeaderFlag(HeaderFlags::Env(e)) => {
                    match header_state {
                        HeaderDetectState::InHeader => {
                            header.append_dotenv(e);
                        },
                        HeaderDetectState::Unknown => {
                            header_state = HeaderDetectState::InHeader;
                            header.append_dotenv(e);
                        },
                        HeaderDetectState::InBody => {
                            entry = match entry {
                                Some(mut cmd) => {
                                    cmd.append_dotenv(e);
                                    Some(cmd)
                                },
                                None => {
                                    return Err(Error::FlagBeforeCommand(l.to_string()));
                                },
                            };
                        },
                    }
                },
            }
            assert(parse_step(before, all[i as int], self_name@) == Ok::<ParseView, ErrorView>(
                state_view(entry, entries@, header, header_state),
            ));
            i = i + 1;
        }
        let ghost old_entries = entries@;
        let r = match entry {
            Some(cmd) => {
                let ghost cv = cmd@;
                entries.push(cmd);
                assert(cmd_views(entries@) =~= cmd_views(old_entries).push(cv));
                ClassicFile { commands: entries, header }
            },
            None => {
                return Err(Error::EmptyEntry);
            },
        };
        Ok(r)
    }

    /// Reads a manifest from its lines.
    pub fn parse_lines(lines: &[String]) -> (r: Result<ClassicFile, Error>)
        ensures
            result_view(r) == parse_spec(texts(lines@), SELF_NAME@),
    {
        Self::parse_lines_named(lines, SELF_NAME)
    }

    /// The tasks, in manifest order.
    pub fn commands(&self) -> (r: &[Cmd])
        ensures
            cmd_views(r@) == self@.commands,
    {
        self.commands.as_slice()
    }

    /// The header.
    pub fn header(&self) -> (r: &Header)
        ensures
            r@ == self@.header,
    {
        &self.header
    }
}

/// The lines of a task made of `args`, one argument per line.
pub open spec fn entry_lines(args: Seq<Seq<char>>) -> Seq<char>
    decreases args.len(),
{
    if args.len() == 0 {
        Seq::empty()
    } else {
        entry_lines(args.drop_last()) + args.last() + seq!['\n']
    }
}

/// What adding a task made of `args` appends to a manifest: nothing when there are no
/// arguments; else a `&&` line when the manifest is not empty, then one line per argument.
pub open spec fn added_text(args: Seq<Seq<char>>, manifest_empty: bool) -> Seq<char> {
    if args.len() == 0 {
        Seq::empty()
    } else if manifest_empty {
        entry_lines(args)
    } else {
        "&&\n"@ + entry_lines(args)
    }
}

impl ClassicFile {
    /// The text that adding a task made of `args` appends to a manifest, which is empty
    /// when `manifest_empty`.
    pub fn added_text(args: &[String], manifest_empty: bool) -> (r: String)
        ensures
            r@ == added_text(texts(args@), manifest_empty),
    {
        let ghost a = texts(args@);
        let mut r = String::new();
        if args.len() == 0 {
            return r;
        }
        if !manifest_empty {
            r.append("&&\n");
        }
        let ghost head = r@;
        let mut i: usize = 0;
        assert(a.subrange(0, 0) =~= Seq::<Seq<char>>::empty());
        assert(head + entry_lines(a.subrange(0, 0)) =~= head);
        while i < args.len()
            invariant
                i <= args@.len(),
                a == texts(args@),
                r@ == head + entry_lines(a.subrange(0, i as int)),
            decreases args@.len() - i,
        {
            assert(a[i as int] == args@[i as int]@);
            assert(a.subrange(0, i + 1).drop_last() =~= a.subrange(0, i as int));
            r.append(args[i].as_str());
            r.append("\n");
            proof {
                reveal_strlit("\n");
            }
            assert(r@ =~= head + entry_lines(a.subrange(0, i + 1)));
            i = i + 1;
        }
        assert(a.subrange(0, args@.len() as int) =~= a);
        r
    }
}

} // verus!
