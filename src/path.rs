//! Directory paths as their components: a path is rooted or not, and names the non-empty
//! parts between its separators, where `.` counts only in first place. Two paths that
//! agree on both are the same place, whatever separators or `.` parts stand between.
use vstd::prelude::*;

use crate::text::{same_text, split_at_char, split_char, texts};

verus! {

/// The path starts at the root.
pub open spec fn path_rooted(p: Seq<char>) -> bool {
    p.len() > 0 && p[0] == '/'
}

/// Whether the field at position `i` of a path's fields is a component: it is not empty,
/// and it is not `.` unless it comes first.
pub open spec fn is_component(f: Seq<Seq<char>>, i: int) -> bool {
    f[i].len() > 0 && (f[i] != "."@ || i == 0)
}

/// The components among the fields from position `i` on.
pub open spec fn components_from(f: Seq<Seq<char>>, i: int) -> Seq<Seq<char>>
    decreases f.len() - i,
{
    if i < 0 || i >= f.len() {
        Seq::empty()
    } else if is_component(f, i) {
        seq![f[i]] + components_from(f, i + 1)
    } else {
        components_from(f, i + 1)
    }
}

/// The components of the path `p`.
pub open spec fn path_components(p: Seq<char>) -> Seq<Seq<char>> {
    components_from(split_char(p, '/'), 0)
}

/// Components written one after another with a separator between each two.
pub open spec fn join_slash(c: Seq<Seq<char>>) -> Seq<char>
    decreases c.len(),
{
    if c.len() == 0 {
        Seq::empty()
    } else if c.len() == 1 {
        c[0]
    } else {
        join_slash(c.drop_last()) + seq!['/'] + c.last()
    }
}

/// The path written from a root flag and components.
pub open spec fn path_text(rooted: bool, c: Seq<Seq<char>>) -> Seq<char> {
    if rooted {
        seq!['/'] + join_slash(c)
    } else {
        join_slash(c)
    }
}

/// The two paths name the same place: both rooted or both not, with the same components.
pub open spec fn same_path(a: Seq<char>, b: Seq<char>) -> bool {
    path_rooted(a) == path_rooted(b) && path_components(a) == path_components(b)
}

/// Two optional directories are the same: both absent, or the same path.
pub open spec fn same_dir(a: Option<Seq<char>>, b: Option<Seq<char>>) -> bool {
    match (a, b) {
        (Some(x), Some(y)) => same_path(x, y),
        (None, None) => true,
        _ => false,
    }
}

/// The directory that holds the file at path `p` (none for the root or an empty path),
/// written from its components.
pub open spec fn parent_dir(p: Seq<char>) -> Option<Seq<char>> {
    let c = path_components(p);
    if c.len() == 0 {
        None
    } else {
        Some(path_text(path_rooted(p), c.drop_last()))
    }
}

/// The directory of a manifest found at path `p`, when it is not the current one.
pub open spec fn manifest_dir(p: Seq<char>) -> Option<Seq<char>> {
    match parent_dir(p) {
        Some(q) => if q.len() == 0 || q == "."@ {
            None
        } else {
            Some(q)
        },
        None => None,
    }
}

/// Whether a path starts at the root.
pub fn rooted(p: &str) -> (r: bool)
    ensures
        r == path_rooted(p@),
{
    p.unicode_len() > 0 && p.get_char(0) == '/'
}

/// The components of the path `p`.
pub fn components(p: &str) -> (r: Vec<String>)
    ensures
        texts(r@) == path_components(p@),
{
    let fields = split_at_char(p, '/');
    let ghost f = texts(fields@);
    let mut out: Vec<String> = Vec::new();
    let mut i: usize = 0;
    assert(texts(out@) + components_from(f, 0) =~= components_from(f, 0));
    while i < fields.len()
        invariant
            i <= fields@.len(),
            f == texts(fields@),
            texts(out@) + components_from(f, i as int) == components_from(f, 0),
        decreases fields@.len() - i,
    {
        let ghost before = texts(out@);
        assert(f[i as int] == fields@[i as int]@);
        if fields[i].unicode_len() > 0 && (i == 0 || !same_text(fields[i].as_str(), ".")) {
            out.push(fields[i].clone());
            assert(texts(out@) =~= before.push(f[i as int]));
            assert(before.push(f[i as int]) + components_from(f, i + 1) =~= before + (seq![
                f[i as int],
            ] + components_from(f, i + 1)));
        }
        i = i + 1;
    }
    assert(texts(out@) + Seq::<Seq<char>>::empty() =~= texts(out@));
    out
}

/// The path written from a root flag and components.
pub fn join_path(rooted: bool, c: &[String]) -> (r: String)
    ensures
        r@ == path_text(rooted, texts(c@)),
{
    let ghost t = texts(c@);
    let mut out = String::new();
    if rooted {
        out.append("/");
        proof {
            reveal_strlit("/");
        }
    }
    let ghost head = out@;
    let mut i: usize = 0;
    assert(t.subrange(0, 0) =~= Seq::<Seq<char>>::empty());
    assert(head + join_slash(t.subrange(0, 0)) =~= head);
    while i < c.len()
        invariant
            i <= c@.len(),
            t == texts(c@),
            head == (if rooted {
                seq!['/']
            } else {
                Seq::<char>::empty()
            }),
            out@ == head + join_slash(t.subrange(0, i as int)),
        decreases c@.len() - i,
    {
        assert(t[i as int] == c@[i as int]@);
        assert(t.subrange(0, i + 1).drop_last() =~= t.subrange(0, i as int));
        if i > 0 {
            out.append("/");
            proof {
                reveal_strlit("/");
            }
        }
        out.append(c[i].as_str());
        assert(out@ =~= head + join_slash(t.subrange(0, i + 1)));
        i = i + 1;
    }
    assert(t.subrange(0, c@.len() as int) =~= t);
    out
}

/// Whether two lists of strings hold the same texts in the same order.
fn same_texts(a: &[String], b: &[String]) -> (r: bool)
    ensures
        r == (texts(a@) == texts(b@)),
{
    if a.len() != b.len() {
        assert(texts(a@).len() != texts(b@).len());
        return false;
    }
    let mut i: usize = 0;
    while i < a.len()
        invariant
            i <= a@.len(),
            a@.len() == b@.len(),
            forall|j: int| 0 <= j < i ==> a@[j]@ == b@[j]@,
        decreases a@.len() - i,
    {
        if !same_text(a[i].as_str(), b[i].as_str()) {
            assert(texts(a@)[i as int] != texts(b@)[i as int]);
            return false;
        }
        i = i + 1;
    }
    assert(texts(a@) =~= texts(b@));
    true
}

/// Whether two optional directories are the same place.
pub fn same_place(a: &Option<String>, b: &Option<String>) -> (r: bool)
    ensures
        r == same_dir(
            match a {
                Some(x) => Some(x@),
                None => None,
            },
            match b {
                Some(x) => Some(x@),
                None => None,
            },
        ),
{
    match (a, b) {
        (Some(x), Some(y)) => {
            rooted(x.as_str()) == rooted(y.as_str()) && same_texts(
                components(x.as_str()).as_slice(),
                components(y.as_str()).as_slice(),
            )
        },
        (None, None) => true,
        _ => false,
    }
}

/// The directory of a manifest found at `path`, when it is not the current one.
pub fn manifest_directory(path: &str) -> (r: Option<String>)
    ensures
        match r {
            Some(x) => manifest_dir(path@) == Some(x@),
            None => manifest_dir(path@) is None,
        },
{
    let mut c = components(path);
    if c.len() == 0 {
        return None;
    }
    let ghost all = texts(c@);
    c.pop();
    assert(texts(c@) =~= all.drop_last());
    let q = join_path(rooted(path), c.as_slice());
    if q.unicode_len() == 0 || same_text(q.as_str(), ".") {
        return None;
    }
    Some(q)
}

} // verus!
