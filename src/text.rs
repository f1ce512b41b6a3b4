//! Character-level helpers on `str`, each stated over the `Seq<char>` view.
use vstd::prelude::*;

verus! {

/// The texts of a list of strings.
pub open spec fn texts(v: Seq<String>) -> Seq<Seq<char>> {
    v.map_values(|s: String| s@)
}

/// The text of an optional string.
pub open spec fn opt_text(o: Option<String>) -> Option<Seq<char>> {
    match o {
        Some(s) => Some(s@),
        None => None,
    }
}

/// `p` is a prefix of `s`.
pub open spec fn has_prefix(s: Seq<char>, p: Seq<char>) -> bool {
    p.len() <= s.len() && s.subrange(0, p.len() as int) == p
}

/// `i` is the first position in `s` that holds `c`.
pub open spec fn is_first_char(s: Seq<char>, c: char, i: int) -> bool {
    &&& 0 <= i < s.len()
    &&& s[i] == c
    &&& forall|j: int| 0 <= j < i ==> s[j] != c
}

/// `s` holds `c` somewhere.
pub open spec fn holds_char(s: Seq<char>, c: char) -> bool {
    exists|i: int| 0 <= i < s.len() && s[i] == c
}

/// The first position of `c` in `s`, if any.
pub open spec fn first_char(s: Seq<char>, c: char) -> Option<int> {
    if holds_char(s, c) {
        Some(choose|i: int| is_first_char(s, c, i))
    } else {
        None
    }
}

/// `s` cut at the first `c`: the text before it and the text after it.
pub open spec fn split_once_char(s: Seq<char>, c: char) -> Option<(Seq<char>, Seq<char>)> {
    match first_char(s, c) {
        Some(i) => Some((s.subrange(0, i), s.subrange(i + 1, s.len() as int))),
        None => None,
    }
}

/// The fields of `s` between the occurrences of `c`, read from the left; there is always at
/// least one field, and an empty `s` has one empty field.
pub open spec fn split_char(s: Seq<char>, c: char) -> Seq<Seq<char>>
    decreases s.len(),
{
    if s.len() == 0 {
        seq![Seq::<char>::empty()]
    } else {
        let prev = split_char(s.drop_last(), c);
        if s.last() == c {
            prev.push(Seq::<char>::empty())
        } else {
            prev.update(prev.len() - 1, prev.last().push(s.last()))
        }
    }
}

/// Every field list from `split_char` is non-empty.
pub proof fn lemma_split_char_nonempty(s: Seq<char>, c: char)
    ensures
        split_char(s, c).len() >= 1,
    decreases s.len(),
{
    if s.len() > 0 {
        lemma_split_char_nonempty(s.drop_last(), c);
    }
}

proof fn lemma_first_char_unique(s: Seq<char>, c: char, i: int)
    requires
        is_first_char(s, c, i),
    ensures
        first_char(s, c) == Some(i),
{
    let k = choose|k: int| is_first_char(s, c, k);
    assert(is_first_char(s, c, k));
    if k < i {
        assert(s[k] != c);
    } else if i < k {
        assert(s[i] != c);
    }
}

/// The text of `s` from position `from` up to `to`, as a new `String`.
pub fn slice_text(s: &str, from: usize, to: usize) -> (r: String)
    requires
        from <= to <= s@.len(),
    ensures
        r@ == s@.subrange(from as int, to as int),
{
    s.substring_char(from, to).to_string()
}

/// Whether `a` and `b` hold the same characters.
pub fn same_text(a: &str, b: &str) -> (r: bool)
    ensures
        r == (a@ == b@),
{
    let n = a.unicode_len();
    let m = b.unicode_len();
    if n != m {
        return false;
    }
    let mut i: usize = 0;
    while i < n
        invariant
            n == a@.len(),
            m == b@.len(),
            n == m,
            i <= n,
            forall|j: int| 0 <= j < i ==> a@[j] == b@[j],
        decreases n - i,
    {
        if a.get_char(i) != b.get_char(i) {
            return false;
        }
        i = i + 1;
    }
    assert(a@ =~= b@);
    true
}

/// Whether `s` begins with `p`.
pub fn starts_with_text(s: &str, p: &str) -> (r: bool)
    ensures
        r == has_prefix(s@, p@),
{
    let n = s.unicode_len();
    let m = p.unicode_len();
    if m > n {
        return false;
    }
    let mut i: usize = 0;
    while i < m
        invariant
            n == s@.len(),
            m == p@.len(),
            m <= n,
            i <= m,
            forall|j: int| 0 <= j < i ==> s@[j] == p@[j],
        decreases m - i,
    {
        if s.get_char(i) != p.get_char(i) {
            assert(s@.subrange(0, m as int)[i as int] != p@[i as int]);
            return false;
        }
        i = i + 1;
    }
    assert(s@.subrange(0, m as int) =~= p@);
    true
}

/// Whether `s` begins with the character `c`.
pub fn starts_with_char(s: &str, c: char) -> (r: bool)
    ensures
        r == (s@.len() > 0 && s@[0] == c),
{
    s.unicode_len() > 0 && s.get_char(0) == c
}

/// The first position of `c` in `s`, if any.
pub fn find_char(s: &str, c: char) -> (r: Option<usize>)
    ensures
        r matches Some(i) ==> is_first_char(s@, c, i as int) && first_char(s@, c) == Some(i as int),
        r is None ==> first_char(s@, c) is None,
{
    let n = s.unicode_len();
    let mut i: usize = 0;
    while i < n
        invariant
            n == s@.len(),
            i <= n,
            forall|j: int| 0 <= j < i ==> s@[j] != c,
        decreases n - i,
    {
        if s.get_char(i) == c {
            proof {
                lemma_first_char_unique(s@, c, i as int);
            }
            return Some(i);
        }
        i = i + 1;
    }
    None
}

/// `s` cut at the first `c`.
pub fn split_once_at(s: &str, c: char) -> (r: Option<(String, String)>)
    ensures
        r matches Some(p) ==> split_once_char(s@, c) == Some((p.0@, p.1@)),
        r is None ==> split_once_char(s@, c) is None,
{
    match find_char(s, c) {
        Some(i) => {
            let n = s.unicode_len();
            Some((slice_text(s, 0, i), slice_text(s, i + 1, n)))
        },
        None => None,
    }
}

/// The fields of `s` between the occurrences of `c`.
pub fn split_at_char(s: &str, c: char) -> (r: Vec<String>)
    ensures
        r@.map_values(|f: String| f@) == split_char(s@, c),
{
    let n = s.unicode_len();
    let mut fields: Vec<String> = Vec::new();
    let mut start: usize = 0;
    let mut i: usize = 0;
    assert(s@.subrange(0, 0) =~= Seq::<char>::empty());
    assert(fields@.map_values(|f: String| f@).push(s@.subrange(0, 0)) =~= seq![Seq::<char>::empty()]);
    while i < n
        invariant
            n == s@.len(),
            start <= i <= n,
            split_char(s@.subrange(0, i as int), c) == fields@.map_values(|f: String| f@).push(
                s@.subrange(start as int, i as int),
            ),
        decreases n - i,
    {
        let ghost before = s@.subrange(0, i as int);
        let ghost after = s@.subrange(0, i + 1);
        assert(after.drop_last() =~= before);
        if s.get_char(i) == c {
            let f = slice_text(s, start, i);
            fields.push(f);
            start = i + 1;
            assert(s@.subrange(start as int, i + 1) =~= Seq::<char>::empty());
            assert(fields@.map_values(|f: String| f@) =~= split_char(before, c));
        } else {
            assert(s@.subrange(start as int, i + 1) =~= s@.subrange(start as int, i as int).push(
                s@[i as int],
            ));
        }
        i = i + 1;
        assert(split_char(s@.subrange(0, i as int), c) =~= fields@.map_values(|f: String| f@).push(
            s@.subrange(start as int, i as int),
        ));
    }
    assert(s@.subrange(0, n as int) =~= s@);
    let last = slice_text(s, start, n);
    fields.push(last);
    assert(fields@.map_values(|f: String| f@) =~= split_char(s@, c));
    fields
}

/// A decimal digit.
pub open spec fn is_digit(c: char) -> bool {
    '0' <= c && c <= '9'
}

/// The value of a decimal digit.
pub open spec fn digit_value(c: char) -> int {
    c as int - '0' as int
}

/// Every character of `s` is a decimal digit.
pub open spec fn all_digits(s: Seq<char>) -> bool {
    forall|i: int| 0 <= i < s.len() ==> is_digit(s[i])
}

/// The value of a string of decimal digits.
pub open spec fn digits_value(s: Seq<char>) -> int
    decreases s.len(),
{
    if s.len() == 0 {
        0
    } else {
        10 * digits_value(s.drop_last()) + digit_value(s.last())
    }
}

/// The integer that `s` writes: one or more decimal digits, after an optional `+` or `-`.
pub open spec fn int_text(s: Seq<char>) -> Option<int> {
    if s.len() > 0 && (s[0] == '-' || s[0] == '+') {
        let d = s.drop_first();
        if d.len() > 0 && all_digits(d) {
            Some(
                if s[0] == '-' {
                    -digits_value(d)
                } else {
                    digits_value(d)
                },
            )
        } else {
            None
        }
    } else if s.len() > 0 && all_digits(s) {
        Some(digits_value(s))
    } else {
        None
    }
}

/// The exit code that `s` writes, when it writes an integer that a `RetCode` holds.
pub open spec fn code_text(s: Seq<char>) -> Option<isize> {
    match int_text(s) {
        Some(v) => if isize::MIN <= v && v <= isize::MAX {
            Some(v as isize)
        } else {
            None
        },
        None => None,
    }
}

proof fn lemma_digits_value_grows(s: Seq<char>, k: int)
    requires
        all_digits(s),
        0 <= k <= s.len(),
    ensures
        0 <= digits_value(s.subrange(0, k)) <= digits_value(s),
    decreases s.len(),
{
    if k < s.len() {
        lemma_digits_value_grows(s.drop_last(), k);
        assert(s.drop_last().subrange(0, k) =~= s.subrange(0, k));
    } else {
        assert(s.subrange(0, k) =~= s);
        if s.len() > 0 {
            lemma_digits_value_grows(s.drop_last(), k - 1);
            assert(s.drop_last().subrange(0, k - 1) =~= s.drop_last());
        }
    }
}

/// Reads an exit code written in decimal, with an optional sign.
pub fn parse_code(s: &str) -> (r: Option<isize>)
    ensures
        r == code_text(s@),
{
    let n = s.unicode_len();
    if n == 0 {
        return None;
    }
    let first = s.get_char(0);
    let neg = first == '-';
    let start: usize = if first == '-' || first == '+' { 1 } else { 0 };
    if start == n {
        return None;
    }
    let ghost d = s@.subrange(start as int, n as int);
    proof {
        if start == 1 {
            assert(d =~= s@.drop_first());
        } else {
            assert(d =~= s@);
        }
    }
    let mut acc: isize = 0;
    let mut i: usize = start;
    assert(d.subrange(0, 0) =~= Seq::<char>::empty());
    while i < n
        invariant
            start <= i <= n,
            start <= 1,
            n == s@.len(),
            start < n,
            d == s@.subrange(start as int, n as int),
            neg == (s@[0] == '-'),
            start == 1 <==> (s@[0] == '-' || s@[0] == '+'),
            start == 1 ==> d == s@.drop_first(),
            start == 0 ==> d == s@,
            all_digits(d.subrange(0, i - start)),
            acc == (if neg {
                -digits_value(d.subrange(0, i - start))
            } else {
                digits_value(d.subrange(0, i - start))
            }),
        decreases n - i,
    {
        let c = s.get_char(i);
        let ghost k = i - start;
        let ghost next = d.subrange(0, k + 1);
        assert(next.drop_last() =~= d.subrange(0, k));
        if !('0' <= c && c <= '9') {
            assert(!is_digit(d[k]));
            assert(!all_digits(d));
            return None;
        }
        let dv = (c as u32 - '0' as u32) as isize;
        assert(dv == digit_value(c));
        let step = if neg {
            match acc.checked_mul(10) {
                Some(m) => m.checked_sub(dv),
                None => None,
            }
        } else {
            match acc.checked_mul(10) {
                Some(m) => m.checked_add(dv),
                None => None,
            }
        };
        assert(all_digits(next));
        match step {
            Some(v) => {
                acc = v;
            },
            None => {
                proof {
                    assert(digits_value(next) == 10 * digits_value(d.subrange(0, k)) + dv);
                    if all_digits(d) {
                        lemma_digits_value_grows(d, k + 1);
                        lemma_digits_value_grows(d, k);
                        if neg {
                            assert(-digits_value(next) < isize::MIN);
                        } else {
                            assert(digits_value(next) > isize::MAX);
                        }
                        assert(digits_value(next) <= digits_value(d));
                        if start == 1 {
                            assert(int_text(s@) == Some(if neg { -digits_value(d) } else { digits_value(d) }));
                        } else {
                            assert(int_text(s@) == Some(digits_value(d)));
                        }
                    }
                    assert(code_text(s@) is None);
                }
                return None;
            },
        }
        i = i + 1;
    }
    assert(d.subrange(0, n - start) =~= d);
    Some(acc)
}

/// A copy of a list of strings.
pub fn clone_texts(v: &[String]) -> (r: Vec<String>)
    ensures
        texts(r@) == texts(v@),
{
    let mut r: Vec<String> = Vec::new();
    let mut i: usize = 0;
    while i < v.len()
        invariant
            i <= v@.len(),
            texts(r@) == texts(v@).subrange(0, i as int),
        decreases v@.len() - i,
    {
        let ghost before = texts(r@);
        r.push(v[i].clone());
        assert(texts(r@) =~= before.push(v@[i as int]@));
        assert(texts(v@).subrange(0, i + 1) =~= texts(v@).subrange(0, i as int).push(v@[i as int]@));
        i = i + 1;
    }
    assert(texts(v@).subrange(0, v@.len() as int) =~= texts(v@));
    r
}

/// A copy of an optional string.
pub fn clone_opt(o: &Option<String>) -> (r: Option<String>)
    ensures
        opt_text(r) == opt_text(*o),
{
    match o {
        Some(s) => Some(s.clone()),
        None => None,
    }
}

/// The character of a decimal digit.
pub open spec fn digit_char(d: int) -> char {
    if d == 0 {
        '0'
    } else if d == 1 {
        '1'
    } else if d == 2 {
        '2'
    } else if d == 3 {
        '3'
    } else if d == 4 {
        '4'
    } else if d == 5 {
        '5'
    } else if d == 6 {
        '6'
    } else if d == 7 {
        '7'
    } else if d == 8 {
        '8'
    } else {
        '9'
    }
}

/// The decimal digits of `n`, without leading zeros.
pub open spec fn digits_text(n: nat) -> Seq<char>
    decreases n,
{
    if n < 10 {
        seq![digit_char(n as int)]
    } else {
        digits_text(n / 10).push(digit_char(n as int % 10))
    }
}

/// `n` in decimal, with a `-` when it is negative.
pub open spec fn decimal_text(n: int) -> Seq<char> {
    if n < 0 {
        seq!['-'] + digits_text((-n) as nat)
    } else {
        digits_text(n as nat)
    }
}

fn digit_str(d: u64) -> (r: &'static str)
    requires
        d < 10,
    ensures
        r@ == seq![digit_char(d as int)],
{
    proof {
        reveal_strlit("0");
        reveal_strlit("1");
        reveal_strlit("2");
        reveal_strlit("3");
        reveal_strlit("4");
        reveal_strlit("5");
        reveal_strlit("6");
        reveal_strlit("7");
        reveal_strlit("8");
        reveal_strlit("9");
    }
    let r = match d {
        0 => "0",
        1 => "1",
        2 => "2",
        3 => "3",
        4 => "4",
        5 => "5",
        6 => "6",
        7 => "7",
        8 => "8",
        _ => "9",
    };
    assert(r@ =~= seq![digit_char(d as int)]);
    r
}

fn push_digits(out: &mut String, m: u64)
    ensures
        final(out)@ == old(out)@ + digits_text(m as nat),
    decreases m,
{
    if m >= 10 {
        push_digits(out, m / 10);
    }
    out.append(digit_str(m % 10));
    assert(m < 10 ==> digits_text(m as nat) == seq![digit_char(m as int)]);
    assert(old(out)@ + digits_text(m as nat) =~= (if m >= 10 {
        old(out)@ + digits_text((m / 10) as nat)
    } else {
        old(out)@
    }) + seq![digit_char((m % 10) as int)]);
}

/// `n` written in decimal.
pub fn decimal(n: isize) -> (r: String)
    ensures
        r@ == decimal_text(n as int),
{
    let mut r = String::new();
    let m: u64 = if n < 0 {
        r.append("-");
        proof {
            reveal_strlit("-");
        }
        ((-(n as i128)) as u64)
    } else {
        n as u64
    };
    push_digits(&mut r, m);
    assert(r@ =~= decimal_text(n as int));
    r
}

/// `p` stands in `s` at position `k`.
pub open spec fn matches_at(s: Seq<char>, p: Seq<char>, k: int) -> bool {
    0 <= k && k + p.len() <= s.len() && s.subrange(k, k + p.len()) == p
}

/// `k` is the first position where `p` stands in `s`.
pub open spec fn is_first_match(s: Seq<char>, p: Seq<char>, k: int) -> bool {
    &&& matches_at(s, p, k)
    &&& forall|j: int| 0 <= j < k ==> !#[trigger] matches_at(s, p, j)
}

/// The first position where `p` stands in `s`, if any.
pub open spec fn first_match(s: Seq<char>, p: Seq<char>) -> Option<int> {
    if exists|k: int| is_first_match(s, p, k) {
        Some(choose|k: int| is_first_match(s, p, k))
    } else {
        None
    }
}

fn text_at(s: &str, p: &str, k: usize) -> (r: bool)
    requires
        k <= s@.len(),
    ensures
        r == matches_at(s@, p@, k as int),
{
    let n = s.unicode_len();
    let m = p.unicode_len();
    if m > n - k {
        return false;
    }
    let mut i: usize = 0;
    while i < m
        invariant
            n == s@.len(),
            m == p@.len(),
            k + m <= n,
            i <= m,
            forall|j: int| 0 <= j < i ==> s@[k + j] == p@[j],
        decreases m - i,
    {
        if s.get_char(k + i) != p.get_char(i) {
            assert(s@.subrange(k as int, k + m)[i as int] != p@[i as int]);
            return false;
        }
        i = i + 1;
    }
    assert(s@.subrange(k as int, k + m) =~= p@);
    true
}

/// The first position where `p` stands in `s`, if any.
pub fn find_text(s: &str, p: &str) -> (r: Option<usize>)
    ensures
        r matches Some(k) ==> is_first_match(s@, p@, k as int) && first_match(s@, p@) == Some(
            k as int,
        ),
        r is None ==> first_match(s@, p@) is None,
{
    let n = s.unicode_len();
    let mut k: usize = 0;
    while k <= n
        invariant
            n == s@.len(),
            forall|j: int| 0 <= j < k ==> !#[trigger] matches_at(s@, p@, j),
        ensures
            forall|j: int| 0 <= j <= n ==> !#[trigger] matches_at(s@, p@, j),
        decreases n + 1 - k,
    {
        if text_at(s, p, k) {
            proof {
                let c = choose|c: int| is_first_match(s@, p@, c);
                assert(is_first_match(s@, p@, k as int));
                if c < k {
                    assert(!matches_at(s@, p@, c));
                } else if k < c {
                    assert(!matches_at(s@, p@, k as int));
                }
            }
            return Some(k);
        }
        if k == n {
            break;
        }
        k = k + 1;
    }
    proof {
        assert forall|c: int| !is_first_match(s@, p@, c) by {
            if is_first_match(s@, p@, c) {
                assert(!matches_at(s@, p@, c));
            }
        }
    }
    None
}

/// A line without the carriage return that ends it, if any.
pub open spec fn strip_cr(l: Seq<char>) -> Seq<char> {
    if l.len() > 0 && l.last() == '\r' {
        l.drop_last()
    } else {
        l
    }
}

/// The lines of `s`: the texts between its line endings, each of which is a newline or a
/// carriage return and a newline; a line ending at the very end starts no further line.
pub open spec fn text_lines(s: Seq<char>) -> Seq<Seq<char>> {
    let f = split_char(s, '\n');
    let ended = f.drop_last().map_values(|l: Seq<char>| strip_cr(l));
    if f.last().len() == 0 {
        ended
    } else {
        ended.push(f.last())
    }
}

fn without_cr(l: &str) -> (r: String)
    ensures
        r@ == strip_cr(l@),
{
    let n = l.unicode_len();
    if n > 0 && l.get_char(n - 1) == '\r' {
        slice_text(l, 0, n - 1)
    } else {
        l.to_string()
    }
}

/// The lines of `s`.
pub fn lines_of(s: &str) -> (r: Vec<String>)
    ensures
        texts(r@) == text_lines(s@),
{
    let f = split_at_char(s, '\n');
    let ghost fv = texts(f@);
    proof {
        lemma_split_char_nonempty(s@, '\n');
    }
    let k = f.len() - 1;
    let mut out: Vec<String> = Vec::new();
    let mut i: usize = 0;
    while i < k
        invariant
            i <= k,
            k == f@.len() - 1,
            fv == texts(f@),
            texts(out@) == fv.drop_last().map_values(|l: Seq<char>| strip_cr(l)).subrange(
                0,
                i as int,
            ),
        decreases k - i,
    {
        let ghost before = texts(out@);
        assert(fv[i as int] == f@[i as int]@);
        out.push(without_cr(f[i].as_str()));
        assert(texts(out@) =~= before.push(strip_cr(fv[i as int])));
        assert(fv.drop_last().map_values(|l: Seq<char>| strip_cr(l)).subrange(0, i + 1)
            =~= before.push(strip_cr(fv[i as int])));
        i = i + 1;
    }
    assert(fv.drop_last().map_values(|l: Seq<char>| strip_cr(l)).subrange(0, k as int)
        =~= fv.drop_last().map_values(|l: Seq<char>| strip_cr(l)));
    assert(fv[k as int] == f@[k as int]@);
    if f[k].unicode_len() > 0 {
        let ghost before = texts(out@);
        out.push(f[k].clone());
        assert(texts(out@) =~= before.push(fv[k as int]));
    }
    out
}

} // verus!
