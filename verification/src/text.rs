//! Character-level text operations on strings, each with the meaning it has
//! on `str` stated as a spec function over the string's characters.
use vstd::prelude::*;

verus! {

broadcast use vstd::string::group_string_axioms;

/// Unicode's `White_Space` property: the characters that `char::is_whitespace`,
/// `str::trim` and the regex class `\s` treat as white space.
pub open spec fn is_white_space(c: char) -> bool {
    let u = c as u32;
    ||| 0x9 <= u <= 0xd
    ||| u == 0x20
    ||| u == 0x85
    ||| u == 0xa0
    ||| u == 0x1680
    ||| 0x2000 <= u <= 0x200a
    ||| u == 0x2028
    ||| u == 0x2029
    ||| u == 0x202f
    ||| u == 0x205f
    ||| u == 0x3000
}

/// `s` without its leading white space.
pub open spec fn trim_start_ws(s: Seq<char>) -> Seq<char>
    decreases s.len(),
{
    if s.len() > 0 && is_white_space(s[0]) {
        trim_start_ws(s.drop_first())
    } else {
        s
    }
}

/// `s` without its trailing white space.
pub open spec fn trim_end_ws(s: Seq<char>) -> Seq<char>
    decreases s.len(),
{
    if s.len() > 0 && is_white_space(s.last()) {
        trim_end_ws(s.drop_last())
    } else {
        s
    }
}

/// `s` without leading and trailing white space (`str::trim`).
pub open spec fn trim_ws(s: Seq<char>) -> Seq<char> {
    trim_end_ws(trim_start_ws(s))
}

/// `s` without any leading copies of `c` (`str::trim_start_matches` with a char).
pub open spec fn trim_start_char(s: Seq<char>, c: char) -> Seq<char>
    decreases s.len(),
{
    if s.len() > 0 && s[0] == c {
        trim_start_char(s.drop_first(), c)
    } else {
        s
    }
}

/// `s` without any trailing copies of `c` (`str::trim_end_matches` with a char).
pub open spec fn trim_end_char(s: Seq<char>, c: char) -> Seq<char>
    decreases s.len(),
{
    if s.len() > 0 && s.last() == c {
        trim_end_char(s.drop_last(), c)
    } else {
        s
    }
}

/// What `trim_end_char` leaves does not end with `c`.
pub proof fn lemma_trim_end_char(s: Seq<char>, c: char)
    ensures
        trim_end_char(s, c).len() == 0 || trim_end_char(s, c).last() != c,
    decreases s.len(),
{
    if s.len() > 0 && s.last() == c {
        lemma_trim_end_char(s.drop_last(), c);
    }
}

/// What `trim_start_char` leaves does not begin with `c`.
pub proof fn lemma_trim_start_char(s: Seq<char>, c: char)
    ensures
        trim_start_char(s, c).len() == 0 || trim_start_char(s, c)[0] != c,
    decreases s.len(),
{
    if s.len() > 0 && s[0] == c {
        lemma_trim_start_char(s.drop_first(), c);
    }
}

/// Every character of `s` is white space.
pub open spec fn all_white_space(s: Seq<char>) -> bool {
    forall|i: int| 0 <= i < s.len() ==> is_white_space(#[trigger] s[i])
}

/// The character views of a sequence of strings.
pub open spec fn views(v: Seq<String>) -> Seq<Seq<char>> {
    v.map_values(|s: String| s@)
}

/// The characters of an optional string.
pub open spec fn opt_view(o: Option<String>) -> Option<Seq<char>> {
    match o {
        Some(s) => Some(s@),
        None => None,
    }
}

/// The text, or `default` when there is none.
pub open spec fn text_or(o: Option<Seq<char>>, default: Seq<char>) -> Seq<char> {
    match o {
        Some(s) => s,
        None => default,
    }
}

/// The parts joined with `sep` between neighbours (`[..].join(sep)`).
pub open spec fn join(parts: Seq<Seq<char>>, sep: Seq<char>) -> Seq<char>
    decreases parts.len(),
{
    if parts.len() == 0 {
        Seq::empty()
    } else if parts.len() == 1 {
        parts[0]
    } else {
        join(parts.drop_last(), sep) + sep + parts.last()
    }
}

/// `p` occurs in `s` starting at index `i`.
pub open spec fn occurs_at(s: Seq<char>, p: Seq<char>, i: int) -> bool {
    0 <= i && i + p.len() <= s.len() && s.subrange(i, i + p.len()) == p
}

/// `p` occurs somewhere in `s` (`str::contains`).
pub open spec fn contains_seq(s: Seq<char>, p: Seq<char>) -> bool {
    exists|i: int| occurs_at(s, p, i)
}

/// `s` with every non-overlapping occurrence of `from`, scanned from the left,
/// replaced by `to` (`str::replace` for a non-empty pattern).
pub open spec fn replace_all(s: Seq<char>, from: Seq<char>, to: Seq<char>) -> Seq<char>
    decreases s.len(),
{
    if s.len() == 0 || from.len() == 0 {
        s
    } else if from.is_prefix_of(s) {
        to + replace_all(s.skip(from.len() as int), from, to)
    } else {
        seq![s[0]] + replace_all(s.drop_first(), from, to)
    }
}

/// The index of the first `'\n'` in `s`, or its length when there is none.
pub open spec fn line_end(s: Seq<char>) -> nat
    decreases s.len(),
{
    if s.len() == 0 || s[0] == '\n' {
        0
    } else {
        1 + line_end(s.drop_first())
    }
}

/// A line without the `'\r'` of a `"\r\n"` ending.
pub open spec fn strip_cr(line: Seq<char>) -> Seq<char> {
    if line.len() > 0 && line.last() == '\r' {
        line.drop_last()
    } else {
        line
    }
}

/// The lines of `s` (`str::lines`): split at `'\n'`, with the `'\r'` of a
/// `"\r\n"` ending removed and no empty line after a final `'\n'`.
pub open spec fn lines(s: Seq<char>) -> Seq<Seq<char>>
    decreases s.len(),
{
    if s.len() == 0 {
        Seq::empty()
    } else {
        let k = line_end(s);
        if k < s.len() {
            seq![strip_cr(s.take(k as int))] + lines(s.skip(k + 1 as int))
        } else {
            seq![s]
        }
    }
}

pub proof fn lemma_line_end_bound(s: Seq<char>)
    ensures
        line_end(s) <= s.len(),
        line_end(s) < s.len() ==> s[line_end(s) as int] == '\n',
        forall|i: int| 0 <= i < line_end(s) ==> s[i] != '\n',
    decreases s.len(),
{
    if s.len() > 0 && s[0] != '\n' {
        lemma_line_end_bound(s.drop_first());
        assert forall|i: int| 0 <= i < line_end(s) implies s[i] != '\n' by {
            if i > 0 {
                assert(s[i] == s.drop_first()[i - 1]);
            }
        }
    }
}

/// Appends one character to a string (`String::push`).
#[verifier::external_body]
pub fn push_char(s: &mut String, c: char)
    ensures
        final(s)@ == old(s)@.push(c),
{
    s.push(c);
}

/// The characters of `s`, in order.
pub fn chars_of(s: &str) -> (v: Vec<char>)
    ensures
        v@ == s@,
{
    let mut v: Vec<char> = Vec::new();
    for c in it: s.chars()
        invariant
            v@ == it.seq().take(it.index()),
            it.seq() == s@,
    {
        v.push(c);
    }
    v
}

/// A string made of `v[lo..hi]`.
pub fn string_of_range(v: &Vec<char>, lo: usize, hi: usize) -> (res: String)
    requires
        lo <= hi <= v@.len(),
    ensures
        res@ == v@.subrange(lo as int, hi as int),
{
    let mut res = String::new();
    let mut i = lo;
    while i < hi
        invariant
            lo <= i <= hi <= v@.len(),
            res@ == v@.subrange(lo as int, i as int),
        decreases hi - i,
    {
        push_char(&mut res, v[i]);
        proof {
            assert(v@.subrange(lo as int, i + 1) =~= v@.subrange(lo as int, i as int).push(v@[i as int]));
        }
        i += 1;
    }
    res
}

/// A string holding exactly the characters of `v`.
pub fn string_of_chars(v: &Vec<char>) -> (res: String)
    ensures
        res@ == v@,
{
    let res = string_of_range(v, 0, v.len());
    proof {
        assert(v@.subrange(0, v@.len() as int) =~= v@);
    }
    res
}

/// Whether `c` is white space.
pub fn is_white_space_char(c: char) -> (res: bool)
    ensures
        res == is_white_space(c),
{
    let u = c as u32;
    (0x9 <= u && u <= 0xd) || u == 0x20 || u == 0x85 || u == 0xa0 || u == 0x1680 || (0x2000 <= u
        && u <= 0x200a) || u == 0x2028 || u == 0x2029 || u == 0x202f || u == 0x205f || u == 0x3000
}

/// Character-wise equality of two strings.
pub fn str_eq(a: &str, b: &str) -> (res: bool)
    ensures
        res == (a@ == b@),
{
    let x = chars_of(a);
    let y = chars_of(b);
    if x.len() != y.len() {
        return false;
    }
    let mut i: usize = 0;
    while i < x.len()
        invariant
            x@ == a@,
            y@ == b@,
            x@.len() == y@.len(),
            i <= x@.len(),
            forall|k: int| 0 <= k < i ==> x@[k] == y@[k],
        decreases x@.len() - i,
    {
        if x[i] != y[i] {
            return false;
        }
        i += 1;
    }
    proof {
        assert(x@ =~= y@);
    }
    true
}

/// The bounds `lo..hi` of `v` left once white space is taken off both ends.
pub fn trim_bounds(v: &Vec<char>) -> (res: (usize, usize))
    ensures
        res.0 <= res.1 <= v@.len(),
        trim_ws(v@) == v@.subrange(res.0 as int, res.1 as int),
        trim_start_ws(v@) == v@.subrange(res.0 as int, v@.len() as int),
{
    let n = v.len();
    let mut lo: usize = 0;
    proof {
        assert(v@.subrange(0, n as int) =~= v@);
    }
    while lo < n && is_white_space_char(v[lo])
        invariant
            lo <= n == v@.len(),
            trim_start_ws(v@) == trim_start_ws(v@.subrange(lo as int, n as int)),
        decreases n - lo,
    {
        proof {
            assert(v@.subrange(lo as int, n as int).drop_first() =~= v@.subrange(lo + 1, n as int));
        }
        lo += 1;
    }
    let mut hi: usize = n;
    while hi > lo && is_white_space_char(v[hi - 1])
        invariant
            lo <= hi <= n == v@.len(),
            trim_end_ws(v@.subrange(lo as int, n as int)) == trim_end_ws(
                v@.subrange(lo as int, hi as int),
            ),
        decreases hi - lo,
    {
        proof {
            assert(v@.subrange(lo as int, hi as int).drop_last() =~= v@.subrange(
                lo as int,
                hi - 1,
            ));
        }
        hi -= 1;
    }
    (lo, hi)
}

/// `s` without leading and trailing white space.
pub fn trim(s: &str) -> (res: String)
    ensures
        res@ == trim_ws(s@),
{
    let v = chars_of(s);
    let (lo, hi) = trim_bounds(&v);
    string_of_range(&v, lo, hi)
}

/// Whether `s` is empty once white space is taken off (`s.trim().is_empty()`).
pub fn is_blank(s: &str) -> (res: bool)
    ensures
        res == (trim_ws(s@).len() == 0),
{
    let v = chars_of(s);
    let (lo, hi) = trim_bounds(&v);
    lo == hi
}

/// `s` without any leading copies of `c`.
pub fn trim_start_matches_char(s: &str, c: char) -> (res: String)
    ensures
        res@ == trim_start_char(s@, c),
{
    let v = chars_of(s);
    let n = v.len();
    let mut lo: usize = 0;
    proof {
        assert(v@.subrange(0, n as int) =~= v@);
    }
    while lo < n && v[lo] == c
        invariant
            lo <= n == v@.len(),
            trim_start_char(v@, c) == trim_start_char(v@.subrange(lo as int, n as int), c),
        decreases n - lo,
    {
        proof {
            assert(v@.subrange(lo as int, n as int).drop_first() =~= v@.subrange(lo + 1, n as int));
        }
        lo += 1;
    }
    string_of_range(&v, lo, n)
}

/// `s` without any trailing copies of `c`.
pub fn trim_end_matches_char(s: &str, c: char) -> (res: String)
    ensures
        res@ == trim_end_char(s@, c),
{
    let v = chars_of(s);
    let n = v.len();
    let mut hi: usize = n;
    proof {
        assert(v@.subrange(0, n as int) =~= v@);
    }
    while hi > 0 && v[hi - 1] == c
        invariant
            hi <= n == v@.len(),
            trim_end_char(v@, c) == trim_end_char(v@.subrange(0, hi as int), c),
        decreases hi,
    {
        proof {
            assert(v@.subrange(0, hi as int).drop_last() =~= v@.subrange(0, hi - 1));
        }
        hi -= 1;
    }
    string_of_range(&v, 0, hi)
}

/// Whether `p` occurs in `s` at index `i`.
pub fn occurs_at_exec(s: &Vec<char>, p: &Vec<char>, i: usize) -> (res: bool)
    ensures
        res == occurs_at(s@, p@, i as int),
{
    if i > s.len() || p.len() > s.len() - i {
        return false;
    }
    let mut k: usize = 0;
    while k < p.len()
        invariant
            i + p@.len() <= s@.len(),
            s@.len() == s.len(),
            k <= p@.len(),
            forall|j: int| 0 <= j < k ==> s@[i + j] == p@[j],
        decreases p@.len() - k,
    {
        if s[i + k] != p[k] {
            proof {
                assert(s@.subrange(i as int, i + p@.len())[k as int] != p@[k as int]);
            }
            return false;
        }
        k += 1;
    }
    proof {
        assert(s@.subrange(i as int, i + p@.len()) =~= p@);
    }
    true
}

/// Whether `p` occurs somewhere in `s`.
pub fn contains(s: &str, p: &str) -> (res: bool)
    ensures
        res == contains_seq(s@, p@),
{
    let v = chars_of(s);
    let w = chars_of(p);
    if w.len() > v.len() {
        proof {
            assert forall|i: int| !occurs_at(s@, p@, i) by {}
        }
        return false;
    }
    let last = v.len() - w.len();
    let mut i: usize = 0;
    while i < last
        invariant
            v@ == s@,
            w@ == p@,
            last == v@.len() - w@.len(),
            i <= last,
            forall|j: int| 0 <= j < i ==> !occurs_at(s@, p@, j),
        decreases last - i,
    {
        if occurs_at_exec(&v, &w, i) {
            return true;
        }
        i += 1;
    }
    if occurs_at_exec(&v, &w, last) {
        return true;
    }
    proof {
        assert forall|j: int| !occurs_at(s@, p@, j) by {
            if 0 <= j < i {
            }
        }
    }
    false
}

/// Whether `s` begins with `p`.
pub fn starts_with(s: &str, p: &str) -> (res: bool)
    ensures
        res == p@.is_prefix_of(s@),
{
    let v = chars_of(s);
    let w = chars_of(p);
    let r = occurs_at_exec(&v, &w, 0);
    proof {
        if r {
            assert forall|j: int| 0 <= j < p@.len() implies p@[j] == s@[j] by {
                assert(s@.subrange(0, p@.len() as int)[j] == s@[j]);
            }
        } else if p@.is_prefix_of(s@) {
            assert(s@.subrange(0, p@.len() as int) =~= p@);
        }
    }
    r
}

/// `s` without the prefix `p`, or `None` when `s` does not begin with `p`
/// (`str::strip_prefix`).
pub fn strip_prefix(s: &str, p: &str) -> (res: Option<String>)
    ensures
        res is Some <==> p@.is_prefix_of(s@),
        res matches Some(r) ==> r@ == s@.skip(p@.len() as int),
{
    if starts_with(s, p) {
        let v = chars_of(s);
        let w = chars_of(p);
        let r = string_of_range(&v, w.len(), v.len());
        proof {
            assert(v@.subrange(w@.len() as int, v@.len() as int) =~= s@.skip(p@.len() as int));
        }
        Some(r)
    } else {
        None
    }
}

proof fn lemma_replace_step(s: Seq<char>, from: Seq<char>, to: Seq<char>, i: int)
    requires
        0 <= i < s.len(),
        from.len() > 0,
    ensures
        from.is_prefix_of(s.skip(i)) <==> occurs_at(s, from, i),
        occurs_at(s, from, i) ==> replace_all(s.skip(i), from, to) == to + replace_all(
            s.skip(i + from.len()),
            from,
            to,
        ),
        !occurs_at(s, from, i) ==> replace_all(s.skip(i), from, to) == seq![s[i]] + replace_all(
            s.skip(i + 1),
            from,
            to,
        ),
{
    let t = s.skip(i);
    if from.is_prefix_of(t) {
        assert(s.subrange(i, i + from.len()) =~= from) by {
            assert forall|j: int| 0 <= j < from.len() implies s.subrange(i, i + from.len())[j]
                == from[j] by {
                assert(t[j] == s[i + j]);
            }
        }
        assert(t.skip(from.len() as int) =~= s.skip(i + from.len()));
    } else {
        if occurs_at(s, from, i) {
            assert forall|j: int| 0 <= j < from.len() implies from[j] == t[j] by {
                assert(s.subrange(i, i + from.len())[j] == s[i + j]);
            }
        }
        assert(t.drop_first() =~= s.skip(i + 1));
    }
}

/// `s` with every non-overlapping occurrence of `from`, scanned from the
/// left, replaced by `to`.
pub fn replace(s: &str, from: &str, to: &str) -> (res: String)
    requires
        from@.len() > 0,
    ensures
        res@ == replace_all(s@, from@, to@),
{
    let v = chars_of(s);
    let w = chars_of(from);
    let mut res = String::new();
    let mut i: usize = 0;
    proof {
        assert(s@.skip(0) =~= s@);
    }
    while i < v.len()
        invariant
            v@ == s@,
            w@ == from@,
            from@.len() > 0,
            i <= v@.len(),
            replace_all(s@, from@, to@) == res@ + replace_all(s@.skip(i as int), from@, to@),
        decreases v@.len() - i,
    {
        proof {
            lemma_replace_step(s@, from@, to@, i as int);
        }
        if occurs_at_exec(&v, &w, i) {
            let ghost before = res@;
            res.append(to);
            proof {
                assert(res@ + replace_all(s@.skip(i + w@.len()), from@, to@) =~= before + (to@
                    + replace_all(s@.skip(i + w@.len()), from@, to@)));
            }
            i += w.len();
        } else {
            let ghost before = res@;
            push_char(&mut res, v[i]);
            proof {
                assert(res@ + replace_all(s@.skip(i + 1), from@, to@) =~= before + (seq![s@[i as int]]
                    + replace_all(s@.skip(i + 1), from@, to@)));
            }
            i += 1;
        }
    }
    proof {
        assert(s@.skip(i as int) =~= Seq::<char>::empty());
        assert(res@ + Seq::<char>::empty() =~= res@);
    }
    res
}

/// The lines of `s`, as `str::lines` yields them.
pub fn split_lines(s: &str) -> (res: Vec<String>)
    ensures
        views(res@) == lines(s@),
{
    let v = chars_of(s);
    let n = v.len();
    let mut res: Vec<String> = Vec::new();
    let mut start: usize = 0;
    proof {
        assert(s@.skip(0) =~= s@);
        assert(views(res@) + lines(s@.skip(0)) =~= lines(s@));
    }
    while start < n
        invariant
            v@ == s@,
            n == v@.len(),
            start <= n,
            views(res@) + lines(s@.skip(start as int)) == lines(s@),
        decreases n - start,
    {
        let ghost rest = s@.skip(start as int);
        let mut end = start;
        while end < n && v[end] != '\n'
            invariant
                v@ == s@,
                n == v@.len(),
                start <= end <= n,
                rest == s@.skip(start as int),
                forall|j: int| start <= j < end ==> v@[j] != '\n',
            decreases n - end,
        {
            end += 1;
        }
        proof {
            lemma_line_end_bound(rest);
            assert(line_end(rest) == end - start) by {
                if line_end(rest) < end - start {
                    assert(rest[line_end(rest) as int] == v@[start + line_end(rest)]);
                } else if line_end(rest) > end - start {
                    assert(rest[end - start] == v@[end as int]);
                }
            }
        }
        let ghost old_views = views(res@);
        if end < n {
            let mut line_hi = end;
            if line_hi > start && v[line_hi - 1] == '\r' {
                line_hi -= 1;
            }
            let line = string_of_range(&v, start, line_hi);
            proof {
                let t = rest.take((end - start) as int);
                assert(t =~= v@.subrange(start as int, end as int));
                assert(strip_cr(t) =~= line@);
                assert(rest.skip(end - start + 1) =~= s@.skip(end + 1));
            }
            res.push(line);
            proof {
                assert(views(res@) =~= old_views.push(line@));
                assert(old_views.push(line@) + lines(s@.skip(end + 1)) =~= old_views + (seq![line@]
                    + lines(s@.skip(end + 1))));
            }
            start = end + 1;
        } else {
            let line = string_of_range(&v, start, n);
            proof {
                assert(line@ =~= rest);
                assert(s@.skip(n as int) =~= Seq::<char>::empty());
            }
            res.push(line);
            proof {
                assert(views(res@) =~= old_views.push(line@));
                assert(old_views.push(line@) + lines(s@.skip(n as int)) =~= old_views + seq![line@]);
            }
            start = n;
        }
    }
    proof {
        assert(s@.skip(n as int) =~= Seq::<char>::empty());
        assert(views(res@) + Seq::<Seq<char>>::empty() =~= views(res@));
    }
    res
}

/// The parts joined with `sep` between neighbours.
pub fn join_strings(parts: &Vec<String>, sep: &str) -> (res: String)
    ensures
        res@ == join(views(parts@), sep@),
{
    let mut res = String::new();
    let mut i: usize = 0;
    while i < parts.len()
        invariant
            i <= parts@.len(),
            res@ == join(views(parts@.take(i as int)), sep@),
        decreases parts@.len() - i,
    {
        proof {
            assert(views(parts@.take(i + 1)).drop_last() =~= views(parts@.take(i as int)));
            assert(views(parts@.take(i + 1)).last() == parts@[i as int]@);
        }
        if i > 0 {
            res.append(sep);
        }
        res.append(parts[i].as_str());
        proof {
            if i == 0 {
                assert(res@ =~= views(parts@.take(1))[0]);
            }
        }
        i += 1;
    }
    proof {
        assert(parts@.take(parts@.len() as int) =~= parts@);
    }
    res
}

/// The pieces of `s` between occurrences of `c` (`str::split` with a char):
/// one more piece than there are separators.
pub open spec fn split_char(s: Seq<char>, c: char) -> Seq<Seq<char>>
    decreases s.len(),
{
    let k = char_pos(s, c);
    if k < s.len() {
        seq![s.take(k as int)] + split_char(s.skip(k + 1 as int), c)
    } else {
        seq![s]
    }
}

/// The index of the first `c` in `s`, or its length when there is none.
pub open spec fn char_pos(s: Seq<char>, c: char) -> nat
    decreases s.len(),
{
    if s.len() == 0 || s[0] == c {
        0
    } else {
        1 + char_pos(s.drop_first(), c)
    }
}

pub proof fn lemma_char_pos_bound(s: Seq<char>, c: char)
    ensures
        char_pos(s, c) <= s.len(),
        char_pos(s, c) < s.len() ==> s[char_pos(s, c) as int] == c,
        forall|i: int| 0 <= i < char_pos(s, c) ==> s[i] != c,
    decreases s.len(),
{
    if s.len() > 0 && s[0] != c {
        lemma_char_pos_bound(s.drop_first(), c);
        assert forall|i: int| 0 <= i < char_pos(s, c) implies s[i] != c by {
            if i > 0 {
                assert(s[i] == s.drop_first()[i - 1]);
            }
        }
    }
}

/// Splitting always gives at least one piece, and the last piece holds no
/// separator.
pub proof fn lemma_split_char_last(s: Seq<char>, c: char)
    ensures
        split_char(s, c).len() >= 1,
        forall|i: int| 0 <= i < split_char(s, c).last().len() ==> split_char(s, c).last()[i] != c,
    decreases s.len(),
{
    lemma_char_pos_bound(s, c);
    let k = char_pos(s, c);
    if k < s.len() {
        lemma_split_char_last(s.skip(k + 1 as int), c);
        assert(split_char(s, c).last() == split_char(s.skip(k + 1 as int), c).last());
    }
}

/// Splitting `x + y` splits `x`, and splits its last piece together with `y`.
pub proof fn lemma_split_char_append(x: Seq<char>, y: Seq<char>, c: char)
    ensures
        split_char(x + y, c) == split_char(x, c).drop_last() + split_char(
            split_char(x, c).last() + y,
            c,
        ),
    decreases x.len(),
{
    lemma_char_pos_bound(x, c);
    lemma_char_pos_bound(x + y, c);
    let k = char_pos(x, c);
    if k < x.len() {
        assert(char_pos(x + y, c) == k) by {
            if char_pos(x + y, c) < k {
                assert((x + y)[char_pos(x + y, c) as int] == x[char_pos(x + y, c) as int]);
            } else if char_pos(x + y, c) > k {
                assert((x + y)[k as int] == x[k as int]);
            }
        }
        let rest = x.skip(k + 1 as int);
        assert((x + y).skip(k + 1 as int) =~= rest + y);
        assert((x + y).take(k as int) =~= x.take(k as int));
        lemma_split_char_append(rest, y, c);
        lemma_split_char_last(rest, c);
        assert(split_char(x, c) == seq![x.take(k as int)] + split_char(rest, c));
        assert(split_char(x, c).drop_last() =~= seq![x.take(k as int)] + split_char(rest, c).drop_last());
        assert(split_char(x, c).last() == split_char(rest, c).last());
        assert(split_char(x + y, c) == seq![x.take(k as int)] + split_char(rest + y, c));
    } else {
        assert(split_char(x, c) == seq![x]);
        assert(split_char(x, c).drop_last() =~= Seq::<Seq<char>>::empty());
    }
}

/// Every part occurs in the parts joined with a separator.
pub proof fn lemma_join_contains_each_part(parts: Seq<Seq<char>>, sep: Seq<char>, i: int)
    requires
        0 <= i < parts.len(),
    ensures
        contains_seq(join(parts, sep), parts[i]),
    decreases parts.len(),
{
    let whole = join(parts, sep);
    if parts.len() == 1 {
        assert(whole == parts[0]);
        assert(whole.subrange(0, parts[0].len() as int) =~= parts[0]);
        assert(occurs_at(whole, parts[i], 0));
    } else {
        let front = join(parts.drop_last(), sep);
        assert(whole == front + sep + parts.last());
        if i == parts.len() - 1 {
            let k = (front.len() + sep.len()) as int;
            assert(whole.subrange(k, k + parts[i].len()) =~= parts[i]);
            assert(occurs_at(whole, parts[i], k));
        } else {
            assert(parts.drop_last()[i] == parts[i]);
            lemma_join_contains_each_part(parts.drop_last(), sep, i);
            let k = choose|k: int| occurs_at(front, parts[i], k);
            assert(whole.subrange(k, k + parts[i].len()) =~= front.subrange(k, k + parts[i].len()));
            assert(occurs_at(whole, parts[i], k));
        }
    }
}

/// Joining the pieces of `s` with the separator gives `s` back: splitting
/// loses no character.
pub proof fn lemma_split_join(s: Seq<char>, c: char)
    ensures
        join(split_char(s, c), seq![c]) == s,
    decreases s.len(),
{
    lemma_char_pos_bound(s, c);
    let k = char_pos(s, c);
    if k < s.len() {
        let rest = s.skip(k + 1 as int);
        lemma_split_join(rest, c);
        lemma_split_char_last(rest, c);
        lemma_join_prepend(s.take(k as int), split_char(rest, c), seq![c]);
        assert(s =~= s.take(k as int) + seq![c] + rest);
    } else {
        assert(split_char(s, c) == seq![s]);
    }
}

/// Joining a part in front of non-empty parts puts it and a separator in
/// front of their join.
pub proof fn lemma_join_prepend(a: Seq<char>, parts: Seq<Seq<char>>, sep: Seq<char>)
    requires
        parts.len() >= 1,
    ensures
        join(seq![a] + parts, sep) == a + sep + join(parts, sep),
    decreases parts.len(),
{
    let whole = seq![a] + parts;
    if parts.len() == 1 {
        assert(whole.drop_last() =~= seq![a]);
        assert(whole.last() == parts[0]);
        assert(join(seq![a], sep) == a);
        assert(join(parts, sep) == parts[0]);
        assert(join(whole, sep) == join(whole.drop_last(), sep) + sep + whole.last());
    } else {
        lemma_join_prepend(a, parts.drop_last(), sep);
        assert(whole.drop_last() =~= seq![a] + parts.drop_last());
        assert(whole.last() == parts.last());
        assert(join(whole, sep) == join(whole.drop_last(), sep) + sep + whole.last());
        assert(join(parts, sep) == join(parts.drop_last(), sep) + sep + parts.last());
        assert(a + sep + join(parts.drop_last(), sep) + sep + parts.last() =~= a + sep + (join(
            parts.drop_last(),
            sep,
        ) + sep + parts.last()));
    }
}

/// The pieces of `s` between occurrences of `c`.
pub fn split_on_char(s: &str, c: char) -> (res: Vec<String>)
    ensures
        views(res@) == split_char(s@, c),
{
    let v = chars_of(s);
    let n = v.len();
    let mut res: Vec<String> = Vec::new();
    let mut start: usize = 0;
    proof {
        assert(s@.skip(0) =~= s@);
        assert(views(res@) + split_char(s@.skip(0), c) =~= split_char(s@, c));
    }
    loop
        invariant
            v@ == s@,
            n == v@.len(),
            start <= n,
            views(res@) + split_char(s@.skip(start as int), c) == split_char(s@, c),
        decreases n - start,
    {
        let ghost rest = s@.skip(start as int);
        let mut end = start;
        while end < n && v[end] != c
            invariant
                v@ == s@,
                n == v@.len(),
                start <= end <= n,
                rest == s@.skip(start as int),
                forall|j: int| start <= j < end ==> v@[j] != c,
            decreases n - end,
        {
            end += 1;
        }
        proof {
            lemma_char_pos_bound(rest, c);
            assert(char_pos(rest, c) == end - start) by {
                if char_pos(rest, c) < end - start {
                    assert(rest[char_pos(rest, c) as int] == v@[start + char_pos(rest, c)]);
                } else if char_pos(rest, c) > end - start {
                    assert(rest[end - start] == v@[end as int]);
                }
            }
        }
        let piece = string_of_range(&v, start, end);
        let ghost old_views = views(res@);
        res.push(piece);
        proof {
            assert(views(res@) =~= old_views.push(piece@));
            assert(piece@ =~= rest.take((end - start) as int));
        }
        if end < n {
            proof {
                assert(rest.skip(end - start + 1) =~= s@.skip(end + 1));
                assert(old_views.push(piece@) + split_char(s@.skip(end + 1), c) =~= old_views + (
                seq![piece@] + split_char(s@.skip(end + 1), c)));
            }
            start = end + 1;
        } else {
            proof {
                assert(piece@ =~= rest);
                assert(old_views.push(piece@) =~= old_views + seq![rest]);
            }
            return res;
        }
    }
}

/// `encode_utf8` distributes over concatenation.
pub proof fn lemma_encode_utf8_concat(a: Seq<char>, b: Seq<char>)
    ensures
        vstd::utf8::encode_utf8(a + b) == vstd::utf8::encode_utf8(a) + vstd::utf8::encode_utf8(b),
    decreases a.len(),
{
    if a.len() > 0 {
        assert((a + b).drop_first() =~= a.drop_first() + b);
        lemma_encode_utf8_concat(a.drop_first(), b);
        assert((a + b)[0] == a[0]);
        assert(vstd::utf8::encode_utf8(a + b) =~= vstd::utf8::encode_scalar(a[0] as u32) + (
        vstd::utf8::encode_utf8(a.drop_first()) + vstd::utf8::encode_utf8(b)));
    } else {
        assert(a + b =~= b);
        assert(vstd::utf8::encode_utf8(a) =~= Seq::<u8>::empty());
    }
}

/// The number of bytes of the UTF-8 encoding of `c`.
pub fn utf8_width(c: char) -> (res: u8)
    ensures
        res as nat == vstd::utf8::encode_scalar(c as u32).len(),
{
    let u = c as u32;
    if u <= 0x7f {
        1
    } else if u <= 0x7ff {
        2
    } else if u <= 0xffff && !(0xd800 <= u && u <= 0xdfff) {
        3
    } else {
        4
    }
}

} // verus!
