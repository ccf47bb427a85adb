//! The problem list and the problem page: the order in which problems are
//! listed, the columns of each row, and what a problem's page holds.
use crate::init::{starter_code, generate_starter_code, STARTER_DATA_TYPE};
use crate::report::{extract_reference_solution, reference_solution};
use crate::trpc::{Problem, ProblemDetails, ProblemParameter};
use crate::text::{
    chars_of, contains_seq, is_blank, join, join_strings, lemma_join_contains_each_part, opt_view,
    str_eq, trim, trim_ws, views,
};
use vstd::prelude::*;
use vstd::utf8::encode_utf8;

verus! {

/// The field by which the problem list is ordered.
#[derive(Clone, Copy, PartialEq, Eq, Structural, Debug)]
pub enum SortField {
    Slug,
    Title,
    Difficulty,
    Author,
}

/// The sort field a name stands for; `None` for an unknown name.
pub open spec fn sort_field_named(name: Seq<char>) -> Option<SortField> {
    if name == "slug"@ {
        Some(SortField::Slug)
    } else if name == "title"@ {
        Some(SortField::Title)
    } else if name == "difficulty"@ {
        Some(SortField::Difficulty)
    } else if name == "author"@ {
        Some(SortField::Author)
    } else {
        None
    }
}

pub fn sort_field(name: &str) -> (res: Option<SortField>)
    ensures
        res == sort_field_named(name@),
{
    if str_eq(name, "slug") {
        Some(SortField::Slug)
    } else if str_eq(name, "title") {
        Some(SortField::Title)
    } else if str_eq(name, "difficulty") {
        Some(SortField::Difficulty)
    } else if str_eq(name, "author") {
        Some(SortField::Author)
    } else {
        None
    }
}

/// Text order (`str` and `String` compare so: the UTF-8 bytes in order,
/// which is the order of the characters' code points).
pub open spec fn text_lt(a: Seq<char>, b: Seq<char>) -> bool
    decreases a.len(),
{
    if a.len() == 0 {
        b.len() > 0
    } else if b.len() == 0 {
        false
    } else if a[0] == b[0] {
        text_lt(a.drop_first(), b.drop_first())
    } else {
        (a[0] as u32) < (b[0] as u32)
    }
}

/// The order of optional text: a missing value comes first.
pub open spec fn key_lt(x: Option<Seq<char>>, y: Option<Seq<char>>) -> bool {
    match x {
        None => y is Some,
        Some(a) => match y {
            Some(b) => text_lt(a, b),
            None => false,
        },
    }
}

/// The value by which a problem is ordered.
pub open spec fn sort_key(p: Problem, by: SortField) -> Option<Seq<char>> {
    match by {
        SortField::Slug => Some(p.slug@),
        SortField::Title => Some(p.title@),
        SortField::Difficulty => opt_view(p.difficulty),
        SortField::Author => opt_view(p.author),
    }
}

/// The first index from `j` on whose key comes after `k`, or the length.
pub open spec fn first_after(s: Seq<Problem>, by: SortField, k: Option<Seq<char>>, j: nat) -> nat
    decreases s.len() - j,
{
    if j >= s.len() {
        s.len()
    } else if key_lt(k, sort_key(s[j as int], by)) {
        j
    } else {
        first_after(s, by, k, j + 1)
    }
}

/// `x` put into `s` after every problem whose key does not come after its own.
pub open spec fn insert_in_order(s: Seq<Problem>, by: SortField, x: Problem) -> Seq<Problem> {
    let j = first_after(s, by, sort_key(x, by), 0);
    s.take(j as int) + seq![x] + s.skip(j as int)
}

/// The problems ordered by a field, problems with equal keys in the order in
/// which they came (the order `sort_by` gives).
pub open spec fn sorted_by(s: Seq<Problem>, by: SortField) -> Seq<Problem>
    decreases s.len(),
{
    if s.len() == 0 {
        s
    } else {
        insert_in_order(sorted_by(s.drop_last(), by), by, s.last())
    }
}

/// The problems whose key is `k`, in order.
pub open spec fn with_key(s: Seq<Problem>, by: SortField, k: Option<Seq<char>>) -> Seq<Problem>
    decreases s.len(),
{
    if s.len() == 0 {
        s
    } else {
        let r = with_key(s.drop_last(), by, k);
        if sort_key(s.last(), by) == k {
            r.push(s.last())
        } else {
            r
        }
    }
}

/// No key comes after a later one.
pub open spec fn ordered_by(s: Seq<Problem>, by: SortField) -> bool {
    forall|i: int, j: int|
        0 <= i < j < s.len() ==> !key_lt(#[trigger] sort_key(s[j], by), #[trigger] sort_key(s[i], by))
}

proof fn lemma_text_lt_irreflexive(a: Seq<char>)
    ensures
        !text_lt(a, a),
    decreases a.len(),
{
    if a.len() > 0 {
        lemma_text_lt_irreflexive(a.drop_first());
    }
}

proof fn lemma_text_lt_transitive(a: Seq<char>, b: Seq<char>, c: Seq<char>)
    requires
        text_lt(a, b),
        text_lt(b, c),
    ensures
        text_lt(a, c),
    decreases a.len(),
{
    if a.len() > 0 && b.len() > 0 && c.len() > 0 && a[0] == b[0] && b[0] == c[0] {
        lemma_text_lt_transitive(a.drop_first(), b.drop_first(), c.drop_first());
    }
}

proof fn lemma_text_lt_total(a: Seq<char>, b: Seq<char>)
    ensures
        a == b || text_lt(a, b) || text_lt(b, a),
    decreases a.len(),
{
    if a.len() > 0 && b.len() > 0 {
        if a[0] == b[0] {
            lemma_text_lt_total(a.drop_first(), b.drop_first());
            if a.drop_first() == b.drop_first() {
                assert(a =~= seq![a[0]] + a.drop_first());
                assert(b =~= seq![b[0]] + b.drop_first());
            }
        } else {
            vstd::utf8::char_u32_cast(a[0], a[0] as u32);
            vstd::utf8::char_u32_cast(b[0], b[0] as u32);
        }
    } else if a.len() == 0 && b.len() == 0 {
        assert(a =~= b);
    }
}

proof fn lemma_key_order(x: Option<Seq<char>>, y: Option<Seq<char>>, z: Option<Seq<char>>)
    ensures
        !key_lt(x, x),
        key_lt(x, y) && key_lt(y, z) ==> key_lt(x, z),
        x == y || key_lt(x, y) || key_lt(y, x),
{
    match x {
        Some(a) => {
            lemma_text_lt_irreflexive(a);
            match y {
                Some(b) => {
                    lemma_text_lt_total(a, b);
                    match z {
                        Some(c) => {
                            if text_lt(a, b) && text_lt(b, c) {
                                lemma_text_lt_transitive(a, b, c);
                            }
                        },
                        None => {},
                    }
                },
                None => {},
            }
        },
        None => {},
    }
}

proof fn lemma_first_after(s: Seq<Problem>, by: SortField, k: Option<Seq<char>>, j: nat)
    requires
        j <= s.len(),
    ensures
        j <= first_after(s, by, k, j) <= s.len(),
        forall|m: int| j <= m < first_after(s, by, k, j) ==> !key_lt(k, #[trigger] sort_key(s[m], by)),
        first_after(s, by, k, j) < s.len() ==> key_lt(k, sort_key(s[first_after(s, by, k, j) as int], by)),
    decreases s.len() - j,
{
    if j < s.len() && !key_lt(k, sort_key(s[j as int], by)) {
        lemma_first_after(s, by, k, j + 1);
    }
}

/// Facts on inserting `x` into `s` in order: where it goes, and that every
/// key after it comes after its own when `s` is ordered.
proof fn lemma_insert_in_order(s: Seq<Problem>, by: SortField, x: Problem)
    ensures
        ({
            let j = first_after(s, by, sort_key(x, by), 0);
            &&& j <= s.len()
            &&& insert_in_order(s, by, x) == s.insert(j as int, x)
            &&& forall|m: int| 0 <= m < j ==> !key_lt(sort_key(x, by), #[trigger] sort_key(s[m], by))
            &&& ordered_by(s, by) ==> forall|m: int|
                j <= m < s.len() ==> key_lt(sort_key(x, by), #[trigger] sort_key(s[m], by))
        }),
{
    let k = sort_key(x, by);
    let j = first_after(s, by, k, 0);
    lemma_first_after(s, by, k, 0);
    assert(insert_in_order(s, by, x) =~= s.insert(j as int, x));
    if ordered_by(s, by) {
        assert forall|m: int| j <= m < s.len() implies key_lt(k, #[trigger] sort_key(s[m], by)) by {
            let kj = sort_key(s[j as int], by);
            let km = sort_key(s[m], by);
            lemma_key_order(k, kj, km);
            lemma_key_order(kj, km, kj);
            if m > j {
                assert(!key_lt(km, kj));
            }
        }
    }
}

/// The ordered list is ordered: no problem comes before one whose key comes
/// before its own.
pub proof fn lemma_sorted_is_ordered(s: Seq<Problem>, by: SortField)
    ensures
        ordered_by(sorted_by(s, by), by),
    decreases s.len(),
{
    if s.len() > 0 {
        let r = sorted_by(s.drop_last(), by);
        let x = s.last();
        let k = sort_key(x, by);
        lemma_sorted_is_ordered(s.drop_last(), by);
        lemma_insert_in_order(r, by, x);
        let j = first_after(r, by, k, 0) as int;
        let t = sorted_by(s, by);
        assert(t == r.insert(j, x));
        assert forall|a: int, b: int| 0 <= a < b < t.len() implies !key_lt(
            #[trigger] sort_key(t[b], by),
            #[trigger] sort_key(t[a], by),
        ) by {
            let ka = sort_key(t[a], by);
            let kb = sort_key(t[b], by);
            lemma_key_order(ka, kb, ka);
            if a < j && b < j {
                assert(t[a] == r[a] && t[b] == r[b]);
            } else if a < j && b == j {
                assert(t[a] == r[a] && t[b] == x);
            } else if a < j && b > j {
                assert(t[a] == r[a] && t[b] == r[b - 1]);
            } else if a == j {
                assert(t[a] == x && t[b] == r[b - 1]);
                lemma_key_order(k, kb, k);
            } else {
                assert(t[a] == r[a - 1] && t[b] == r[b - 1]);
            }
        }
    }
}

/// Ordering a list keeps every problem, as often as it occurs.
pub proof fn lemma_sorted_is_permutation(s: Seq<Problem>, by: SortField)
    ensures
        sorted_by(s, by).to_multiset() == s.to_multiset(),
    decreases s.len(),
{
    broadcast use vstd::seq_lib::group_to_multiset_ensures;

    if s.len() > 0 {
        let r = sorted_by(s.drop_last(), by);
        let x = s.last();
        lemma_sorted_is_permutation(s.drop_last(), by);
        lemma_insert_in_order(r, by, x);
        let j = first_after(r, by, sort_key(x, by), 0) as int;
        let t = sorted_by(s, by);
        assert(t == r.insert(j, x));
        assert(t.remove(j) =~= r);
        assert(t[j] == x);
        assert(r.to_multiset() == t.to_multiset().remove(x));
        assert(s =~= s.drop_last().push(x));
        assert(s.to_multiset() == s.drop_last().to_multiset().insert(x));
        assert(t.to_multiset().count(x) > 0) by {
            assert(t.contains(x));
        }
        assert(t.to_multiset() =~= t.to_multiset().remove(x).insert(x));
    }
}

proof fn lemma_with_key_append(a: Seq<Problem>, b: Seq<Problem>, by: SortField, k: Option<Seq<char>>)
    ensures
        with_key(a + b, by, k) == with_key(a, by, k) + with_key(b, by, k),
    decreases b.len(),
{
    if b.len() == 0 {
        assert(a + b =~= a);
        assert(with_key(a, by, k) + with_key(b, by, k) =~= with_key(a, by, k));
    } else {
        assert((a + b).drop_last() =~= a + b.drop_last());
        assert((a + b).last() == b.last());
        lemma_with_key_append(a, b.drop_last(), by, k);
        if sort_key(b.last(), by) == k {
            assert(with_key(a + b, by, k) =~= with_key(a, by, k) + with_key(b, by, k));
        } else {
            assert(with_key(a + b, by, k) =~= with_key(a, by, k) + with_key(b, by, k));
        }
    }
}

proof fn lemma_with_key_none(s: Seq<Problem>, by: SortField, k: Option<Seq<char>>)
    requires
        forall|m: int| 0 <= m < s.len() ==> #[trigger] sort_key(s[m], by) != k,
    ensures
        with_key(s, by, k) == Seq::<Problem>::empty(),
    decreases s.len(),
{
    if s.len() > 0 {
        assert forall|m: int| 0 <= m < s.drop_last().len() implies #[trigger] sort_key(
            s.drop_last()[m],
            by,
        ) != k by {
            assert(s.drop_last()[m] == s[m]);
        }
        lemma_with_key_none(s.drop_last(), by, k);
        assert(sort_key(s[s.len() - 1], by) != k);
    }
}

/// Ordering is stable: the problems that share a key keep the order in which
/// they came.
pub proof fn lemma_sorted_is_stable(s: Seq<Problem>, by: SortField, k: Option<Seq<char>>)
    ensures
        with_key(sorted_by(s, by), by, k) == with_key(s, by, k),
    decreases s.len(),
{
    if s.len() > 0 {
        let r = sorted_by(s.drop_last(), by);
        let x = s.last();
        let kx = sort_key(x, by);
        lemma_sorted_is_stable(s.drop_last(), by, k);
        lemma_sorted_is_ordered(s.drop_last(), by);
        lemma_insert_in_order(r, by, x);
        let j = first_after(r, by, kx, 0) as int;
        let front = r.take(j);
        let back = r.skip(j);
        assert(sorted_by(s, by) == front + seq![x] + back);
        assert(r =~= front + back);
        lemma_with_key_append(front + seq![x], back, by, k);
        lemma_with_key_append(front, seq![x], by, k);
        lemma_with_key_append(front, back, by, k);
        assert(seq![x].drop_last() =~= Seq::<Problem>::empty());
        assert(seq![x].last() == x);
        assert(with_key(Seq::<Problem>::empty(), by, k) == Seq::<Problem>::empty());
        if kx == k {
            assert forall|m: int| 0 <= m < back.len() implies #[trigger] sort_key(back[m], by) != k by {
                assert(back[m] == r[j + m]);
                assert(key_lt(kx, sort_key(r[j + m], by)));
                lemma_key_order(kx, kx, kx);
            }
            lemma_with_key_none(back, by, k);
            assert(with_key(seq![x], by, k) =~= seq![x]);
            assert(with_key(sorted_by(s, by), by, k) =~= with_key(front, by, k) + seq![x]);
            assert(with_key(r, by, k) =~= with_key(front, by, k));
        } else {
            assert(with_key(seq![x], by, k) =~= Seq::<Problem>::empty());
            assert(with_key(sorted_by(s, by), by, k) =~= with_key(front, by, k) + with_key(back, by, k));
        }
    }
}

/// Text order on strings.
fn text_less(a: &str, b: &str) -> (res: bool)
    ensures
        res == text_lt(a@, b@),
{
    let x = chars_of(a);
    let y = chars_of(b);
    let mut i: usize = 0;
    proof {
        assert(a@.skip(0) =~= a@);
        assert(b@.skip(0) =~= b@);
    }
    while i < x.len() && i < y.len() && x[i] == y[i]
        invariant
            x@ == a@,
            y@ == b@,
            i <= x@.len(),
            i <= y@.len(),
            text_lt(a@, b@) == text_lt(a@.skip(i as int), b@.skip(i as int)),
        decreases x@.len() - i,
    {
        proof {
            assert(a@.skip(i as int).drop_first() =~= a@.skip(i + 1));
            assert(b@.skip(i as int).drop_first() =~= b@.skip(i + 1));
        }
        i += 1;
    }
    proof {
        if i < x@.len() && i < y@.len() {
            assert(a@.skip(i as int)[0] == x@[i as int]);
            assert(b@.skip(i as int)[0] == y@[i as int]);
        }
    }
    if i == x.len() {
        i < y.len()
    } else if i == y.len() {
        false
    } else {
        (x[i] as u32) < (y[i] as u32)
    }
}

fn key_less(x: &Option<String>, y: &Option<String>) -> (res: bool)
    ensures
        res == key_lt(opt_view(*x), opt_view(*y)),
{
    match x {
        None => y.is_some(),
        Some(a) => match y {
            Some(b) => text_less(a.as_str(), b.as_str()),
            None => false,
        },
    }
}

/// Whether the key of `a` comes before the key of `b`.
fn key_precedes(a: &Problem, b: &Problem, by: SortField) -> (res: bool)
    ensures
        res == key_lt(sort_key(*a, by), sort_key(*b, by)),
{
    match by {
        SortField::Slug => text_less(a.slug.as_str(), b.slug.as_str()),
        SortField::Title => text_less(a.title.as_str(), b.title.as_str()),
        SortField::Difficulty => key_less(&a.difficulty, &b.difficulty),
        SortField::Author => key_less(&a.author, &b.author),
    }
}

/// The problems ordered by `by`; problems with equal keys stay in the order
/// in which they came.
pub fn sort_problems(problems: Vec<Problem>, by: SortField) -> (res: Vec<Problem>)
    ensures
        res@ == sorted_by(problems@, by),
{
    let ghost all = problems@;
    let mut rest = problems;
    let mut out: Vec<Problem> = Vec::new();
    let ghost mut i: int = 0;
    while rest.len() > 0
        invariant
            0 <= i <= all.len(),
            rest@ == all.skip(i),
            out@ == sorted_by(all.take(i), by),
        decreases rest@.len(),
    {
        let p = rest.remove(0);
        proof {
            assert(p == all[i]);
            assert(all.take(i + 1).drop_last() =~= all.take(i));
            assert(all.take(i + 1).last() == p);
            lemma_first_after(out@, by, sort_key(p, by), 0);
        }
        let mut j: usize = 0;
        while j < out.len() && !key_precedes(&p, &out[j], by)
            invariant
                j <= out@.len(),
                first_after(out@, by, sort_key(p, by), 0) == first_after(out@, by, sort_key(p, by), j as nat),
            decreases out@.len() - j,
        {
            j += 1;
        }
        proof {
            lemma_insert_in_order(out@, by, p);
        }
        out.insert(j, p);
        proof {
            assert(rest@ =~= all.skip(i + 1));
            i = i + 1;
        }
    }
    proof {
        assert(all.take(i) =~= all);
    }
    out
}

/// The columns a problem list shows when none are asked for.
pub open spec fn default_fields() -> Seq<Seq<char>> {
    seq!["slug"@, "title"@]
}

/// The columns asked for, or `slug` and `title`.
pub fn list_fields(fields: Option<Vec<String>>) -> (res: Vec<String>)
    ensures
        views(res@) == match fields {
            Some(f) => views(f@),
            None => default_fields(),
        },
{
    match fields {
        Some(f) => f,
        None => {
            let res = vec![String::from_str("slug"), String::from_str("title")];
            proof {
                assert(views(res@) =~= default_fields());
            }
            res
        },
    }
}

/// The number of bytes of the UTF-8 encoding of `s` (`str::len`).
pub open spec fn byte_len(s: Seq<char>) -> nat {
    encode_utf8(s).len()
}

/// The byte length of the longest slug, or 0.
pub open spec fn widest_slug(s: Seq<Problem>) -> nat
    decreases s.len(),
{
    if s.len() == 0 {
        0
    } else {
        let w = widest_slug(s.drop_last());
        let b = byte_len(s.last().slug@);
        if b > w {
            b
        } else {
            w
        }
    }
}

/// The width of the slug column: the longest slug's byte length and 2.
pub fn slug_column_width(problems: &Vec<Problem>) -> (res: usize)
    requires
        forall|i: int| 0 <= i < problems@.len() ==> byte_len(#[trigger] problems@[i].slug@) + 2 <= usize::MAX,
    ensures
        res == widest_slug(problems@) + 2,
{
    let mut w: usize = 0;
    let mut i: usize = 0;
    while i < problems.len()
        invariant
            i <= problems@.len(),
            w == widest_slug(problems@.take(i as int)),
            w + 2 <= usize::MAX,
            forall|k: int| 0 <= k < problems@.len() ==> byte_len(#[trigger] problems@[k].slug@) + 2 <= usize::MAX,
        decreases problems@.len() - i,
    {
        proof {
            assert(problems@.take(i + 1).drop_last() =~= problems@.take(i as int));
            assert(problems@.take(i + 1).last() == problems@[i as int]);
            assert(byte_len(problems@[i as int].slug@) + 2 <= usize::MAX);
        }
        let b = problems[i].slug.as_str().len();
        if b > w {
            w = b;
        }
        i += 1;
    }
    proof {
        assert(problems@.take(i as int) =~= problems@);
    }
    w + 2
}

/// The colour in which a difficulty is shown.
#[derive(Clone, Copy, PartialEq, Eq, Structural, Debug)]
pub enum Tone {
    Green,
    Yellow,
    Red,
    Plain,
}

/// `EASY` is green, `MEDIUM` yellow, `HARD` red, anything else plain.
pub open spec fn difficulty_tone(d: Seq<char>) -> Tone {
    if d == "EASY"@ {
        Tone::Green
    } else if d == "MEDIUM"@ {
        Tone::Yellow
    } else if d == "HARD"@ {
        Tone::Red
    } else {
        Tone::Plain
    }
}

/// A difficulty as a list row shows it: in brackets, in its colour, padded
/// with spaces so that the bracketed text takes 10 bytes.
pub struct DifficultyTag {
    pub text: String,
    pub tone: Tone,
    pub padding: usize,
}

/// A row of the problem list.
pub struct ProblemRow {
    pub slug: String,
    pub difficulty: Option<DifficultyTag>,
    pub author: Option<String>,
    /// The tags joined with `, `.
    pub tags: Option<String>,
    /// The problem's page on the web site.
    pub link: String,
}

/// The address of a problem's page on the web site.
pub open spec fn problem_page_url(slug: Seq<char>) -> Seq<char> {
    "https://tensara.org/problems/"@ + slug
}

/// Whether column `name` is among the columns asked for.
pub open spec fn listed(fields: Seq<Seq<char>>, name: Seq<char>) -> bool {
    fields.contains(name)
}

pub open spec fn difficulty_tag_view(t: Option<DifficultyTag>) -> Option<(Seq<char>, Tone, nat)> {
    match t {
        Some(d) => Some((d.text@, d.tone, d.padding as nat)),
        None => None,
    }
}

/// `r` is the row of `p` with the columns `fields`.
pub open spec fn problem_row_of(p: Problem, fields: Seq<Seq<char>>, r: ProblemRow) -> bool {
    &&& r.slug@ == p.slug@
    &&& difficulty_tag_view(r.difficulty) == match p.difficulty {
        Some(d) => if listed(fields, "difficulty"@) {
            Some((d@, difficulty_tone(d@), (8 - byte_len(d@)) as nat))
        } else {
            None
        },
        None => None,
    }
    &&& opt_view(r.author) == if listed(fields, "author"@) {
        opt_view(p.author)
    } else {
        None
    }
    &&& opt_view(r.tags) == match p.tags {
        Some(t) => if listed(fields, "tags"@) {
            Some(join(views(t@), ", "@))
        } else {
            None
        },
        None => None,
    }
    &&& r.link@ == problem_page_url(p.slug@)
}

fn field_listed(fields: &Vec<String>, name: &str) -> (res: bool)
    ensures
        res == listed(views(fields@), name@),
{
    let mut i: usize = 0;
    while i < fields.len()
        invariant
            i <= fields@.len(),
            forall|k: int| 0 <= k < i ==> fields@[k]@ != name@,
        decreases fields@.len() - i,
    {
        if str_eq(fields[i].as_str(), name) {
            proof {
                assert(views(fields@)[i as int] == name@);
            }
            return true;
        }
        i += 1;
    }
    proof {
        assert forall|k: int| 0 <= k < views(fields@).len() implies views(fields@)[k] != name@ by {
            assert(views(fields@)[k] == fields@[k]@);
        }
    }
    false
}

fn tone_of(d: &str) -> (res: Tone)
    ensures
        res == difficulty_tone(d@),
{
    if str_eq(d, "EASY") {
        Tone::Green
    } else if str_eq(d, "MEDIUM") {
        Tone::Yellow
    } else if str_eq(d, "HARD") {
        Tone::Red
    } else {
        Tone::Plain
    }
}

/// The row of a problem in the list, with the columns asked for. A listed
/// difficulty must fit the 8 bytes its column leaves for it.
pub fn problem_row(problem: &Problem, fields: &Vec<String>) -> (res: ProblemRow)
    requires
        listed(views(fields@), "difficulty"@) ==> (problem.difficulty matches Some(d) ==> byte_len(
            d@,
        ) <= 8),
    ensures
        problem_row_of(*problem, views(fields@), res),
{
    let difficulty = match &problem.difficulty {
        Some(d) => if field_listed(fields, "difficulty") {
            let len = d.as_str().len();
            Some(DifficultyTag { text: d.clone(), tone: tone_of(d.as_str()), padding: 8 - len })
        } else {
            None
        },
        None => None,
    };
    let author = match &problem.author {
        Some(a) => if field_listed(fields, "author") {
            Some(a.clone())
        } else {
            None
        },
        None => None,
    };
    let tags = match &problem.tags {
        Some(t) => if field_listed(fields, "tags") {
            Some(join_strings(t, ", "))
        } else {
            None
        },
        None => None,
    };
    let mut link = String::from_str("https://tensara.org/problems/");
    link.append(problem.slug.as_str());
    ProblemRow { slug: problem.slug.clone(), difficulty, author, tags, link }
}

/// How a parameter's attributes are listed: its type, then `pointer` and
/// `const` when those flags are `"true"`.
pub open spec fn parameter_attributes(p: ProblemParameter) -> Seq<char> {
    let pointer: Seq<Seq<char>> = if opt_view(p.pointer) == Some("true"@) {
        seq!["pointer"@]
    } else {
        Seq::empty()
    };
    let constant: Seq<Seq<char>> = if opt_view(p.constant) == Some("true"@) {
        seq!["const"@]
    } else {
        Seq::empty()
    };
    join(seq![p.ty@] + pointer + constant, ", "@)
}

fn flag_set(flag: &Option<String>) -> (res: bool)
    ensures
        res == (opt_view(*flag) == Some("true"@)),
{
    match flag {
        Some(f) => str_eq(f.as_str(), "true"),
        None => false,
    }
}

/// A parameter's attributes as the problem page lists them.
pub fn parameter_attributes_text(p: &ProblemParameter) -> (res: String)
    ensures
        res@ == parameter_attributes(*p),
{
    let mut attrs: Vec<String> = Vec::new();
    attrs.push(p.ty.clone());
    let pointer = flag_set(&p.pointer);
    if pointer {
        attrs.push(String::from_str("pointer"));
    }
    let constant = flag_set(&p.constant);
    if constant {
        attrs.push(String::from_str("const"));
    }
    proof {
        let ps: Seq<Seq<char>> = if pointer {
            seq!["pointer"@]
        } else {
            Seq::empty()
        };
        let cs: Seq<Seq<char>> = if constant {
            seq!["const"@]
        } else {
            Seq::empty()
        };
        assert(views(attrs@) =~= seq![p.ty@] + ps + cs);
    }
    join_strings(&attrs, ", ")
}

/// What the page of a problem shows.
pub struct ProblemPage {
    pub title: String,
    pub slug: String,
    pub difficulty: Option<String>,
    pub author: Option<String>,
    /// The tags joined with `, `, when there are any.
    pub tags: Option<String>,
    /// The description section, when shown: the trimmed description, or
    /// `None` when it is missing or blank.
    pub description: Option<Option<String>>,
    /// The parameters with their attributes; the section is shown when the
    /// list is not empty.
    pub parameters: Vec<(String, String)>,
    /// The reference section, when shown: the trimmed reference solution, or
    /// `None` when the definition has none.
    pub reference: Option<Option<String>>,
}

pub open spec fn opt_opt_view(o: Option<Option<String>>) -> Option<Option<Seq<char>>> {
    match o {
        Some(i) => Some(opt_view(i)),
        None => None,
    }
}

pub open spec fn page_description(d: Option<String>) -> Option<Seq<char>> {
    match d {
        Some(s) => if trim_ws(s@).len() == 0 {
            None
        } else {
            Some(trim_ws(s@))
        },
        None => None,
    }
}

pub open spec fn page_reference(definition: Option<String>) -> Option<Seq<char>> {
    match definition {
        Some(d) => match reference_solution(d@) {
            Some(r) => Some(trim_ws(r)),
            None => None,
        },
        None => None,
    }
}

pub open spec fn parameters_view(v: Seq<(String, String)>) -> Seq<(Seq<char>, Seq<char>)> {
    v.map_values(|p: (String, String)| (p.0@, p.1@))
}

pub open spec fn page_parameters(ps: Option<Vec<ProblemParameter>>) -> Seq<(Seq<char>, Seq<char>)> {
    match ps {
        Some(v) => v@.map_values(|p: ProblemParameter| (p.name@, parameter_attributes(p))),
        None => Seq::empty(),
    }
}

/// `page` is the page of `p`, with or without the description (left out with
/// `reference_only`) and the reference (left out with `description_only`).
pub open spec fn problem_page_of(p: ProblemDetails, reference_only: bool, description_only: bool, page: ProblemPage) -> bool {
    &&& page.title@ == p.title@
    &&& page.slug@ == p.slug@
    &&& opt_view(page.difficulty) == opt_view(p.difficulty)
    &&& opt_view(page.author) == opt_view(p.author)
    &&& opt_view(page.tags) == match p.tags {
        Some(t) => if t@.len() > 0 {
            Some(join(views(t@), ", "@))
        } else {
            None
        },
        None => None,
    }
    &&& opt_opt_view(page.description) == if reference_only {
        None
    } else {
        Some(page_description(p.description))
    }
    &&& parameters_view(page.parameters@) == if reference_only {
        Seq::empty()
    } else {
        page_parameters(p.parameters)
    }
    &&& opt_opt_view(page.reference) == if description_only {
        None
    } else {
        Some(page_reference(p.definition))
    }
}

/// The page shows the tags whenever the problem has at least one: every tag
/// appears in what is shown, and a single tag is shown as it is. Without
/// tags no tag line is shown.
pub proof fn lemma_page_shows_every_tag(p: ProblemDetails, reference_only: bool, description_only: bool, page: ProblemPage)
    requires
        problem_page_of(p, reference_only, description_only, page),
    ensures
        page.tags is Some <==> (p.tags matches Some(t) && t@.len() >= 1),
        match p.tags {
            Some(t) => {
                &&& t@.len() >= 1 ==> (page.tags matches Some(shown) && forall|i: int|
                    0 <= i < t@.len() ==> contains_seq(shown@, #[trigger] t@[i]@))
                &&& t@.len() == 1 ==> (page.tags matches Some(shown) && shown@ == t@[0]@)
            },
            None => true,
        },
{
    match p.tags {
        Some(t) => {
            if t@.len() >= 1 {
                assert forall|i: int| 0 <= i < t@.len() implies contains_seq(
                    join(views(t@), ", "@),
                    #[trigger] t@[i]@,
                ) by {
                    assert(views(t@)[i] == t@[i]@);
                    lemma_join_contains_each_part(views(t@), ", "@, i);
                }
                if t@.len() == 1 {
                    assert(views(t@)[0] == t@[0]@);
                }
            }
        },
        None => {},
    }
}

fn copy_opt(o: &Option<String>) -> (res: Option<String>)
    ensures
        opt_view(res) == opt_view(*o),
{
    match o {
        Some(s) => Some(s.clone()),
        None => None,
    }
}

/// What the page of a problem shows.
pub fn problem_page(problem: &ProblemDetails, reference_only: bool, description_only: bool) -> (res: ProblemPage)
    ensures
        problem_page_of(*problem, reference_only, description_only, res),
{
    let tags = match &problem.tags {
        Some(t) => if t.len() > 0 {
            Some(join_strings(t, ", "))
        } else {
            None
        },
        None => None,
    };
    let description = if reference_only {
        None
    } else {
        Some(
            match &problem.description {
                Some(d) => if is_blank(d.as_str()) {
                    None
                } else {
                    Some(trim(d.as_str()))
                },
                None => None,
            },
        )
    };
    let mut parameters: Vec<(String, String)> = Vec::new();
    if !reference_only {
        match &problem.parameters {
            Some(ps) => {
                let mut i: usize = 0;
                while i < ps.len()
                    invariant
                        i <= ps@.len(),
                        parameters_view(parameters@) == ps@.take(i as int).map_values(
                            |p: ProblemParameter| (p.name@, parameter_attributes(p)),
                        ),
                    decreases ps@.len() - i,
                {
                    let entry = (ps[i].name.clone(), parameter_attributes_text(&ps[i]));
                    let ghost before = parameters@;
                    parameters.push(entry);
                    proof {
                        assert(parameters_view(parameters@) =~= parameters_view(before).push((entry.0@, entry.1@)));
                        assert(ps@.take(i + 1).map_values(|p: ProblemParameter| (p.name@, parameter_attributes(p)))
                            =~= ps@.take(i as int).map_values(|p: ProblemParameter| (p.name@, parameter_attributes(p))).push(
                            (ps@[i as int].name@, parameter_attributes(ps@[i as int])),
                        ));
                    }
                    i += 1;
                }
                proof {
                    assert(ps@.take(i as int) =~= ps@);
                }
            },
            None => {
                proof {
                    assert(parameters_view(parameters@) =~= Seq::<(Seq<char>, Seq<char>)>::empty());
                }
            },
        }
    } else {
        proof {
            assert(parameters_view(parameters@) =~= Seq::<(Seq<char>, Seq<char>)>::empty());
        }
    }
    let reference = if description_only {
        None
    } else {
        Some(
            match &problem.definition {
                Some(d) => match extract_reference_solution(d.as_str()) {
                    Some(r) => Some(trim(r.as_str())),
                    None => None,
                },
                None => None,
            },
        )
    };
    ProblemPage {
        title: problem.title.clone(),
        slug: problem.slug.clone(),
        difficulty: copy_opt(&problem.difficulty),
        author: copy_opt(&problem.author),
        tags,
        description,
        parameters,
        reference,
    }
}

/// The languages whose starter code a problem's JSON view carries.
pub open spec fn starter_languages() -> Seq<Seq<char>> {
    seq!["cuda"@, "python"@, "mojo"@, "cute"@, "cutile"@]
}

/// The starter code of a problem for each language that has a template,
/// keyed by the language, for the problem's JSON view.
pub fn problem_starters(parameters: &Option<Vec<ProblemParameter>>) -> (res: Vec<(String, String)>)
    ensures
        res@.len() == 5,
        forall|i: int| 0 <= i < 5 ==> (#[trigger] res@[i]).0@ == starter_languages()[i] && res@[i].1@
            == starter_code(
            match parameters {
                Some(ps) => ps@,
                None => Seq::empty(),
            },
            starter_languages()[i],
            STARTER_DATA_TYPE@,
        ),
{
    let empty: Vec<ProblemParameter> = Vec::new();
    let ps = match parameters {
        Some(ps) => ps,
        None => &empty,
    };
    let languages = ["cuda", "python", "mojo", "cute", "cutile"];
    let mut res: Vec<(String, String)> = Vec::new();
    let mut i: usize = 0;
    while i < 5
        invariant
            languages@.len() == 5,
            forall|k: int| 0 <= k < 5 ==> #[trigger] languages@[k]@ == starter_languages()[k],
            ps@ == match parameters {
                Some(v) => v@,
                None => Seq::<ProblemParameter>::empty(),
            },
            i <= 5,
            res@.len() == i,
            forall|k: int| 0 <= k < i ==> (#[trigger] res@[k]).0@ == starter_languages()[k] && res@[k].1@
                == starter_code(ps@, starter_languages()[k], STARTER_DATA_TYPE@),
        decreases 5 - i,
    {
        let code = generate_starter_code(ps.as_slice(), languages[i], STARTER_DATA_TYPE);
        res.push((String::from_str(languages[i]), code));
        i += 1;
    }
    res
}

} // verus!
