//! Reading the face records of Wavefront OBJ text.
//!
//! A face record `f a b c ...` lists one corner per whitespace-separated
//! token; a token may carry texture and normal references after a slash
//! (`3/7/2`), of which only the vertex number before the first slash counts.
//! Vertex numbers are 1-based. Tokens whose vertex number does not read as
//! an unsigned integer are skipped, and the corners that remain are
//! triangulated as a fan.

use vstd::prelude::*;
use vstd::std_specs::iter::IteratorSpec;
use crate::geometry::{fan, fan_triangulate, obj_face_body, obj_face_lines, obj_text, obj_triple_lines};
use crate::text::{decimal, digit_char};
use crate::seqs::{first_index, lemma_first_index, somes};

verus! {

// ─────────────────────────────────────────────────────────────────────────────
// What a face record means
// ─────────────────────────────────────────────────────────────────────────────

/// Unicode `White_Space`: the characters that `char::is_whitespace` accepts.
pub open spec fn is_space(c: char) -> bool {
    let u = c as u32;
    (9 <= u <= 13) || u == 32 || u == 0x85 || u == 0xa0 || u == 0x1680 || (0x2000 <= u <= 0x200a)
        || u == 0x2028 || u == 0x2029 || u == 0x202f || u == 0x205f || u == 0x3000
}

/// Close the token being read, if it has any characters.
pub open spec fn close_token(done: Seq<Seq<char>>, cur: Seq<char>) -> Seq<Seq<char>> {
    if cur.len() == 0 {
        done
    } else {
        done.push(cur)
    }
}

/// Reading `s` left to right: the tokens finished so far and the token in progress.
pub open spec fn token_scan(s: Seq<char>) -> (Seq<Seq<char>>, Seq<char>)
    decreases s.len(),
{
    if s.len() == 0 {
        (Seq::empty(), Seq::empty())
    } else {
        let (done, cur) = token_scan(s.drop_last());
        if is_space(s.last()) {
            (close_token(done, cur), Seq::empty())
        } else {
            (done, cur.push(s.last()))
        }
    }
}

/// The maximal runs of non-whitespace characters of `s`, in order.
pub open spec fn tokens(s: Seq<char>) -> Seq<Seq<char>> {
    close_token(token_scan(s).0, token_scan(s).1)
}

/// An ASCII decimal digit.
pub open spec fn is_digit(c: char) -> bool {
    48 <= (c as u32) <= 57
}

/// The number that a run of decimal digits denotes.
pub open spec fn digits_value(d: Seq<char>) -> nat
    decreases d.len(),
{
    if d.len() == 0 {
        0
    } else {
        digits_value(d.drop_last()) * 10 + ((d.last() as u32) - 48) as nat
    }
}

/// The digits of an unsigned integer literal: the text after one optional
/// `+` (code 43).
pub open spec fn unsigned_digits(s: Seq<char>) -> Seq<char> {
    if s.len() > 0 && (s[0] as u32) == 43 {
        s.drop_first()
    } else {
        s
    }
}

/// What `str::parse::<usize>` gives: the value of an optional `+` followed by
/// at least one decimal digit, when it fits in a `usize`.
pub open spec fn parse_usize(s: Seq<char>) -> Option<usize> {
    let d = unsigned_digits(s);
    if d.len() > 0 && (forall|i: int| 0 <= i < d.len() ==> is_digit(#[trigger] d[i]))
        && digits_value(d) <= usize::MAX {
        Some(digits_value(d) as usize)
    } else {
        None
    }
}

/// The solidus `/` (code 47), which separates a corner's references.
pub open spec fn is_slash(c: char) -> bool {
    (c as u32) == 47
}

/// The part of a face token before its first slash.
pub open spec fn vertex_ref(t: Seq<char>) -> Seq<char> {
    t.take(first_index(t, |c: char| is_slash(c)))
}

/// The vertex number a face token names, if it reads as one.
pub open spec fn token_vertex(t: Seq<char>) -> Option<usize> {
    parse_usize(vertex_ref(t))
}

/// The 1-based vertex numbers of a face record's body, in order, skipping
/// tokens that do not read as numbers.
pub open spec fn face_numbers(body: Seq<char>) -> Seq<usize> {
    somes(token_slots(tokens(body)))
}

/// The vertex number each token names, if any.
pub open spec fn token_slots(ts: Seq<Seq<char>>) -> Seq<Option<usize>> {
    ts.map_values(|t: Seq<char>| token_vertex(t))
}

/// 1-based vertex numbers made 0-based.
pub open spec fn zero_based(numbers: Seq<usize>) -> Seq<usize> {
    numbers.map_values(|n: usize| (n - 1) as usize)
}


/// The characters of a string slice, in order.
fn chars_of(s: &str) -> (cs: Vec<char>)
    ensures
        cs@ == s@,
{
    let mut it = s.chars();
    proof {
        vstd::string::axiom_spec_iter(s);
    }
    let mut cs: Vec<char> = Vec::new();
    loop
        invariant
            cs@ + it.remaining() == s@,
            it.decrease() is Some,
        ensures
            cs@ == s@,
        decreases it.decrease()->0,
    {
        let ghost before = it;
        match it.next() {
            Some(c) => {
                proof {
                    vstd::string::next_postcondition(&before, &it, Some(c));
                }
                assert(cs@.push(c) + it.remaining() =~= cs@ + before.remaining());
                cs.push(c);
            },
            None => {
                proof {
                    vstd::string::next_postcondition(&before, &it, None);
                }
                assert(cs@ =~= s@);
                break;
            },
        }
    }
    cs
}

// ─────────────────────────────────────────────────────────────────────────────
// Reading a face record
// ─────────────────────────────────────────────────────────────────────────────

fn is_space_char(c: char) -> (b: bool)
    ensures
        b == is_space(c),
{
    let u = c as u32;
    (9 <= u && u <= 13) || u == 32 || u == 0x85 || u == 0xa0 || u == 0x1680 || (0x2000 <= u && u
        <= 0x200a) || u == 0x2028 || u == 0x2029 || u == 0x202f || u == 0x205f || u == 0x3000
}

/// A longer run of digits never denotes a smaller number.
proof fn lemma_digits_value_prefix(d: Seq<char>, k: int)
    requires
        0 <= k <= d.len(),
        forall|i: int| 0 <= i < d.len() ==> is_digit(#[trigger] d[i]),
    ensures
        digits_value(d.take(k)) <= digits_value(d),
    decreases d.len(),
{
    if k < d.len() {
        let e = d.drop_last();
        assert(e.take(k) =~= d.take(k));
        assert forall|i: int| 0 <= i < e.len() implies is_digit(#[trigger] e[i]) by {
            assert(e[i] == d[i]);
        }
        lemma_digits_value_prefix(e, k);
    } else {
        assert(d.take(k) =~= d);
    }
}

/// The vertex number of one face token.
fn read_token_vertex(tok: &Vec<char>) -> (r: Option<usize>)
    ensures
        r == token_vertex(tok@),
{
    let mut end: usize = 0;
    while end < tok.len() && (tok[end] as u32) != 47
        invariant
            end <= tok.len(),
            forall|j: int| 0 <= j < end ==> !is_slash(#[trigger] tok@[j]),
        decreases tok.len() - end,
    {
        end = end + 1;
    }
    proof {
        lemma_first_index(tok@, |c: char| is_slash(c), end as int);
    }
    let ghost v = vertex_ref(tok@);
    assert(v =~= tok@.take(end as int));
    let mut start: usize = 0;
    if end > 0 && (tok[0] as u32) == 43 {
        start = 1;
    }
    let ghost d = unsigned_digits(v);
    assert(d =~= tok@.subrange(start as int, end as int));
    if start == end {
        return None;
    }
    let mut value: usize = 0;
    let mut i: usize = start;
    while i < end
        invariant
            start <= i <= end <= tok.len(),
            d == tok@.subrange(start as int, end as int),
            d == unsigned_digits(vertex_ref(tok@)),
            forall|j: int| 0 <= j < i - start ==> is_digit(#[trigger] d[j]),
            value == digits_value(d.take(i - start)),
        decreases end - i,
    {
        let c = tok[i];
        assert(c == d[i - start]);
        if !(48 <= (c as u32) && (c as u32) <= 57) {
            assert(!is_digit(d[i - start]));
            return None;
        }
        let digit = ((c as u32) - 48) as usize;
        assert(d.take(i - start + 1).drop_last() =~= d.take(i - start));
        assert(digits_value(d.take(i - start + 1)) == value * 10 + digit);
        let grown = match value.checked_mul(10) {
            Some(t) => t.checked_add(digit),
            None => None,
        };
        match grown {
            Some(g) => {
                value = g;
            },
            None => {
                proof {
                    if forall|j: int| 0 <= j < d.len() ==> is_digit(#[trigger] d[j]) {
                        lemma_digits_value_prefix(d, i - start + 1);
                    }
                }
                return None;
            },
        }
        i = i + 1;
    }
    assert(d.take(i - start) =~= d);
    Some(value)
}

/// Read the body of a face record (the text after `f `): the 1-based vertex
/// number of each whitespace-separated token, skipping tokens that do not
/// read as unsigned integers.
pub fn face_line_numbers(body: &str) -> (nums: Vec<usize>)
    ensures
        nums@ == face_numbers(body@),
{
    let cs = chars_of(body);
    face_numbers_of_chars(&cs)
}

/// `face_line_numbers` on a body given as characters.
fn face_numbers_of_chars(cs: &Vec<char>) -> (nums: Vec<usize>)
    ensures
        nums@ == face_numbers(cs@),
{
    let mut nums: Vec<usize> = Vec::new();
    let mut cur: Vec<char> = Vec::new();
    let mut i: usize = 0;
    while i < cs.len()
        invariant
            i <= cs.len(),
            nums@ == somes(token_slots(token_scan(cs@.take(i as int)).0)),
            cur@ == token_scan(cs@.take(i as int)).1,
        decreases cs.len() - i,
    {
        let ghost prev = token_scan(cs@.take(i as int));
        let c = cs[i];
        assert(cs@.take(i as int + 1).drop_last() =~= cs@.take(i as int));
        if is_space_char(c) {
            if cur.len() > 0 {
                let r = read_token_vertex(&cur);
                assert(token_slots(prev.0.push(cur@)) =~= token_slots(prev.0).push(r));
                assert(token_slots(prev.0).push(r).drop_last() =~= token_slots(prev.0));
                match r {
                    Some(n) => nums.push(n),
                    None => {},
                }
                cur = Vec::new();
            }
        } else {
            cur.push(c);
        }
        i = i + 1;
    }
    assert(cs@.take(i as int) =~= cs@);
    let ghost last = token_scan(cs@);
    if cur.len() > 0 {
        let r = read_token_vertex(&cur);
        assert(token_slots(last.0.push(cur@)) =~= token_slots(last.0).push(r));
        assert(token_slots(last.0).push(r).drop_last() =~= token_slots(last.0));
        match r {
            Some(n) => nums.push(n),
            None => {},
        }
    }
    nums
}

/// The triangle corners of one face: its 1-based vertex numbers made
/// 0-based and triangulated as a fan around the first corner.
pub fn face_triangles(numbers: &[usize]) -> (tris: Vec<usize>)
    requires
        forall|i: int| 0 <= i < numbers.len() ==> #[trigger] numbers[i] > 0,
    ensures
        tris@ == fan(zero_based(numbers@)),
{
    let mut corners: Vec<usize> = Vec::new();
    let mut i: usize = 0;
    while i < numbers.len()
        invariant
            i <= numbers.len(),
            forall|j: int| 0 <= j < numbers.len() ==> #[trigger] numbers[j] > 0,
            corners@ == zero_based(numbers@.take(i as int)),
        decreases numbers.len() - i,
    {
        corners.push(numbers[i] - 1);
        i = i + 1;
        assert(corners@ =~= zero_based(numbers@.take(i as int)));
    }
    assert(numbers@.take(i as int) =~= numbers@);
    fan_triangulate(&corners)
}

/// The records with each body taken by its characters.
pub open spec fn record_views(records: Seq<(RecordKind, Vec<char>)>) -> Seq<(RecordKind, Seq<char>)> {
    records.map_values(|r: (RecordKind, Vec<char>)| (r.0, r.1@))
}

/// The triangle corners of the face records among `records`, in order: each
/// face's vertex numbers made 0-based and fan-triangulated, face after face.
pub open spec fn face_indices(records: Seq<(RecordKind, Seq<char>)>) -> Seq<usize>
    decreases records.len(),
{
    if records.len() == 0 {
        Seq::empty()
    } else {
        let rest = face_indices(records.drop_last());
        if records.last().0 is Face {
            rest + fan(zero_based(face_numbers(records.last().1)))
        } else {
            rest
        }
    }
}

/// Every face record numbers its vertices from 1.
pub open spec fn faces_numbered_from_one(records: Seq<(RecordKind, Seq<char>)>) -> bool {
    forall|i: int, j: int|
        0 <= i < records.len() && records[i].0 is Face && 0 <= j < face_numbers(records[i].1).len()
            ==> #[trigger] face_numbers(records[i].1)[j] > 0
}

/// The triangle corners of all face records, in order (the index list of the
/// mesh an OBJ text describes); vertex records are passed over.
pub fn face_indices_of(records: &[(RecordKind, Vec<char>)]) -> (idx: Vec<usize>)
    requires
        faces_numbered_from_one(record_views(records@)),
    ensures
        idx@ == face_indices(record_views(records@)),
{
    let ghost rv = record_views(records@);
    let mut idx: Vec<usize> = Vec::new();
    let mut i: usize = 0;
    while i < records.len()
        invariant
            i <= records.len(),
            rv == record_views(records@),
            faces_numbered_from_one(rv),
            idx@ == face_indices(rv.take(i as int)),
        decreases records.len() - i,
    {
        assert(rv.take(i + 1).drop_last() =~= rv.take(i as int));
        assert(rv.take(i + 1).last() == rv[i as int]);
        match records[i].0 {
            RecordKind::Face => {
                let nums = face_numbers_of_chars(&records[i].1);
                assert(nums@ == face_numbers(rv[i as int].1));
                assert forall|j: int| 0 <= j < nums@.len() implies #[trigger] nums@[j] > 0 by {
                    assert(face_numbers(rv[i as int].1)[j] > 0);
                }
                let mut tris = face_triangles(nums.as_slice());
                idx.append(&mut tris);
            },
            RecordKind::Vertex => {},
        }
        i = i + 1;
    }
    assert(rv.take(records.len() as int) =~= rv);
    idx
}

// ─────────────────────────────────────────────────────────────────────────────
// Records of an OBJ text
// ─────────────────────────────────────────────────────────────────────────────

/// The kinds of record that a mesh is read from.
#[derive(Debug, Clone, Copy, PartialEq, Eq, Structural)]
pub enum RecordKind {
    /// A `v x y z` vertex record.
    Vertex,
    /// An `f a b c ...` face record.
    Face,
}

/// Reading `s` left to right: the lines finished so far (each without its
/// newline) and the line in progress.
pub open spec fn line_scan(s: Seq<char>) -> (Seq<Seq<char>>, Seq<char>)
    decreases s.len(),
{
    if s.len() == 0 {
        (Seq::empty(), Seq::empty())
    } else {
        let (done, cur) = line_scan(s.drop_last());
        if (s.last() as u32) == 10 {
            (done.push(cur), Seq::empty())
        } else {
            (done, cur.push(s.last()))
        }
    }
}

/// The lines of a text: the pieces between newlines, the last one only if
/// it is not empty. (A carriage return before a newline stays in its line;
/// being whitespace, it is trimmed with the rest.)
pub open spec fn text_lines(s: Seq<char>) -> Seq<Seq<char>> {
    let (done, cur) = line_scan(s);
    if cur.len() > 0 {
        done.push(cur)
    } else {
        done
    }
}

/// The test for a character that is not whitespace.
pub open spec fn non_space() -> spec_fn(char) -> bool {
    |c: char| !is_space(c)
}

/// The length of `s` without its trailing whitespace.
pub open spec fn trimmed_end(s: Seq<char>) -> int
    decreases s.len(),
{
    if s.len() > 0 && is_space(s.last()) {
        trimmed_end(s.drop_last())
    } else {
        s.len() as int
    }
}

/// `s` without leading and trailing whitespace.
pub open spec fn trim(s: Seq<char>) -> Seq<char> {
    let a = first_index(s, non_space());
    let b = trimmed_end(s);
    if a < b {
        s.subrange(a, b)
    } else {
        Seq::empty()
    }
}

/// The record a trimmed line is: a vertex record when it begins `v ` and a
/// face record when it begins `f `, with the text after those two
/// characters; any other line is none.
pub open spec fn classify(t: Seq<char>) -> Option<(RecordKind, Seq<char>)> {
    if t.len() >= 2 && (t[1] as u32) == 32 && (t[0] as u32) == 118 {
        Some((RecordKind::Vertex, t.skip(2)))
    } else if t.len() >= 2 && (t[1] as u32) == 32 && (t[0] as u32) == 102 {
        Some((RecordKind::Face, t.skip(2)))
    } else {
        None
    }
}

/// The record of each line, if any.
pub open spec fn line_records(lines: Seq<Seq<char>>) -> Seq<Option<(RecordKind, Seq<char>)>> {
    lines.map_values(|l: Seq<char>| classify(trim(l)))
}

/// The vertex and face records of an OBJ text, in order.
pub open spec fn obj_records(text: Seq<char>) -> Seq<(RecordKind, Seq<char>)> {
    somes(line_records(text_lines(text)))
}

/// The record of one line.
fn classify_line(line: &Vec<char>) -> (r: Option<(RecordKind, Vec<char>)>)
    ensures
        r is None <==> classify(trim(line@)) is None,
        r matches Some(x) ==> classify(trim(line@)) == Some((x.0, x.1@)),
{
    let n = line.len();
    let mut a: usize = 0;
    while a < n && is_space_char(line[a])
        invariant
            a <= n == line@.len(),
            forall|j: int| 0 <= j < a ==> !non_space()(#[trigger] line@[j]),
        decreases n - a,
    {
        a = a + 1;
    }
    proof {
        lemma_first_index(line@, non_space(), a as int);
    }
    let mut b: usize = n;
    assert(line@.take(n as int) =~= line@);
    while b > 0 && is_space_char(line[b - 1])
        invariant
            b <= n == line@.len(),
            trimmed_end(line@) == trimmed_end(line@.take(b as int)),
        decreases b,
    {
        assert(line@.take(b as int).drop_last() =~= line@.take(b as int - 1));
        b = b - 1;
    }
    proof {
        if b > 0 {
            assert(line@.take(b as int).last() == line@[b as int - 1]);
        }
        assert(trimmed_end(line@.take(b as int)) == b);
    }
    let ghost t = trim(line@);
    if a < b && b - a >= 2 && (line[a + 1] as u32) == 32 && ((line[a] as u32) == 118 || (line[a] as u32) == 102) {
        assert(t =~= line@.subrange(a as int, b as int));
        let mut body: Vec<char> = Vec::new();
        let mut k: usize = a + 2;
        while k < b
            invariant
                a + 2 <= k <= b <= n == line@.len(),
                body@ == line@.subrange(a + 2, k as int),
            decreases b - k,
        {
            body.push(line[k]);
            k = k + 1;
            assert(body@ =~= line@.subrange(a + 2, k as int));
        }
        assert(t.skip(2) =~= body@);
        if (line[a] as u32) == 118 {
            Some((RecordKind::Vertex, body))
        } else {
            Some((RecordKind::Face, body))
        }
    } else {
        proof {
            if a < b {
                assert(t =~= line@.subrange(a as int, b as int));
            }
        }
        None
    }
}

/// The vertex and face records of an OBJ text, in order: each line is
/// trimmed, and kept when it begins `v ` or `f `, with the text after
/// those two characters.
pub fn read_obj_records(text: &str) -> (r: Vec<(RecordKind, Vec<char>)>)
    ensures
        r@.len() == obj_records(text@).len(),
        forall|i: int| 0 <= i < r@.len() ==> (#[trigger] r@[i]).0 == obj_records(text@)[i].0 && r@[i].1@ == obj_records(text@)[i].1,
        record_views(r@) == obj_records(text@),
{
    let cs = chars_of(text);
    let mut r: Vec<(RecordKind, Vec<char>)> = Vec::new();
    let mut cur: Vec<char> = Vec::new();
    let mut i: usize = 0;
    while i < cs.len()
        invariant
            i <= cs@.len(),
            cs@ == text@,
            r@.len() == somes(line_records(line_scan(cs@.take(i as int)).0)).len(),
            forall|k: int| 0 <= k < r@.len() ==> (#[trigger] r@[k]).0 == somes(line_records(line_scan(cs@.take(i as int)).0))[k].0
                && r@[k].1@ == somes(line_records(line_scan(cs@.take(i as int)).0))[k].1,
            cur@ == line_scan(cs@.take(i as int)).1,
        decreases cs.len() - i,
    {
        let ghost prev = line_scan(cs@.take(i as int));
        let c = cs[i];
        assert(cs@.take(i as int + 1).drop_last() =~= cs@.take(i as int));
        if (c as u32) == 10 {
            let rec = classify_line(&cur);
            let ghost before = somes(line_records(prev.0));
            assert(line_records(prev.0.push(cur@)) =~= line_records(prev.0).push(classify(trim(cur@))));
            assert(line_records(prev.0).push(classify(trim(cur@))).drop_last() =~= line_records(prev.0));
            match rec {
                Some(x) => {
                    r.push(x);
                },
                None => {},
            }
            cur = Vec::new();
        } else {
            cur.push(c);
        }
        i = i + 1;
    }
    assert(cs@.take(i as int) =~= cs@);
    let ghost last = line_scan(cs@);
    if cur.len() > 0 {
        let rec = classify_line(&cur);
        assert(line_records(last.0.push(cur@)) =~= line_records(last.0).push(classify(trim(cur@))));
        assert(line_records(last.0).push(classify(trim(cur@))).drop_last() =~= line_records(last.0));
        match rec {
            Some(x) => {
                r.push(x);
            },
            None => {},
        }
    }
    assert(record_views(r@) =~= obj_records(text@));
    r
}

// ─────────────────────────────────────────────────────────────────────────────
// Reading back what was written
// ─────────────────────────────────────────────────────────────────────────────

/// A decimal rendering is a nonempty run of digits denoting its number.
proof fn lemma_decimal_digits(n: nat)
    ensures
        decimal(n).len() > 0,
        forall|i: int| 0 <= i < decimal(n).len() ==> is_digit(#[trigger] decimal(n)[i]),
        digits_value(decimal(n)) == n,
    decreases n,
{
    if n >= 10 {
        lemma_decimal_digits(n / 10);
        let d = decimal(n);
        assert(d.drop_last() =~= decimal(n / 10));
        assert(d.last() == digit_char(n % 10));
        assert(digit_char(n % 10) as u32 == 48 + n % 10);
        assert(digits_value(d) == digits_value(decimal(n / 10)) * 10 + n % 10);
        assert((n / 10) * 10 + n % 10 == n);
    } else {
        let d = decimal(n);
        assert(d.drop_last() =~= Seq::<char>::empty());
        assert(digit_char(n) as u32 == 48 + n);
        assert(d.last() == digit_char(n));
        assert(digits_value(d.drop_last()) == 0);
        assert(digits_value(d) == n);
    }
}

/// A decimal rendering of a `usize` is one token naming that number.
proof fn lemma_decimal_token(n: nat)
    requires
        n <= usize::MAX,
    ensures
        decimal(n).len() > 0,
        forall|i: int| 0 <= i < decimal(n).len() ==> !is_space(#[trigger] decimal(n)[i]),
        token_vertex(decimal(n)) == Some(n as usize),
{
    lemma_decimal_digits(n);
    let d = decimal(n);
    assert forall|i: int| 0 <= i < d.len() implies !is_space(#[trigger] d[i]) by {
        assert(is_digit(d[i]));
    }
    assert forall|j: int| 0 <= j < d.len() implies !is_slash(#[trigger] d[j]) by {
        assert(is_digit(d[j]));
    }
    lemma_first_index(d, |c: char| is_slash(c), d.len() as int);
    assert(vertex_ref(d) =~= d);
    assert(is_digit(d[0]));
    assert(unsigned_digits(d) == d);
}

/// Reading a run of non-whitespace characters extends the token in progress.
proof fn lemma_scan_word(p: Seq<char>, w: Seq<char>)
    requires
        forall|i: int| 0 <= i < w.len() ==> !is_space(#[trigger] w[i]),
    ensures
        token_scan(p + w) == (token_scan(p).0, token_scan(p).1 + w),
    decreases w.len(),
{
    if w.len() == 0 {
        assert(p + w =~= p);
        assert(token_scan(p).1 + w =~= token_scan(p).1);
    } else {
        let v = w.drop_last();
        assert forall|i: int| 0 <= i < v.len() implies !is_space(#[trigger] v[i]) by {
            assert(v[i] == w[i]);
        }
        lemma_scan_word(p, v);
        assert((p + w).drop_last() =~= p + v);
        assert((p + w).last() == w.last());
        assert(!is_space(w[w.len() - 1]));
        assert((token_scan(p).1 + v).push(w.last()) =~= token_scan(p).1 + w);
    }
}

/// Reading a space closes the token in progress.
proof fn lemma_scan_space(p: Seq<char>)
    ensures
        token_scan(p + " "@) == (close_token(token_scan(p).0, token_scan(p).1), Seq::<char>::empty()),
{
    reveal_strlit(" ");
    assert((p + " "@).drop_last() =~= p);
    assert((p + " "@).last() == ' ');
}

/// Reading back a face line: the body of the `f` line that the OBJ text
/// gives triangle `t` reads as the triangle's three 1-based vertex numbers,
/// and these, made 0-based and triangulated, are the triangle's corners again.
pub proof fn law_face_line_round_trip(indices: Seq<usize>, t: int)
    requires
        0 <= t,
        3 * t + 3 <= indices.len(),
        forall|k: int| 3 * t <= k < 3 * t + 3 ==> #[trigger] indices[k] < usize::MAX,
    ensures
        face_numbers(obj_face_body(indices, t)) == seq![
            (indices[3 * t] + 1) as usize,
            (indices[3 * t + 1] + 1) as usize,
            (indices[3 * t + 2] + 1) as usize,
        ],
        fan(zero_based(face_numbers(obj_face_body(indices, t)))) == indices.subrange(3 * t, 3 * t + 3),
{
    assert(indices[3 * t] < usize::MAX);
    assert(indices[3 * t + 1] < usize::MAX);
    assert(indices[3 * t + 2] < usize::MAX);
    let n1 = (indices[3 * t] + 1) as nat;
    let n2 = (indices[3 * t + 1] + 1) as nat;
    let n3 = (indices[3 * t + 2] + 1) as nat;
    let (d1, d2, d3) = (decimal(n1), decimal(n2), decimal(n3));
    lemma_decimal_token(n1);
    lemma_decimal_token(n2);
    lemma_decimal_token(n3);
    let e = Seq::<char>::empty();
    lemma_scan_word(e, d1);
    assert(e + d1 =~= d1);
    lemma_scan_space(d1);
    lemma_scan_word(d1 + " "@, d2);
    lemma_scan_space(d1 + " "@ + d2);
    lemma_scan_word(d1 + " "@ + d2 + " "@, d3);
    let body = obj_face_body(indices, t);
    assert(body == d1 + " "@ + d2 + " "@ + d3);
    assert(Seq::<char>::empty() + d2 =~= d2);
    assert(Seq::<char>::empty() + d3 =~= d3);
    let ts = tokens(body);
    assert(ts =~= seq![d1, d2, d3]);
    let slots = token_slots(ts);
    assert(slots =~= seq![Some(n1 as usize), Some(n2 as usize), Some(n3 as usize)]);
    assert(slots.drop_last().drop_last().drop_last() =~= Seq::<Option<usize>>::empty());
    assert(slots.drop_last().drop_last() =~= seq![Some(n1 as usize)]);
    assert(slots.drop_last() =~= seq![Some(n1 as usize), Some(n2 as usize)]);
    assert(somes(slots.drop_last().drop_last().drop_last()) =~= Seq::<usize>::empty());
    assert(somes(slots.drop_last().drop_last()) =~= seq![n1 as usize]);
    assert(somes(slots.drop_last()) =~= seq![n1 as usize, n2 as usize]);
    assert(somes(slots) =~= seq![n1 as usize, n2 as usize, n3 as usize]);
    assert(face_numbers(body) =~= seq![n1 as usize, n2 as usize, n3 as usize]);
    let z = zero_based(face_numbers(body));
    assert(z =~= indices.subrange(3 * t, 3 * t + 3));
    assert(z.drop_last() =~= seq![z[0], z[1]]);
    assert(fan(z.drop_last()) =~= Seq::<usize>::empty());
    assert(fan(z) =~= z);
}

/// Reading a line that has no newline in it, then a newline, finishes
/// exactly that line.
proof fn lemma_scan_line(p: Seq<char>, w: Seq<char>)
    requires
        line_scan(p).1.len() == 0,
        forall|i: int| 0 <= i < w.len() ==> (#[trigger] w[i] as u32) != 10,
    ensures
        line_scan(p + w + "\n"@) == (line_scan(p).0.push(w), Seq::<char>::empty()),
{
    lemma_scan_no_newline(p, w);
    reveal_strlit("\n");
    assert((p + w + "\n"@).drop_last() =~= p + w);
    assert((p + w + "\n"@).last() == '\n');
}

proof fn lemma_scan_no_newline(p: Seq<char>, w: Seq<char>)
    requires
        forall|i: int| 0 <= i < w.len() ==> (#[trigger] w[i] as u32) != 10,
    ensures
        line_scan(p + w) == (line_scan(p).0, line_scan(p).1 + w),
    decreases w.len(),
{
    if w.len() == 0 {
        assert(p + w =~= p);
        assert(line_scan(p).1 + w =~= line_scan(p).1);
    } else {
        let v = w.drop_last();
        assert forall|i: int| 0 <= i < v.len() implies (#[trigger] v[i] as u32) != 10 by {
            assert(v[i] == w[i]);
        }
        lemma_scan_no_newline(p, v);
        assert((p + w).drop_last() =~= p + v);
        assert((p + w).last() == w.last());
        assert((w[w.len() - 1] as u32) != 10);
        assert((line_scan(p).1 + v).push(w.last()) =~= line_scan(p).1 + w);
    }
}

/// The face line of triangle `t` as a line of text: `f ` and its body.
proof fn lemma_face_line_record(indices: Seq<usize>, t: int)
    requires
        0 <= t,
        3 * t + 3 <= indices.len(),
    ensures
        ({
            let w = "f "@ + obj_face_body(indices, t);
            &&& forall|i: int| 0 <= i < w.len() ==> (#[trigger] w[i] as u32) != 10
            &&& classify(trim(w)) == Some((RecordKind::Face, obj_face_body(indices, t)))
        }),
{
    reveal_strlit("f ");
    reveal_strlit(" ");
    let n1 = (indices[3 * t] + 1) as nat;
    let n2 = (indices[3 * t + 1] + 1) as nat;
    let n3 = (indices[3 * t + 2] + 1) as nat;
    lemma_decimal_digits(n1);
    lemma_decimal_digits(n2);
    lemma_decimal_digits(n3);
    let (d1, d2, d3) = (decimal(n1), decimal(n2), decimal(n3));
    let body = obj_face_body(indices, t);
    assert(body == d1 + " "@ + d2 + " "@ + d3);
    let w = "f "@ + body;
    assert forall|i: int| 0 <= i < w.len() implies (#[trigger] w[i] as u32) != 10 by {
        if i >= 2 {
            let j = i - 2;
            assert(w[i] == body[j]);
            if j < d1.len() {
                assert(body[j] == d1[j]);
                assert(is_digit(d1[j]));
            } else if j == d1.len() {
                assert(body[j] == ' ');
            } else if j < d1.len() + 1 + d2.len() {
                assert(body[j] == d2[j - d1.len() - 1]);
                assert(is_digit(d2[j - d1.len() - 1]));
            } else if j == d1.len() + 1 + d2.len() {
                assert(body[j] == ' ');
            } else {
                assert(body[j] == d3[j - d1.len() - 2 - d2.len()]);
                assert(is_digit(d3[j - d1.len() - 2 - d2.len()]));
            }
        }
    }
    assert(w[0] == 'f');
    lemma_first_index(w, non_space(), 0);
    assert(w.last() == d3.last());
    assert(is_digit(d3[d3.len() - 1]));
    assert(trimmed_end(w) == w.len());
    assert(trim(w) =~= w);
    assert(w[1] == ' ');
    assert(w.skip(2) =~= body);
}

/// The text of the first `k` face lines holds one line per triangle.
proof fn lemma_face_lines_scan(indices: Seq<usize>, k: int)
    requires
        0 <= k,
        3 * k <= indices.len(),
    ensures
        line_scan(obj_face_lines(indices, k)).1.len() == 0,
        line_scan(obj_face_lines(indices, k)).0 == Seq::new(k as nat, |t: int| "f "@ + obj_face_body(indices, t)),
    decreases k,
{
    if k <= 0 {
        assert(obj_face_lines(indices, k) =~= Seq::<char>::empty());
        assert(Seq::new(k as nat, |t: int| "f "@ + obj_face_body(indices, t)) =~= Seq::<Seq<char>>::empty());
    } else {
        lemma_face_lines_scan(indices, k - 1);
        let p = obj_face_lines(indices, k - 1);
        let w = "f "@ + obj_face_body(indices, k - 1);
        lemma_face_line_record(indices, k - 1);
        lemma_scan_line(p, w);
        assert(obj_face_lines(indices, k) =~= p + w + "\n"@);
        assert(Seq::new(k as nat, |t: int| "f "@ + obj_face_body(indices, t)) =~= Seq::new(
            (k - 1) as nat,
            |t: int| "f "@ + obj_face_body(indices, t),
        ).push(w));
    }
}

/// The records of the first `k` face lines.
proof fn lemma_face_records(indices: Seq<usize>, k: int)
    requires
        0 <= k,
        3 * k <= indices.len(),
    ensures
        somes(line_records(Seq::new(k as nat, |t: int| "f "@ + obj_face_body(indices, t)))) == Seq::new(
            k as nat,
            |t: int| (RecordKind::Face, obj_face_body(indices, t)),
        ),
    decreases k,
{
    let lines = Seq::new(k as nat, |t: int| "f "@ + obj_face_body(indices, t));
    let recs = Seq::new(k as nat, |t: int| (RecordKind::Face, obj_face_body(indices, t)));
    if k <= 0 {
        assert(line_records(lines) =~= Seq::<Option<(RecordKind, Seq<char>)>>::empty());
        assert(recs =~= Seq::<(RecordKind, Seq<char>)>::empty());
    } else {
        lemma_face_records(indices, k - 1);
        lemma_face_line_record(indices, k - 1);
        let prev = Seq::new((k - 1) as nat, |t: int| "f "@ + obj_face_body(indices, t));
        assert(line_records(lines).drop_last() =~= line_records(prev));
        assert(line_records(lines).last() == Some((RecordKind::Face, obj_face_body(indices, k - 1))));
        assert(recs =~= Seq::new((k - 1) as nat, |t: int| (RecordKind::Face, obj_face_body(indices, t))).push(
            (RecordKind::Face, obj_face_body(indices, k - 1)),
        ));
    }
}

/// Reading back the face lines of a mesh's OBJ text: its records are one
/// face record per triangle, in order, each with the body that reads back
/// as that triangle's corners (see `law_face_line_round_trip`).
pub proof fn law_face_lines_read_back(indices: Seq<usize>)
    ensures
        obj_records(obj_face_lines(indices, (indices.len() / 3) as int)) == Seq::new(
            (indices.len() / 3) as nat,
            |t: int| (RecordKind::Face, obj_face_body(indices, t)),
        ),
{
    let k = (indices.len() / 3) as int;
    lemma_face_lines_scan(indices, k);
    lemma_face_records(indices, k);
}

/// Reading text after a finished line continues from a clean state.
proof fn lemma_scan_concat(p: Seq<char>, q: Seq<char>)
    requires
        line_scan(p).1.len() == 0,
    ensures
        line_scan(p + q) == (line_scan(p).0 + line_scan(q).0, line_scan(q).1),
    decreases q.len(),
{
    if q.len() == 0 {
        assert(p + q =~= p);
        assert(line_scan(p).0 + line_scan(q).0 =~= line_scan(p).0);
        assert(line_scan(p).1 =~= line_scan(q).1);
    } else {
        let r = q.drop_last();
        lemma_scan_concat(p, r);
        assert((p + q).drop_last() =~= p + r);
        assert((p + q).last() == q.last());
        let (pd, _) = line_scan(p);
        let (rd, rc) = line_scan(r);
        if (q.last() as u32) == 10 {
            assert((pd + rd).push(rc) =~= pd + rd.push(rc));
        }
    }
}

proof fn lemma_somes_concat<T>(a: Seq<Option<T>>, b: Seq<Option<T>>)
    ensures
        somes(a + b) == somes(a) + somes(b),
    decreases b.len(),
{
    if b.len() == 0 {
        assert(a + b =~= a);
        assert(somes(a) + somes(b) =~= somes(a));
    } else {
        lemma_somes_concat(a, b.drop_last());
        assert((a + b).drop_last() =~= a + b.drop_last());
        assert((a + b).last() == b.last());
        match b.last() {
            Some(v) => {
                assert((somes(a) + somes(b.drop_last())).push(v) =~= somes(a) + somes(b.drop_last()).push(v));
            },
            None => {},
        }
    }
}

/// A rendered coordinate as it must be for its line to read back: not
/// empty, and without whitespace.
pub open spec fn plain_text(t: Seq<char>) -> bool {
    t.len() > 0 && forall|i: int| 0 <= i < t.len() ==> !is_space(#[trigger] t[i])
}

/// The body of the line of a rendered triple: its three texts separated by spaces.
pub open spec fn triple_body(c: [String; 3]) -> Seq<char> {
    c[0]@ + " "@ + c[1]@ + " "@ + c[2]@
}

/// The line of triple `c` under tag `tag` as a line of text.
proof fn lemma_triple_line(tag: Seq<char>, c: [String; 3])
    requires
        tag == "v"@ || tag == "vn"@,
        plain_text(c[0]@),
        plain_text(c[1]@),
        plain_text(c[2]@),
    ensures
        ({
            let w = tag + " "@ + triple_body(c);
            &&& forall|i: int| 0 <= i < w.len() ==> (#[trigger] w[i] as u32) != 10
            &&& classify(trim(w)) == if tag == "v"@ {
                Some((RecordKind::Vertex, triple_body(c)))
            } else {
                None
            }
        }),
{
    reveal_strlit("v");
    reveal_strlit("vn");
    reveal_strlit(" ");
    let body = triple_body(c);
    let w = tag + " "@ + body;
    let (a, b, d) = (c[0]@, c[1]@, c[2]@);
    assert(body == a + " "@ + b + " "@ + d);
    assert forall|i: int| 0 <= i < w.len() implies (#[trigger] w[i] as u32) != 10 by {
        let o = tag.len() + 1;
        if i >= o {
            let j = i - o;
            assert(w[i] == body[j]);
            if j < a.len() {
                assert(body[j] == a[j]);
                assert(!is_space(a[j]));
            } else if j == a.len() {
                assert(body[j] == ' ');
            } else if j < a.len() + 1 + b.len() {
                assert(body[j] == b[j - a.len() - 1]);
                assert(!is_space(b[j - a.len() - 1]));
            } else if j == a.len() + 1 + b.len() {
                assert(body[j] == ' ');
            } else {
                assert(body[j] == d[j - a.len() - 2 - b.len()]);
                assert(!is_space(d[j - a.len() - 2 - b.len()]));
            }
        } else if i < tag.len() {
            assert(w[i] == tag[i]);
        } else {
            assert(w[i] == ' ');
        }
    }
    assert(w[0] == 'v');
    lemma_first_index(w, non_space(), 0);
    assert(w.last() == d.last());
    assert(!is_space(d[d.len() - 1]));
    assert(trimmed_end(w) == w.len());
    assert(trim(w) =~= w);
    if tag == "v"@ {
        assert(w[1] == ' ');
        assert(w.skip(2) =~= body);
    } else {
        assert(w[1] == 'n');
    }
}

/// The lines of the first `k` triples.
proof fn lemma_triple_lines_scan(tag: Seq<char>, cs: Seq<[String; 3]>, k: int)
    requires
        tag == "v"@ || tag == "vn"@,
        0 <= k <= cs.len(),
        forall|i: int| 0 <= i < cs.len() ==> plain_text((#[trigger] cs[i])[0]@) && plain_text(cs[i][1]@) && plain_text(cs[i][2]@),
    ensures
        line_scan(obj_triple_lines(tag, cs, k)).1.len() == 0,
        line_scan(obj_triple_lines(tag, cs, k)).0 == Seq::new(k as nat, |i: int| tag + " "@ + triple_body(cs[i])),
    decreases k,
{
    if k <= 0 {
        assert(obj_triple_lines(tag, cs, k) =~= Seq::<char>::empty());
        assert(Seq::new(k as nat, |i: int| tag + " "@ + triple_body(cs[i])) =~= Seq::<Seq<char>>::empty());
    } else {
        lemma_triple_lines_scan(tag, cs, k - 1);
        let c = cs[k - 1];
        let w = tag + " "@ + triple_body(c);
        lemma_triple_line(tag, c);
        lemma_scan_line(obj_triple_lines(tag, cs, k - 1), w);
        assert(obj_triple_lines(tag, cs, k) =~= obj_triple_lines(tag, cs, k - 1) + w + "\n"@);
        assert(Seq::new(k as nat, |i: int| tag + " "@ + triple_body(cs[i])) =~= Seq::new(
            (k - 1) as nat,
            |i: int| tag + " "@ + triple_body(cs[i]),
        ).push(w));
    }
}

/// The records of the first `k` triple lines: a vertex record each for
/// `v` lines, none for `vn` lines.
proof fn lemma_triple_records(tag: Seq<char>, cs: Seq<[String; 3]>, k: int)
    requires
        tag == "v"@ || tag == "vn"@,
        0 <= k <= cs.len(),
        forall|i: int| 0 <= i < cs.len() ==> plain_text((#[trigger] cs[i])[0]@) && plain_text(cs[i][1]@) && plain_text(cs[i][2]@),
    ensures
        somes(line_records(Seq::new(k as nat, |i: int| tag + " "@ + triple_body(cs[i])))) == if tag == "v"@ {
            Seq::new(k as nat, |i: int| (RecordKind::Vertex, triple_body(cs[i])))
        } else {
            Seq::empty()
        },
    decreases k,
{
    let lines = Seq::new(k as nat, |i: int| tag + " "@ + triple_body(cs[i]));
    if k <= 0 {
        assert(line_records(lines) =~= Seq::<Option<(RecordKind, Seq<char>)>>::empty());
        assert(Seq::new(k as nat, |i: int| (RecordKind::Vertex, triple_body(cs[i]))) =~= Seq::<(RecordKind, Seq<char>)>::empty());
    } else {
        lemma_triple_records(tag, cs, k - 1);
        lemma_triple_line(tag, cs[k - 1]);
        let prev = Seq::new((k - 1) as nat, |i: int| tag + " "@ + triple_body(cs[i]));
        assert(line_records(lines).drop_last() =~= line_records(prev));
        if tag == "v"@ {
            assert(Seq::new(k as nat, |i: int| (RecordKind::Vertex, triple_body(cs[i]))) =~= Seq::new(
                (k - 1) as nat,
                |i: int| (RecordKind::Vertex, triple_body(cs[i])),
            ).push((RecordKind::Vertex, triple_body(cs[k - 1]))));
        }
    }
}

/// Reading back a mesh's OBJ text: when every coordinate renders as a
/// nonempty text without whitespace, its records are one vertex record per
/// vertex (its three texts, in order) followed by one face record per
/// triangle; normal lines give none.
pub proof fn law_obj_text_read_back(vertex_text: Seq<[String; 3]>, normal_text: Seq<[String; 3]>, indices: Seq<usize>)
    requires
        forall|i: int| 0 <= i < vertex_text.len() ==> plain_text((#[trigger] vertex_text[i])[0]@) && plain_text(
            vertex_text[i][1]@,
        ) && plain_text(vertex_text[i][2]@),
        forall|i: int| 0 <= i < normal_text.len() ==> plain_text((#[trigger] normal_text[i])[0]@) && plain_text(
            normal_text[i][1]@,
        ) && plain_text(normal_text[i][2]@),
    ensures
        obj_records(obj_text(vertex_text, normal_text, indices)) == Seq::new(
            vertex_text.len(),
            |i: int| (RecordKind::Vertex, triple_body(vertex_text[i])),
        ) + Seq::new((indices.len() / 3) as nat, |t: int| (RecordKind::Face, obj_face_body(indices, t))),
{
    reveal_strlit("v");
    reveal_strlit("vn");
    let vl = obj_triple_lines("v"@, vertex_text, vertex_text.len() as int);
    let nl = obj_triple_lines("vn"@, normal_text, normal_text.len() as int);
    let k = (indices.len() / 3) as int;
    let fl = obj_face_lines(indices, k);
    lemma_triple_lines_scan("v"@, vertex_text, vertex_text.len() as int);
    lemma_triple_lines_scan("vn"@, normal_text, normal_text.len() as int);
    lemma_face_lines_scan(indices, k);
    lemma_scan_concat(vl, nl);
    lemma_scan_concat(vl + nl, fl);
    let text = obj_text(vertex_text, normal_text, indices);
    assert(text == vl + nl + fl);
    let vlines = line_scan(vl).0;
    let nlines = line_scan(nl).0;
    let flines = line_scan(fl).0;
    assert(text_lines(text) == vlines + nlines + flines);
    assert(line_records(vlines + nlines + flines) =~= line_records(vlines) + line_records(nlines) + line_records(flines));
    lemma_somes_concat(line_records(vlines) + line_records(nlines), line_records(flines));
    lemma_somes_concat(line_records(vlines), line_records(nlines));
    lemma_triple_records("v"@, vertex_text, vertex_text.len() as int);
    lemma_triple_records("vn"@, normal_text, normal_text.len() as int);
    lemma_face_records(indices, k);
    assert(Seq::new(vertex_text.len(), |i: int| (RecordKind::Vertex, triple_body(vertex_text[i]))) + Seq::<(RecordKind, Seq<char>)>::empty()
        =~= Seq::new(vertex_text.len(), |i: int| (RecordKind::Vertex, triple_body(vertex_text[i]))));
}

} // verus!
