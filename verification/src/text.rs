//! Character and byte positions inside a line, and substring search.
//!
//! A line is a `str`; its view is the sequence of its `char`s. Cursor columns
//! count `char`s, while `str` indexing counts the bytes of the UTF-8 encoding.
//! The byte position of column `k` is the length of the encoding of the first
//! `k` characters.
use vstd::prelude::*;
use vstd::utf8::*;

verus! {

broadcast use vstd::utf8::char_is_scalar;

/// Number of bytes in the UTF-8 encoding of `s`.
pub open spec fn utf8_len(s: Seq<char>) -> nat {
    encode_utf8(s).len()
}

/// Number of bytes that the character `c` takes in UTF-8.
pub open spec fn char_width(c: char) -> nat {
    encode_scalar(c as u32).len()
}

/// Byte position of the character column `k` in `s`.
pub open spec fn byte_pos(s: Seq<char>, k: int) -> nat {
    utf8_len(s.take(k))
}

/// `b` is the byte position of some column of `s` (a character boundary).
pub open spec fn is_char_pos(s: Seq<char>, b: int) -> bool {
    exists|k: int| 0 <= k <= s.len() && #[trigger] byte_pos(s, k) == b
}

/// `q` occurs in `s` starting at column `k`.
pub open spec fn occurs_at(s: Seq<char>, q: Seq<char>, k: int) -> bool {
    0 <= k && k + q.len() <= s.len() && s.subrange(k, k + q.len()) == q
}

/// The smallest column `k` with `from <= k` and `k + |q| <= to` at which `q`
/// occurs in `s`, if there is one.
pub open spec fn first_match(s: Seq<char>, q: Seq<char>, from: int, to: int) -> Option<int>
    decreases to - from + 1,
{
    if from < 0 || from + q.len() > to || to > s.len() {
        None
    } else if s.subrange(from, from + q.len()) == q {
        Some(from)
    } else {
        first_match(s, q, from + 1, to)
    }
}

/// The largest column `k` with `from <= k` and `k + |q| <= to` at which `q`
/// occurs in `s`, if there is one.
pub open spec fn last_match(s: Seq<char>, q: Seq<char>, from: int, to: int) -> Option<int>
    decreases to - from + 1,
{
    if from < 0 || to - q.len() < from || to > s.len() {
        None
    } else if s.subrange(to - q.len(), to) == q {
        Some(to - q.len())
    } else {
        last_match(s, q, from, to - 1)
    }
}

pub proof fn lemma_encode_concat(a: Seq<char>, b: Seq<char>)
    ensures
        encode_utf8(a + b) == encode_utf8(a) + encode_utf8(b),
    decreases a.len(),
{
    if a.len() == 0 {
        assert(a + b =~= b);
        assert(encode_utf8(a) =~= Seq::<u8>::empty());
        assert(encode_utf8(a) + encode_utf8(b) =~= encode_utf8(b));
    } else {
        lemma_encode_concat(a.drop_first(), b);
        assert((a + b).drop_first() =~= a.drop_first() + b);
        assert((a + b)[0] == a[0]);
        assert(encode_utf8(a + b) =~= encode_utf8(a) + encode_utf8(b));
    }
}

pub proof fn lemma_char_width_bounds(c: char)
    ensures
        1 <= char_width(c) <= 4,
{
}

/// Appending one character adds its width to the encoded length.
pub proof fn lemma_byte_pos_step(s: Seq<char>, k: int)
    requires
        0 <= k < s.len(),
    ensures
        byte_pos(s, k + 1) == byte_pos(s, k) + char_width(s[k]),
{
    assert(s.take(k + 1) =~= s.take(k) + seq![s[k]]);
    lemma_encode_concat(s.take(k), seq![s[k]]);
    assert(seq![s[k]].drop_first() =~= Seq::<char>::empty());
    assert(encode_utf8(Seq::<char>::empty()) =~= Seq::<u8>::empty());
    assert(encode_utf8(seq![s[k]]) =~= encode_scalar(s[k] as u32));
}

/// A prefix encodes to no more bytes than the whole sequence.
pub proof fn lemma_byte_pos_le_len(s: Seq<char>, j: int)
    requires
        0 <= j <= s.len(),
    ensures
        byte_pos(s, j) <= utf8_len(s),
{
    assert(s =~= s.take(j) + s.skip(j));
    lemma_encode_concat(s.take(j), s.skip(j));
}

/// Byte positions grow strictly with the column, and lie within the encoding.
pub proof fn lemma_byte_pos_monotone(s: Seq<char>, i: int, j: int)
    requires
        0 <= i <= j <= s.len(),
    ensures
        byte_pos(s, i) + (j - i) <= byte_pos(s, j),
        byte_pos(s, j) <= utf8_len(s),
    decreases j - i,
{
    lemma_byte_pos_le_len(s, j);
    if i < j {
        lemma_byte_pos_step(s, j - 1);
        lemma_char_width_bounds(s[j - 1]);
        lemma_byte_pos_monotone(s, i, j - 1);
    }
}

/// Two columns with the same byte position are the same column.
pub proof fn lemma_byte_pos_injective(s: Seq<char>, i: int, j: int)
    requires
        0 <= i <= s.len(),
        0 <= j <= s.len(),
        byte_pos(s, i) == byte_pos(s, j),
    ensures
        i == j,
{
    if i < j {
        lemma_byte_pos_monotone(s, i, j);
    } else if j < i {
        lemma_byte_pos_monotone(s, j, i);
    }
}

/// The characters of `s` in order.
pub fn chars_of(s: &str) -> (v: Vec<char>)
    ensures
        v@ == s@,
{
    let mut v: Vec<char> = Vec::new();
    for c in it: s.chars()
        invariant
            v@ == it.seq().take(it.index() as int),
            it.seq() == s@,
    {
        v.push(c);
    }
    v
}

/// `str::len`: the number of bytes of `s`, which is the length of its UTF-8
/// encoding. No `str` spans more than `isize::MAX` bytes (the bound that
/// `slice::from_raw_parts` documents for every slice), so the count is exact.
#[verifier::external_body]
pub(crate) fn str_byte_len(s: &str) -> (n: usize)
    ensures
        n == utf8_len(s@),
        n <= isize::MAX,
{
    s.len()
}

/// Number of characters of `s`, together with the fact that it is at most
/// `isize::MAX`.
pub fn char_count(s: &str) -> (n: usize)
    ensures
        n == s@.len(),
        n <= isize::MAX,
{
    let total = str_byte_len(s);
    proof {
        assert(s@.take(0) =~= Seq::<char>::empty());
        lemma_byte_pos_monotone(s@, 0, s@.len() as int);
    }
    let v = chars_of(s);
    v.len()
}

/// Number of bytes that `c` takes in UTF-8.
pub fn utf8_width(c: char) -> (w: usize)
    ensures
        w == char_width(c),
{
    let v = c as u32;
    if v <= 0x7F {
        1
    } else if v <= 0x7FF {
        2
    } else if v <= 0xFFFF {
        3
    } else {
        4
    }
}

/// Byte position of the character column `char_idx` of `line`, or the byte
/// length of `line` when the column lies past its end.
pub fn char_to_byte(line: &str, char_idx: usize) -> (b: usize)
    ensures
        char_idx <= line@.len() ==> b == byte_pos(line@, char_idx as int),
        char_idx > line@.len() ==> b == utf8_len(line@),
{
    let total = str_byte_len(line);
    let ghost s = line@;
    let mut acc: usize = 0;
    let mut i: usize = 0;
    assert(s.take(0) =~= Seq::<char>::empty());
    for c in it: line.chars()
        invariant
            s == line@,
            it.seq() == s,
            i == it.index(),
            i <= char_idx,
            acc == byte_pos(s, i as int),
            total == utf8_len(s),
    {
        if i == char_idx {
            return acc;
        }
        proof {
            lemma_byte_pos_step(s, i as int);
            lemma_byte_pos_monotone(s, i + 1, s.len() as int);
        }
        acc = acc + utf8_width(c);
        i = i + 1;
    }
    assert(s.take(s.len() as int) =~= s);
    acc
}

/// Column of `line` whose byte position is `byte_idx`.
pub fn byte_to_char(line: &str, byte_idx: usize) -> (k: usize)
    requires
        is_char_pos(line@, byte_idx as int),
    ensures
        k <= line@.len(),
        byte_pos(line@, k as int) == byte_idx,
{
    let total = str_byte_len(line);
    let ghost s = line@;
    let mut acc: usize = 0;
    let mut i: usize = 0;
    assert(s.take(0) =~= Seq::<char>::empty());
    for c in it: line.chars()
        invariant
            s == line@,
            it.seq() == s,
            i == it.index(),
            acc == byte_pos(s, i as int),
            total == utf8_len(s),
            is_char_pos(s, byte_idx as int),
            forall|j: int| 0 <= j < i ==> byte_pos(s, j) != byte_idx,
    {
        if acc == byte_idx {
            return i;
        }
        proof {
            lemma_byte_pos_step(s, i as int);
            lemma_byte_pos_monotone(s, i + 1, s.len() as int);
            lemma_byte_pos_monotone(s, 0, i + 1);
        }
        acc = acc + utf8_width(c);
        i = i + 1;
    }
    proof {
        let k = choose|k: int| 0 <= k <= s.len() && #[trigger] byte_pos(s, k) == byte_idx;
        assert(k == s.len());
    }
    i
}

/// The characters of `s` from `k` on are those of `q`, for `|q|` characters.
fn matches_here(s: &Vec<char>, q: &Vec<char>, k: usize) -> (r: bool)
    requires
        k + q@.len() <= s@.len(),
    ensures
        r == (s@.subrange(k as int, k + q@.len()) == q@),
{
    let sl = s.len();
    let mut j: usize = 0;
    while j < q.len()
        invariant
            sl == s@.len(),
            k + q@.len() <= s@.len(),
            j <= q@.len(),
            forall|i: int| 0 <= i < j ==> s@[k + i] == q@[i],
        decreases q@.len() - j,
    {
        if s[k + j] != q[j] {
            assert(s@.subrange(k as int, k + q@.len())[j as int] != q@[j as int]);
            return false;
        }
        j = j + 1;
    }
    assert(s@.subrange(k as int, k + q@.len()) =~= q@);
    true
}

/// First column in `from..` at which `q` occurs wholly before column `to`.
pub fn find_chars(s: &Vec<char>, q: &Vec<char>, from: usize, to: usize) -> (r: Option<usize>)
    requires
        to <= s@.len(),
    ensures
        match first_match(s@, q@, from as int, to as int) {
            Some(k) => r is Some && r->0 == k,
            None => r is None,
        },
{
    let mut k = from;
    while k <= to && q.len() <= to - k
        invariant
            to <= s@.len(),
            from <= k,
            first_match(s@, q@, from as int, to as int) == first_match(s@, q@, k as int, to as int),
        decreases to + 1 - k,
    {
        if matches_here(s, q, k) {
            return Some(k);
        }
        if q.len() == 0 {
            assert(s@.subrange(k as int, k as int) =~= q@);
        }
        k = k + 1;
    }
    None
}

/// Last column at or after `from` at which `q` occurs wholly before column `to`.
pub fn rfind_chars(s: &Vec<char>, q: &Vec<char>, from: usize, to: usize) -> (r: Option<usize>)
    requires
        to <= s@.len(),
    ensures
        match last_match(s@, q@, from as int, to as int) {
            Some(k) => r is Some && r->0 == k,
            None => r is None,
        },
{
    let mut end = to;
    while q.len() <= end && from <= end - q.len()
        invariant
            to <= s@.len(),
            end <= to,
            last_match(s@, q@, from as int, to as int) == last_match(s@, q@, from as int, end as int),
        decreases end,
    {
        if matches_here(s, q, end - q.len()) {
            return Some(end - q.len());
        }
        if end == 0 {
            assert(s@.subrange(0, 0) =~= q@);
        }
        end = end - 1;
    }
    None
}

/// Byte position of the first occurrence of `query` in `line` at or after the
/// character column `char_start` (the end of the line, when the column lies
/// past it).
pub fn byte_offset_search(line: &str, char_start: usize, query: &str) -> (r: Option<usize>)
    ensures
        match first_match(
            line@,
            query@,
            if char_start <= line@.len() { char_start as int } else { line@.len() as int },
            line@.len() as int,
        ) {
            Some(k) => r is Some && r->0 == byte_pos(line@, k),
            None => r is None,
        },
{
    let s = chars_of(line);
    let q = chars_of(query);
    let start = if char_start <= s.len() { char_start } else { s.len() };
    match find_chars(&s, &q, start, s.len()) {
        Some(k) => {
            proof {
                lemma_first_match_bounds(s@, q@, start as int, s@.len() as int);
            }
            Some(char_to_byte(line, k))
        },
        None => None,
    }
}

/// A match found by `first_match` lies in the searched window and is a real
/// occurrence, and no earlier column of the window holds one.
pub proof fn lemma_first_match_bounds(s: Seq<char>, q: Seq<char>, from: int, to: int)
    ensures
        first_match(s, q, from, to) matches Some(k) ==> {
            &&& from <= k
            &&& k + q.len() <= to
            &&& occurs_at(s, q, k)
            &&& forall|j: int| from <= j < k ==> !occurs_at(s, q, j)
        },
        first_match(s, q, from, to) is None && 0 <= from ==> forall|j: int|
            from <= j && j + q.len() <= to && to <= s.len() ==> !occurs_at(s, q, j),
    decreases to - from + 1,
{
    if from < 0 || from + q.len() > to || to > s.len() {
    } else if s.subrange(from, from + q.len()) == q {
    } else {
        lemma_first_match_bounds(s, q, from + 1, to);
    }
}

/// A match found by `last_match` lies in the searched window and is a real
/// occurrence, and no later column of the window holds one.
pub proof fn lemma_last_match_bounds(s: Seq<char>, q: Seq<char>, from: int, to: int)
    ensures
        last_match(s, q, from, to) matches Some(k) ==> {
            &&& from <= k
            &&& k + q.len() <= to
            &&& occurs_at(s, q, k)
            &&& forall|j: int| k < j && j + q.len() <= to ==> !occurs_at(s, q, j)
        },
        last_match(s, q, from, to) is None && 0 <= from ==> forall|j: int|
            from <= j && j + q.len() <= to && to <= s.len() ==> !occurs_at(s, q, j),
    decreases to - from + 1,
{
    if from < 0 || to - q.len() < from || to > s.len() {
    } else if s.subrange(to - q.len(), to) == q {
    } else {
        lemma_last_match_bounds(s, q, from, to - 1);
    }
}

} // verus!
