//! Character-level text helpers shared by the rest of the library.
//!
//! Every function is specified over `Seq<char>`, the view of `str` and
//! `String`, so that callers can state exactly which text they produce.

use vstd::prelude::*;

verus! {

/// `String::push` appends exactly one character.
pub assume_specification[ String::push ](s: &mut String, c: char)
    ensures
        final(s)@ == old(s)@.push(c),
;

/// The characters of `s`, in order.
pub fn chars_of(s: &str) -> (out: Vec<char>)
    ensures
        out@ == s@,
{
    let mut out: Vec<char> = Vec::new();
    for c in it: s.chars()
        invariant
            it.seq() == s@,
            out@ == s@.take(it.index()),
    {
        out.push(c);
    }
    out
}

/// The string made of the characters of `v`, in order.
pub fn string_of(v: &Vec<char>) -> (out: String)
    ensures
        out@ == v@,
{
    let mut out = String::new();
    let mut i: usize = 0;
    while i < v.len()
        invariant
            i <= v.len(),
            out@ == v@.take(i as int),
        decreases v.len() - i,
    {
        out.push(v[i]);
        i = i + 1;
    }
    out
}

/// Appends the characters of `src` to `dst`.
pub fn push_all(dst: &mut Vec<char>, src: &Vec<char>)
    ensures
        final(dst)@ == old(dst)@ + src@,
{
    let mut i: usize = 0;
    while i < src.len()
        invariant
            i <= src.len(),
            dst@ == old(dst)@ + src@.take(i as int),
        decreases src.len() - i,
    {
        dst.push(src[i]);
        i = i + 1;
    }
}

/// Appends the characters of the string `src` to `dst`.
pub fn push_str(dst: &mut Vec<char>, src: &str)
    ensures
        final(dst)@ == old(dst)@ + src@,
{
    let chars = chars_of(src);
    push_all(dst, &chars);
}

/// The characters of `v` from index `from` up to, not including, `to`.
pub fn slice_of(v: &Vec<char>, from: usize, to: usize) -> (out: Vec<char>)
    requires
        from <= to <= v.len(),
    ensures
        out@ == v@.subrange(from as int, to as int),
{
    let mut out: Vec<char> = Vec::new();
    let mut i: usize = from;
    while i < to
        invariant
            from <= i <= to,
            to <= v.len(),
            out@ == v@.subrange(from as int, i as int),
        decreases to - i,
    {
        out.push(v[i]);
        i = i + 1;
    }
    out
}

/// Whether two character vectors hold the same text.
pub fn same_chars(a: &Vec<char>, b: &Vec<char>) -> (eq: bool)
    ensures
        eq == (a@ == b@),
{
    if a.len() != b.len() {
        return false;
    }
    let mut i: usize = 0;
    while i < a.len()
        invariant
            i <= a.len(),
            a.len() == b.len(),
            a@.take(i as int) == b@.take(i as int),
        decreases a.len() - i,
    {
        if a[i] != b[i] {
            return false;
        }
        assert(a@.take(i + 1) == a@.take(i as int).push(a@[i as int]));
        assert(b@.take(i + 1) == b@.take(i as int).push(b@[i as int]));
        i = i + 1;
    }
    assert(a@.take(a.len() as int) == a@);
    assert(b@.take(b.len() as int) == b@);
    true
}

/// Whether two strings hold the same text.
pub fn same_text(a: &str, b: &str) -> (eq: bool)
    ensures
        eq == (a@ == b@),
{
    let x = chars_of(a);
    let y = chars_of(b);
    same_chars(&x, &y)
}

/// `s` with every occurrence of `from` replaced by `to`.
pub open spec fn replaced(s: Seq<char>, from: char, to: char) -> Seq<char> {
    Seq::new(s.len(), |i: int| if s[i] == from { to } else { s[i] })
}

/// Replaces every occurrence of `from` in `v` by `to`.
pub fn replace_char(v: &Vec<char>, from: char, to: char) -> (out: Vec<char>)
    ensures
        out@ == replaced(v@, from, to),
{
    let mut out: Vec<char> = Vec::new();
    let mut i: usize = 0;
    while i < v.len()
        invariant
            i <= v.len(),
            out@ == replaced(v@, from, to).take(i as int),
        decreases v.len() - i,
    {
        let c = v[i];
        if c == from {
            out.push(to);
        } else {
            out.push(c);
        }
        i = i + 1;
    }
    out
}

/// Index of the first occurrence of `c` in `s`, or `s.len()` when `c` does
/// not occur.
pub open spec fn first_index(s: Seq<char>, c: char) -> int
    decreases s.len(),
{
    if s.len() == 0 {
        0
    } else if s[0] == c {
        0
    } else {
        1 + first_index(s.drop_first(), c)
    }
}

/// `first_index` is the least index holding `c`, and the length otherwise.
pub proof fn lemma_first_index(s: Seq<char>, c: char)
    ensures
        0 <= first_index(s, c) <= s.len(),
        forall|j: int| 0 <= j < first_index(s, c) ==> s[j] != c,
        first_index(s, c) < s.len() ==> s[first_index(s, c)] == c,
    decreases s.len(),
{
    if s.len() > 0 && s[0] != c {
        let rest = s.drop_first();
        lemma_first_index(rest, c);
        assert forall|j: int| 0 <= j < first_index(s, c) implies s[j] != c by {
            if j > 0 {
                assert(rest[j - 1] == s[j]);
            }
        }
    }
}

/// An index `i` with no `c` before it and either `c` at `i` or `i` at the
/// end is the first index of `c`.
pub proof fn lemma_first_index_unique(s: Seq<char>, c: char, i: int)
    requires
        0 <= i <= s.len(),
        forall|j: int| 0 <= j < i ==> s[j] != c,
        i < s.len() ==> s[i] == c,
    ensures
        first_index(s, c) == i,
{
    lemma_first_index(s, c);
}

/// Finds the first occurrence of `c` at or after `from`.
pub fn find_from(v: &Vec<char>, from: usize, c: char) -> (at: usize)
    requires
        from <= v.len(),
    ensures
        at == from + first_index(v@.skip(from as int), c),
        from <= at <= v.len(),
{
    let mut i: usize = from;
    while i < v.len() && v[i] != c
        invariant
            from <= i <= v.len(),
            forall|j: int| from <= j < i ==> v@[j] != c,
        decreases v.len() - i,
    {
        i = i + 1;
    }
    proof {
        let tail = v@.skip(from as int);
        assert forall|j: int| 0 <= j < i - from implies tail[j] != c by {
            assert(tail[j] == v@[from + j]);
        }
        lemma_first_index_unique(tail, c, i - from);
    }
    i
}

/// Whether `p` is the beginning of `v`.
pub fn starts_with(v: &Vec<char>, p: &Vec<char>) -> (yes: bool)
    ensures
        yes == p@.is_prefix_of(v@),
{
    if p.len() > v.len() {
        return false;
    }
    let head = slice_of(v, 0, p.len());
    same_chars(&head, p)
}

/// Whether `p` is the end of `v`.
pub fn ends_with(v: &Vec<char>, p: &Vec<char>) -> (yes: bool)
    ensures
        yes == p@.is_suffix_of(v@),
{
    if p.len() > v.len() {
        return false;
    }
    let tail = slice_of(v, v.len() - p.len(), v.len());
    same_chars(&tail, p)
}

/// Whether `p` occurs in `s` starting at index `i`.
pub open spec fn occurs_at(s: Seq<char>, p: Seq<char>, i: int) -> bool {
    0 <= i && i + p.len() <= s.len() && s.subrange(i, i + p.len()) == p
}

/// Whether `p` occurs somewhere in `s` as a contiguous run.
pub open spec fn has_substring(s: Seq<char>, p: Seq<char>) -> bool {
    exists|i: int| occurs_at(s, p, i)
}

/// Whether `p` occurs somewhere in `v`.
pub fn contains(v: &Vec<char>, p: &Vec<char>) -> (yes: bool)
    ensures
        yes == has_substring(v@, p@),
{
    if p.len() > v.len() {
        assert(forall|i: int| !occurs_at(v@, p@, i));
        return false;
    }
    let last: usize = v.len() - p.len();
    let mut i: usize = 0;
    loop
        invariant
            i <= last,
            last == v.len() - p.len(),
            forall|j: int| 0 <= j < i ==> !occurs_at(v@, p@, j),
        decreases last - i,
    {
        let window = slice_of(v, i, i + p.len());
        if same_chars(&window, p) {
            assert(occurs_at(v@, p@, i as int));
            return true;
        }
        if i == last {
            assert(forall|j: int| !occurs_at(v@, p@, j));
            return false;
        }
        i = i + 1;
    }
}

/// The pieces of `s` between occurrences of `sep`; a text without `sep`
/// is a single piece, and the empty text is one empty piece.
pub open spec fn split_on(s: Seq<char>, sep: char) -> Seq<Seq<char>>
    decreases s.len(),
{
    let i = first_index(s, sep);
    if i < 0 || i >= s.len() {
        seq![s]
    } else {
        seq![s.take(i)] + split_on(s.skip(i + 1), sep)
    }
}

/// The texts held by a sequence of character vectors.
pub open spec fn rows(v: Seq<Vec<char>>) -> Seq<Seq<char>> {
    Seq::new(v.len(), |i: int| v[i]@)
}

/// The texts held by a sequence of strings.
pub open spec fn texts(v: Seq<String>) -> Seq<Seq<char>> {
    Seq::new(v.len(), |i: int| v[i]@)
}

/// Splits `v` at every occurrence of `sep`.
pub fn split(v: &Vec<char>, sep: char) -> (out: Vec<Vec<char>>)
    ensures
        rows(out@) == split_on(v@, sep),
        out.len() >= 1,
{
    let mut out: Vec<Vec<char>> = Vec::new();
    let mut start: usize = 0;
    proof {
        assert(v@.skip(0) == v@);
        assert(rows(out@) + split_on(v@, sep) == split_on(v@, sep));
    }
    loop
        invariant
            start <= v.len(),
            split_on(v@, sep) == rows(out@) + split_on(v@.skip(start as int), sep),
        decreases v.len() - start,
    {
        let at = find_from(v, start, sep);
        let piece = slice_of(v, start, at);
        let ghost before = rows(out@);
        let ghost tail = v@.skip(start as int);
        out.push(piece);
        proof {
            lemma_first_index(tail, sep);
            assert(tail.take(at - start) == v@.subrange(start as int, at as int));
            assert(rows(out@) == before + seq![tail.take(at - start)]);
        }
        if at == v.len() {
            proof {
                assert(split_on(tail, sep) == seq![tail]);
                assert(tail.take(at - start) == tail);
            }
            return out;
        }
        proof {
            assert(tail.skip(at - start + 1) == v@.skip(at + 1));
            assert(split_on(tail, sep) == seq![tail.take(at - start)] + split_on(
                v@.skip(at + 1),
                sep,
            ));
        }
        start = at + 1;
    }
}

/// The pieces of `parts` written one after another with `sep` between
/// neighbours.
pub open spec fn joined(parts: Seq<Seq<char>>, sep: Seq<char>) -> Seq<char>
    decreases parts.len(),
{
    if parts.len() == 0 {
        Seq::empty()
    } else if parts.len() == 1 {
        parts[0]
    } else {
        joined(parts.drop_last(), sep) + sep + parts.last()
    }
}

/// Joins the strings of `parts` with `sep` between neighbours.
pub fn join(parts: &Vec<String>, sep: &str) -> (out: String)
    ensures
        out@ == joined(texts(parts@), sep@),
{
    let mut acc: Vec<char> = Vec::new();
    let mut i: usize = 0;
    while i < parts.len()
        invariant
            i <= parts.len(),
            acc@ == joined(texts(parts@).take(i as int), sep@),
        decreases parts.len() - i,
    {
        let ghost prefix = texts(parts@).take(i as int);
        let ghost next = texts(parts@).take(i + 1);
        proof {
            assert(next.drop_last() == prefix);
            assert(next.last() == parts@[i as int]@);
        }
        if i > 0 {
            push_str(&mut acc, sep);
        } else {
            assert(prefix.len() == 0);
            assert(acc@ + parts@[i as int]@ == parts@[i as int]@);
        }
        push_str(&mut acc, parts[i].as_str());
        i = i + 1;
    }
    assert(texts(parts@).take(parts.len() as int) == texts(parts@));
    string_of(&acc)
}

/// The character of the decimal digit `d`.
pub open spec fn digit_char(d: int) -> char {
    if d == 0 {
        '0'
    } else if d == 1 {
        '1'
    } else if d == 2 {
        '2'
    } else if d == 3 {
        '3'
    } else if d == 4 {
        '4'
    } else if d == 5 {
        '5'
    } else if d == 6 {
        '6'
    } else if d == 7 {
        '7'
    } else if d == 8 {
        '8'
    } else {
        '9'
    }
}

/// The decimal numeral of `n`, without leading zeros.
pub open spec fn decimal(n: nat) -> Seq<char>
    decreases n,
{
    if n < 10 {
        seq![digit_char(n as int)]
    } else {
        decimal(n / 10).push(digit_char((n % 10) as int))
    }
}

/// The decimal numeral of a possibly negative number.
pub open spec fn signed_decimal(n: int) -> Seq<char> {
    if n < 0 {
        seq!['-'] + decimal((-n) as nat)
    } else {
        decimal(n as nat)
    }
}

fn digit(d: u128) -> (c: char)
    requires
        d < 10,
    ensures
        c == digit_char(d as int),
{
    if d == 0 {
        '0'
    } else if d == 1 {
        '1'
    } else if d == 2 {
        '2'
    } else if d == 3 {
        '3'
    } else if d == 4 {
        '4'
    } else if d == 5 {
        '5'
    } else if d == 6 {
        '6'
    } else if d == 7 {
        '7'
    } else if d == 8 {
        '8'
    } else {
        '9'
    }
}

/// Writes `n` in decimal.
pub fn decimal_digits(n: u128) -> (out: Vec<char>)
    ensures
        out@ == decimal(n as nat),
    decreases n,
{
    if n < 10 {
        let mut out: Vec<char> = Vec::new();
        out.push(digit(n));
        out
    } else {
        let mut out = decimal_digits(n / 10);
        out.push(digit(n % 10));
        out
    }
}

/// Writes a possibly negative number in decimal.
pub fn signed_decimal_digits(n: i64) -> (out: Vec<char>)
    ensures
        out@ == signed_decimal(n as int),
{
    if n < 0 {
        let magnitude: u128 = if n == i64::MIN {
            9223372036854775808u128
        } else {
            (-n) as u128
        };
        let mut out: Vec<char> = Vec::new();
        out.push('-');
        let digits = decimal_digits(magnitude);
        push_all(&mut out, &digits);
        out
    } else {
        decimal_digits(n as u128)
    }
}

/// A decimal numeral is never empty, and has one character exactly for the
/// numbers below ten.
pub proof fn lemma_decimal_len(n: nat)
    ensures
        decimal(n).len() >= 1,
        n >= 10 ==> decimal(n).len() >= 2,
    decreases n,
{
    if n >= 10 {
        lemma_decimal_len(n / 10);
    }
}

/// Different numbers have different decimal numerals.
pub proof fn lemma_decimal_injective(a: nat, b: nat)
    requires
        decimal(a) == decimal(b),
    ensures
        a == b,
    decreases a,
{
    lemma_decimal_len(a);
    lemma_decimal_len(b);
    if a < 10 || b < 10 {
        assert(decimal(a).len() == 1);
        assert(a < 10 && b < 10);
        assert(decimal(a)[0] == digit_char(a as int));
        assert(decimal(b)[0] == digit_char(b as int));
    } else {
        let da = decimal(a / 10);
        let db = decimal(b / 10);
        assert(decimal(a).drop_last() == da);
        assert(decimal(b).drop_last() == db);
        assert(decimal(a).last() == digit_char((a % 10) as int));
        assert(decimal(b).last() == digit_char((b % 10) as int));
        lemma_decimal_injective(a / 10, b / 10);
    }
}

/// Whether `c` is white space: a character with the Unicode property
/// White_Space.
pub open spec fn is_white_space(c: char) -> bool {
    let n = c as u32;
    (0x9 <= n && n <= 0xD) || n == 0x20 || n == 0x85 || n == 0xA0 || n == 0x1680 || (0x2000 <= n
        && n <= 0x200A) || n == 0x2028 || n == 0x2029 || n == 0x202F || n == 0x205F || n
        == 0x3000
}

/// `s` without the white space at its beginning.
pub open spec fn without_leading_space(s: Seq<char>) -> Seq<char>
    decreases s.len(),
{
    if s.len() > 0 && is_white_space(s[0]) {
        without_leading_space(s.drop_first())
    } else {
        s
    }
}

/// `s` without the white space at its end.
pub open spec fn without_trailing_space(s: Seq<char>) -> Seq<char>
    decreases s.len(),
{
    if s.len() > 0 && is_white_space(s.last()) {
        without_trailing_space(s.drop_last())
    } else {
        s
    }
}

/// `s` without the white space at its beginning and at its end.
pub open spec fn trimmed(s: Seq<char>) -> Seq<char> {
    without_trailing_space(without_leading_space(s))
}

/// Whether `c` is white space.
pub fn white_space(c: char) -> (yes: bool)
    ensures
        yes == is_white_space(c),
{
    let n = c as u32;
    (0x9 <= n && n <= 0xD) || n == 0x20 || n == 0x85 || n == 0xA0 || n == 0x1680 || (0x2000 <= n
        && n <= 0x200A) || n == 0x2028 || n == 0x2029 || n == 0x202F || n == 0x205F || n
        == 0x3000
}

/// The text of `s` without the white space at its beginning and at its
/// end.
pub fn trim_text(s: &str) -> (out: String)
    ensures
        out@ == trimmed(s@),
{
    let v = chars_of(s);
    let mut start: usize = 0;
    assert(v@.skip(0) == v@);
    while start < v.len() && white_space(v[start])
        invariant
            start <= v.len(),
            without_leading_space(v@) == without_leading_space(v@.skip(start as int)),
        decreases v.len() - start,
    {
        proof {
            assert(v@.skip(start as int).drop_first() == v@.skip(start + 1));
        }
        start = start + 1;
    }
    let rest = slice_of(&v, start, v.len());
    assert(rest@ == v@.skip(start as int));
    let mut end: usize = rest.len();
    assert(rest@.take(end as int) == rest@);
    while end > 0 && white_space(rest[end - 1])
        invariant
            end <= rest.len(),
            without_trailing_space(rest@) == without_trailing_space(rest@.take(end as int)),
        decreases end,
    {
        proof {
            assert(rest@.take(end as int).drop_last() == rest@.take(end - 1));
        }
        end = end - 1;
    }
    let kept = slice_of(&rest, 0, end);
    assert(kept@ == rest@.take(end as int));
    string_of(&kept)
}

} // verus!
