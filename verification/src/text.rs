//! Text building blocks: decimal rendering, concatenation, joining,
//! searching and splitting, each stated over the character view of a string.
use vstd::prelude::*;
use vstd::string::StringSliceAdditionalSpecFns;

verus! {

/// The character of a decimal digit.
pub open spec fn digit_char(d: nat) -> char {
    if d == 0 { '0' }
    else if d == 1 { '1' }
    else if d == 2 { '2' }
    else if d == 3 { '3' }
    else if d == 4 { '4' }
    else if d == 5 { '5' }
    else if d == 6 { '6' }
    else if d == 7 { '7' }
    else if d == 8 { '8' }
    else { '9' }
}

/// The decimal digits of a natural number, most significant first,
/// without leading zeros (zero itself is "0").
pub open spec fn decimal_digits(n: nat) -> Seq<char>
    decreases n,
{
    if n < 10 {
        seq![digit_char(n)]
    } else {
        decimal_digits(n / 10).push(digit_char(n % 10))
    }
}

/// The decimal rendering of an integer, with a leading '-' when negative.
pub open spec fn decimal(n: int) -> Seq<char> {
    if n < 0 {
        seq!['-'] + decimal_digits((-n) as nat)
    } else {
        decimal_digits(n as nat)
    }
}

fn digit_str(d: u64) -> (r: &'static str)
    requires
        d < 10,
    ensures
        r@ == seq![digit_char(d as nat)],
{
    proof {
        reveal_strlit("0");
        reveal_strlit("1");
        reveal_strlit("2");
        reveal_strlit("3");
        reveal_strlit("4");
        reveal_strlit("5");
        reveal_strlit("6");
        reveal_strlit("7");
        reveal_strlit("8");
        reveal_strlit("9");
    }
    if d == 0 { "0" }
    else if d == 1 { "1" }
    else if d == 2 { "2" }
    else if d == 3 { "3" }
    else if d == 4 { "4" }
    else if d == 5 { "5" }
    else if d == 6 { "6" }
    else if d == 7 { "7" }
    else if d == 8 { "8" }
    else { "9" }
}

/// The number that a sequence of decimal digit characters spells.
pub open spec fn digits_value(s: Seq<char>) -> int
    decreases s.len(),
{
    if s.len() == 0 {
        0
    } else {
        digits_value(s.drop_last()) * 10 + (s.last() as int - '0' as int)
    }
}

/// The decimal digits of `n` are digit characters, start with a non-zero digit
/// (unless `n` is zero, written "0"), and spell `n`.
pub proof fn lemma_decimal_digits_spell(n: nat)
    ensures
        decimal_digits(n).len() >= 1,
        forall|i: int| 0 <= i < decimal_digits(n).len() ==> '0' <= #[trigger] decimal_digits(n)[i] <= '9',
        n == 0 ==> decimal_digits(n) == seq!['0'],
        n != 0 ==> decimal_digits(n)[0] != '0',
        digits_value(decimal_digits(n)) == n,
    decreases n,
{
    if n < 10 {
        assert(decimal_digits(n).drop_last() =~= Seq::<char>::empty());
        assert(digits_value(Seq::<char>::empty()) == 0);
    } else {
        lemma_decimal_digits_spell(n / 10);
        let d = decimal_digits(n);
        assert(d.drop_last() =~= decimal_digits(n / 10));
        assert(d[0] == decimal_digits(n / 10)[0]);
    }
}

/// The decimal rendering of an integer is its digits, after a '-' when negative.
pub proof fn lemma_decimal_spells(n: int)
    ensures
        n >= 0 ==> digits_value(decimal(n)) == n && decimal(n)[0] != '-',
        n < 0 ==> decimal(n)[0] == '-' && digits_value(decimal(n).skip(1)) == -n,
{
    if n >= 0 {
        lemma_decimal_digits_spell(n as nat);
        assert(decimal(n)[0] >= '0');
    } else {
        lemma_decimal_digits_spell((-n) as nat);
        assert(decimal(n).skip(1) =~= decimal_digits((-n) as nat));
    }
}

/// Renders an unsigned number in decimal.
pub fn u64_to_decimal(n: u64) -> (r: String)
    ensures
        r@ == decimal_digits(n as nat),
    decreases n,
{
    if n < 10 {
        String::from_str(digit_str(n))
    } else {
        let mut s = u64_to_decimal(n / 10);
        s.append(digit_str(n % 10));
        s
    }
}

/// Renders a signed number in decimal, as `Display` does.
pub fn i64_to_decimal(n: i64) -> (r: String)
    ensures
        r@ == decimal(n as int),
{
    if n < 0 {
        let magnitude: u64 = ((-(n + 1)) as u64) + 1;
        let mut s = String::from_str("-");
        proof {
            reveal_strlit("-");
        }
        let digits = u64_to_decimal(magnitude);
        s.append(digits.as_str());
        s
    } else {
        u64_to_decimal(n as u64)
    }
}

/// Concatenation of two string slices into a new string.
pub fn concatenate(a: &str, b: &str) -> (r: String)
    ensures
        r@ == a@ + b@,
{
    let mut s = String::from_str(a);
    s.append(b);
    s
}

/// The parts joined, with `sep` between each two neighbours.
pub open spec fn seq_join(parts: Seq<Seq<char>>, sep: Seq<char>) -> Seq<char>
    decreases parts.len(),
{
    if parts.len() == 0 {
        Seq::empty()
    } else if parts.len() == 1 {
        parts[0]
    } else {
        seq_join(parts.drop_last(), sep) + sep + parts.last()
    }
}

/// Joining one part gives that part; adding a part to a non-empty list appends the
/// separator and the part; joining nothing gives nothing.
pub proof fn lemma_seq_join_appends(parts: Seq<Seq<char>>, sep: Seq<char>, x: Seq<char>)
    ensures
        seq_join(Seq::empty(), sep) == Seq::<char>::empty(),
        seq_join(seq![x], sep) == x,
        parts.len() > 0 ==> seq_join(parts.push(x), sep) == seq_join(parts, sep) + sep + x,
{
    assert(seq![x].len() == 1);
    assert(parts.push(x).drop_last() =~= parts);
}

/// The character views of a vector of strings.
pub open spec fn views(v: Seq<String>) -> Seq<Seq<char>> {
    v.map_values(|s: String| s@)
}

/// Joins the strings with `sep` between neighbours, as `[String]::join` does.
pub fn join(parts: &Vec<String>, sep: &str) -> (r: String)
    ensures
        r@ == seq_join(views(parts@), sep@),
{
    let mut res = String::new();
    let ghost all = views(parts@);
    let n = parts.len();
    let mut i: usize = 0;
    while i < n
        invariant
            n == parts@.len(),
            all == views(parts@),
            0 <= i <= n,
            res@ == seq_join(all.take(i as int), sep@),
        decreases n - i,
    {
        if i != 0 {
            res.append(sep);
        }
        res.append(parts[i].as_str());
        assert(all.take((i + 1) as int).drop_last() =~= all.take(i as int));
        assert(all.take((i + 1) as int).last() == parts@[i as int]@);
        if i == 0 {
            assert(all.take(0) =~= Seq::<Seq<char>>::empty());
            assert(res@ =~= all.take(1)[0]);
        }
        i = i + 1;
    }
    assert(all.take(n as int) =~= all);
    res
}


/// The index of the first space byte, or the length when there is none.
pub open spec fn space_index(q: Seq<u8>) -> int
    decreases q.len(),
{
    if q.len() == 0 {
        0
    } else if q[0] == 32u8 {
        0
    } else {
        1 + space_index(q.drop_first())
    }
}

/// The bytes before the first space: the first item of splitting on ' '.
pub open spec fn first_word(q: Seq<u8>) -> Seq<u8> {
    q.take(space_index(q))
}

/// `needle` occurs in `hay` starting at byte `i`.
pub open spec fn occurs_at(hay: Seq<u8>, needle: Seq<u8>, i: int) -> bool {
    0 <= i && i + needle.len() <= hay.len() && hay.subrange(i, i + needle.len()) == needle
}

/// The first position at or after `i` where `needle` occurs in `hay`.
pub open spec fn find_from(hay: Seq<u8>, needle: Seq<u8>, i: int) -> Option<int>
    decreases hay.len() + 1 - i,
{
    if i + needle.len() > hay.len() {
        None
    } else if occurs_at(hay, needle, i) {
        Some(i)
    } else {
        find_from(hay, needle, i + 1)
    }
}

/// The first byte position where `needle` occurs in `hay`, as `str::find` gives it.
pub open spec fn find_bytes(hay: Seq<u8>, needle: Seq<u8>) -> Option<int> {
    find_from(hay, needle, 0)
}

proof fn lemma_space_index_bounds(q: Seq<u8>)
    ensures
        0 <= space_index(q) <= q.len(),
        space_index(q) < q.len() ==> q[space_index(q)] == 32u8,
        forall|j: int| 0 <= j < space_index(q) ==> q[j] != 32u8,
    decreases q.len(),
{
    if q.len() > 0 && q[0] != 32u8 {
        lemma_space_index_bounds(q.drop_first());
        assert forall|j: int| 0 <= j < space_index(q) implies q[j] != 32u8 by {
            if j > 0 {
                assert(q[j] == q.drop_first()[j - 1]);
            }
        }
    }
}

/// A found position is an occurrence, at or after the starting point.
pub proof fn lemma_find_from_found(hay: Seq<u8>, needle: Seq<u8>, i: int)
    ensures
        find_from(hay, needle, i) matches Some(p) ==> p >= i && occurs_at(hay, needle, p),
    decreases hay.len() + 1 - i,
{
    if i + needle.len() <= hay.len() && !occurs_at(hay, needle, i) {
        lemma_find_from_found(hay, needle, i + 1);
    }
}

/// `find_bytes` gives the first occurrence: a found position is an occurrence with
/// no occurrence before it, and nothing is found only when `needle` occurs nowhere.
pub proof fn lemma_find_bytes_is_first_occurrence(hay: Seq<u8>, needle: Seq<u8>)
    ensures
        find_bytes(hay, needle) matches Some(p) ==> occurs_at(hay, needle, p) && forall|j: int|
            0 <= j < p ==> !occurs_at(hay, needle, j),
        find_bytes(hay, needle) is None ==> forall|j: int| !occurs_at(hay, needle, j),
{
    lemma_find_from_first(hay, needle, 0);
}

proof fn lemma_find_from_first(hay: Seq<u8>, needle: Seq<u8>, i: int)
    requires
        0 <= i,
    ensures
        find_from(hay, needle, i) matches Some(p) ==> i <= p && occurs_at(hay, needle, p) && forall|j: int|
            i <= j < p ==> !occurs_at(hay, needle, j),
        find_from(hay, needle, i) is None ==> forall|j: int| i <= j ==> !occurs_at(hay, needle, j),
    decreases hay.len() + 1 - i,
{
    if i + needle.len() <= hay.len() && !occurs_at(hay, needle, i) {
        lemma_find_from_first(hay, needle, i + 1);
        assert forall|j: int| i <= j && find_from(hay, needle, i + 1) is None implies !occurs_at(hay, needle, j) by {
            if j > i {
            }
        }
    }
}

/// The first word of `q` is its longest prefix free of space bytes: a prefix with
/// no space, either all of `q` or followed by a space.
pub proof fn lemma_first_word_is_longest_free_prefix(q: Seq<u8>)
    ensures
        first_word(q).len() <= q.len(),
        q.take(first_word(q).len() as int) == first_word(q),
        forall|i: int| 0 <= i < first_word(q).len() ==> first_word(q)[i] != 32u8,
        first_word(q).len() == q.len() || q[first_word(q).len() as int] == 32u8,
{
    lemma_space_index_bounds(q);
    assert(first_word(q) =~= q.take(space_index(q)));
}

/// The position of the first space byte in `q`, or its length.
pub fn space_position(q: &[u8]) -> (k: usize)
    ensures
        k == space_index(q@),
        k <= q@.len(),
{
    let n = q.len();
    let mut i: usize = 0;
    assert(q@.skip(0) =~= q@);
    while i < n && q[i] != 32u8
        invariant
            n == q@.len(),
            0 <= i <= n,
            space_index(q@) == i + space_index(q@.skip(i as int)),
        decreases n - i,
    {
        assert(q@.skip(i as int).drop_first() =~= q@.skip(i + 1));
        i = i + 1;
    }
    if i < n {
        assert(q@.skip(i as int)[0] == q@[i as int]);
    } else {
        assert(q@.skip(i as int).len() == 0);
    }
    i
}

fn occurs_at_exec(hay: &[u8], needle: &[u8], n: usize, i: usize) -> (b: bool)
    requires
        n <= needle@.len(),
        i + n <= hay.len(),
    ensures
        b == occurs_at(hay@, needle@.take(n as int), i as int),
{
    let mut j: usize = 0;
    while j < n
        invariant
            n <= needle@.len(),
            i + n <= hay.len(),
            0 <= j <= n,
            forall|t: int| 0 <= t < j ==> hay@[i + t] == needle@[t],
        decreases n - j,
    {
        if hay[i + j] != needle[j] {
            assert(hay@.subrange(i as int, i + n)[j as int] != needle@.take(n as int)[j as int]);
            return false;
        }
        j = j + 1;
    }
    assert(hay@.subrange(i as int, i + n) =~= needle@.take(n as int));
    true
}

/// The first position where the first `n` bytes of `needle` occur in `hay`.
pub fn find_prefix_in(hay: &[u8], needle: &[u8], n: usize) -> (r: Option<usize>)
    requires
        n <= needle@.len(),
    ensures
        r matches Some(p) ==> find_bytes(hay@, needle@.take(n as int)) == Some(p as int),
        r is None ==> find_bytes(hay@, needle@.take(n as int)) is None,
{
    let ghost w = needle@.take(n as int);
    let len = hay.len();
    if n > len {
        return None;
    }
    if n == 0 {
        assert(hay@.subrange(0, 0) =~= w);
        return Some(0);
    }
    let mut i: usize = 0;
    while i <= len - n
        invariant
            n <= needle@.len(),
            1 <= n <= len,
            len == hay@.len(),
            w == needle@.take(n as int),
            0 <= i <= len - n + 1,
            find_bytes(hay@, w) == find_from(hay@, w, i as int),
        decreases len - n + 1 - i,
    {
        if occurs_at_exec(hay, needle, n, i) {
            return Some(i);
        }
        i = i + 1;
    }
    None
}

/// A slice of `s` between two byte positions that fall on character boundaries.
pub fn byte_slice(s: &str, start: usize, end: usize) -> (r: &str)
    requires
        start <= end <= s.spec_bytes().len(),
        vstd::utf8::is_char_boundary(s.spec_bytes(), start as int),
        vstd::utf8::is_char_boundary(s.spec_bytes(), end as int),
    ensures
        r.spec_bytes() == s.spec_bytes().subrange(start as int, end as int),
        r@ == vstd::utf8::decode_utf8(s.spec_bytes().subrange(start as int, end as int)),
{
    broadcast use vstd::utf8::group_utf8_lib;

    let ghost b = s.spec_bytes();
    proof {
        vstd::utf8::encode_utf8_valid_utf8(s@);
    }
    let (head, _) = s.split_at(end);
    assert(head.spec_bytes() =~= b.subrange(0, end as int));
    assert(vstd::utf8::is_char_boundary(head.spec_bytes(), start as int)) by {
        vstd::utf8::valid_utf8_split(b, end as int);
        if start < end {
            assert(head.spec_bytes()[start as int] == b[start as int]);
            vstd::utf8::is_char_boundary_iff_not_is_continuation_byte(b, start as int);
            vstd::utf8::is_char_boundary_iff_not_is_continuation_byte(head.spec_bytes(), start as int);
        } else {
            vstd::utf8::is_char_boundary_start_end_of_seq(head.spec_bytes());
        }
    }
    let (_, piece) = head.split_at(start);
    assert(piece.spec_bytes() =~= b.subrange(start as int, end as int));
    assert(piece@ == vstd::utf8::decode_utf8(vstd::utf8::encode_utf8(piece@)));
    piece
}


/// The characters of a string slice.
pub fn chars_of(s: &str) -> (r: Vec<char>)
    ensures
        r@ == s@,
{
    let mut out: Vec<char> = Vec::new();
    for c in it: s.chars()
        invariant
            it.seq() == s@,
            out@ == it.seq().take(it.index() as int),
    {
        let ghost i = it.index();
        assert(it.seq().take(i + 1) =~= it.seq().take(i as int).push(c));
        out.push(c);
    }
    assert(s@.take(s@.len() as int) =~= s@);
    out
}


/// The index of the first `c` in `s`, or its length when there is none.
pub open spec fn char_position(s: Seq<char>, c: char) -> int
    decreases s.len(),
{
    if s.len() == 0 {
        0
    } else if s[0] == c {
        0
    } else {
        1 + char_position(s.drop_first(), c)
    }
}

/// The parts before and after the first `c`, when `s` holds one (`str::split_once`).
pub open spec fn split_once_spec(s: Seq<char>, c: char) -> Option<(Seq<char>, Seq<char>)> {
    let p = char_position(s, c);
    if p < s.len() {
        Some((s.take(p), s.skip(p + 1)))
    } else {
        None
    }
}

/// The part of `s` before its first `c`: the first item of splitting on `c`.
pub open spec fn before_first(s: Seq<char>, c: char) -> Seq<char> {
    s.take(char_position(s, c))
}

/// `p` is a prefix of `s`.
pub open spec fn has_prefix(s: Seq<char>, p: Seq<char>) -> bool {
    p.len() <= s.len() && s.take(p.len() as int) == p
}

/// `n` occurs somewhere in `h`.
pub open spec fn has_substring(h: Seq<char>, n: Seq<char>) -> bool {
    exists|i: int| 0 <= i && i + n.len() <= h.len() && #[trigger] h.subrange(i, i + n.len()) == n
}

pub proof fn lemma_char_position_bounds(s: Seq<char>, c: char)
    ensures
        0 <= char_position(s, c) <= s.len(),
        char_position(s, c) < s.len() ==> s[char_position(s, c)] == c,
        forall|j: int| 0 <= j < char_position(s, c) ==> s[j] != c,
    decreases s.len(),
{
    if s.len() > 0 && s[0] != c {
        lemma_char_position_bounds(s.drop_first(), c);
        assert forall|j: int| 0 <= j < char_position(s, c) implies s[j] != c by {
            if j > 0 {
                assert(s[j] == s.drop_first()[j - 1]);
            }
        }
    }
}

/// When `p` holds no `c`, the first `c` of `p + [c] + rest` is right after `p`.
pub proof fn lemma_split_after_prefix(p: Seq<char>, c: char, rest: Seq<char>)
    requires
        forall|i: int| 0 <= i < p.len() ==> p[i] != c,
    ensures
        char_position(p + seq![c] + rest, c) == p.len(),
        split_once_spec(p + seq![c] + rest, c) == Some((p, rest)),
    decreases p.len(),
{
    let s = p + seq![c] + rest;
    if p.len() == 0 {
        assert(s[0] == c);
    } else {
        assert(s.drop_first() =~= p.drop_first() + seq![c] + rest);
        lemma_split_after_prefix(p.drop_first(), c, rest);
    }
    assert(s.take(p.len() as int) =~= p);
    assert(s.skip(p.len() as int + 1) =~= rest);
}

/// The part before the first `c` is the longest prefix of `s` free of `c`: it is a
/// prefix, it holds no `c`, and it is either all of `s` or followed by a `c`.
pub proof fn lemma_before_first_is_longest_free_prefix(s: Seq<char>, c: char)
    ensures
        before_first(s, c).len() <= s.len(),
        s.take(before_first(s, c).len() as int) == before_first(s, c),
        forall|i: int| 0 <= i < before_first(s, c).len() ==> before_first(s, c)[i] != c,
        before_first(s, c).len() == s.len() || s[before_first(s, c).len() as int] == c,
        (forall|i: int| 0 <= i < s.len() ==> s[i] != c) ==> before_first(s, c) == s,
{
    lemma_char_position_bounds(s, c);
    let p = char_position(s, c);
    assert(before_first(s, c) =~= s.take(p));
    if forall|i: int| 0 <= i < s.len() ==> s[i] != c {
        if p < s.len() {
            assert(s[p] == c);
        }
        assert(s.take(p) =~= s);
    }
}

/// Splitting at the first `c`: when `s` holds a `c`, the parts rebuild `s` around
/// it and the first part holds none; when it holds none, there is no split.
pub proof fn lemma_split_once_parts(s: Seq<char>, c: char)
    ensures
        split_once_spec(s, c) matches Some((a, b)) ==> s == a + seq![c] + b && forall|i: int|
            0 <= i < a.len() ==> a[i] != c,
        split_once_spec(s, c) is None <==> forall|i: int| 0 <= i < s.len() ==> s[i] != c,
{
    lemma_char_position_bounds(s, c);
    let p = char_position(s, c);
    if p < s.len() {
        assert(s =~= s.take(p) + seq![c] + s.skip(p + 1));
    }
}

/// The index of the first `c` in the characters `cs`, or their number.
pub fn char_position_in(cs: &Vec<char>, c: char) -> (k: usize)
    ensures
        k == char_position(cs@, c),
        k <= cs@.len(),
{
    let n = cs.len();
    let mut i: usize = 0;
    assert(cs@.skip(0) =~= cs@);
    while i < n && cs[i] != c
        invariant
            n == cs@.len(),
            0 <= i <= n,
            char_position(cs@, c) == i + char_position(cs@.skip(i as int), c),
        decreases n - i,
    {
        assert(cs@.skip(i as int).drop_first() =~= cs@.skip(i + 1));
        i = i + 1;
    }
    if i < n {
        assert(cs@.skip(i as int)[0] == cs@[i as int]);
    } else {
        assert(cs@.skip(i as int).len() == 0);
    }
    i
}

/// Splits `s` around its first `c`, as `str::split_once` does.
pub fn split_once<'a>(s: &'a str, c: char) -> (r: Option<(&'a str, &'a str)>)
    ensures
        match r {
            Some((a, b)) => split_once_spec(s@, c) == Some((a@, b@)),
            None => split_once_spec(s@, c) is None,
        },
{
    let cs = chars_of(s);
    let p = char_position_in(&cs, c);
    if p < cs.len() {
        Some((s.substring_char(0, p), s.substring_char(p + 1, cs.len())))
    } else {
        None
    }
}

/// The part of `s` before its first `c`, as the first item of `str::split`.
pub fn first_part<'a>(s: &'a str, c: char) -> (r: &'a str)
    ensures
        r@ == before_first(s@, c),
{
    let cs = chars_of(s);
    let p = char_position_in(&cs, c);
    s.substring_char(0, p)
}

/// Whether `p` is a prefix of `s`, as `str::starts_with` tells.
pub fn starts_with(s: &str, p: &str) -> (b: bool)
    ensures
        b == has_prefix(s@, p@),
{
    let sc = chars_of(s);
    let pc = chars_of(p);
    if pc.len() > sc.len() {
        return false;
    }
    let n = pc.len();
    let mut j: usize = 0;
    while j < n
        invariant
            n == pc@.len(),
            n <= sc@.len(),
            sc@ == s@,
            pc@ == p@,
            0 <= j <= n,
            forall|t: int| 0 <= t < j ==> sc@[t] == pc@[t],
        decreases n - j,
    {
        if sc[j] != pc[j] {
            assert(sc@.take(n as int)[j as int] != pc@[j as int]);
            return false;
        }
        j = j + 1;
    }
    assert(sc@.take(n as int) =~= pc@);
    true
}

fn matches_at(h: &Vec<char>, n: &Vec<char>, i: usize) -> (b: bool)
    requires
        i + n@.len() <= h.len(),
    ensures
        b == (h@.subrange(i as int, i + n@.len()) == n@),
{
    let m = n.len();
    let mut j: usize = 0;
    while j < m
        invariant
            m == n@.len(),
            i + m <= h.len(),
            0 <= j <= m,
            forall|t: int| 0 <= t < j ==> h@[i + t] == n@[t],
        decreases m - j,
    {
        if h[i + j] != n[j] {
            assert(h@.subrange(i as int, i + m)[j as int] != n@[j as int]);
            return false;
        }
        j = j + 1;
    }
    assert(h@.subrange(i as int, i + m) =~= n@);
    true
}

/// Whether `needle` occurs in `hay`, as `str::contains` tells.
pub fn contains(hay: &str, needle: &str) -> (b: bool)
    ensures
        b == has_substring(hay@, needle@),
{
    let h = chars_of(hay);
    let n = chars_of(needle);
    if n.len() > h.len() {
        return false;
    }
    if n.len() == 0 {
        assert(hay@.subrange(0, 0 + needle@.len() as int) =~= needle@);
        return true;
    }
    let last = h.len() - n.len();
    let mut i: usize = 0;
    while i <= last
        invariant
            last == h@.len() - n@.len(),
            last + 1 <= h.len(),
            1 <= n@.len() <= h@.len(),
            h@ == hay@,
            n@ == needle@,
            0 <= i <= last + 1,
            forall|k: int| 0 <= k < i ==> #[trigger] h@.subrange(k, k + n@.len()) != n@,
        decreases last + 1 - i,
    {
        if matches_at(&h, &n, i) {
            assert(hay@.subrange(i as int, i + needle@.len()) == needle@);
            return true;
        }
        i = i + 1;
    }
    assert forall|k: int| 0 <= k && k + n@.len() <= h@.len() implies #[trigger] h@.subrange(k, k + n@.len()) != n@ by {
        assert(k <= last);
    }
    false
}


/// Whether two string slices hold the same text.
pub fn same_text(a: &str, b: &str) -> (r: bool)
    ensures
        r == (a@ == b@),
{
    let x = String::from_str(a);
    let y = String::from_str(b);
    x == y
}

} // verus!
