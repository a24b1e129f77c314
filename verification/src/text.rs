//! Plain operations on text, stated over sequences of characters.

use vstd::prelude::*;

verus! {

/// The characters that count as white space: those with the Unicode property
/// `White_Space`.
pub open spec fn is_space(c: char) -> bool {
    let n = c as u32;
    ||| 0x09 <= n <= 0x0d
    ||| n == 0x20
    ||| n == 0x85
    ||| n == 0xa0
    ||| n == 0x1680
    ||| 0x2000 <= n <= 0x200a
    ||| n == 0x2028
    ||| n == 0x2029
    ||| n == 0x202f
    ||| n == 0x205f
    ||| n == 0x3000
}

/// Decides [`is_space`].
pub fn space(c: char) -> (r: bool)
    ensures
        r == is_space(c),
{
    let n: u32 = c as u32;
    (0x09 <= n && n <= 0x0d) || n == 0x20 || n == 0x85 || n == 0xa0 || n == 0x1680 || (0x2000 <= n
        && n <= 0x200a) || n == 0x2028 || n == 0x2029 || n == 0x202f || n == 0x205f || n == 0x3000
}

/// `s` without its leading white space.
pub open spec fn strip_front(s: Seq<char>) -> Seq<char>
    decreases s.len(),
{
    if s.len() > 0 && is_space(s[0]) {
        strip_front(s.drop_first())
    } else {
        s
    }
}

/// `s` without its trailing white space.
pub open spec fn strip_back(s: Seq<char>) -> Seq<char>
    decreases s.len(),
{
    if s.len() > 0 && is_space(s.last()) {
        strip_back(s.drop_last())
    } else {
        s
    }
}

/// `s` without white space at either end.
pub open spec fn trimmed(s: Seq<char>) -> Seq<char> {
    strip_back(strip_front(s))
}

/// The characters of `s`, in order.
pub fn chars_of(s: &str) -> (v: Vec<char>)
    ensures
        v@ == s@,
{
    let mut v: Vec<char> = Vec::new();
    for c in it: s.chars()
        invariant
            v@ == it.seq().take(it.index() as int),
            it.seq() == s@,
    {
        v.push(c);
    }
    v
}

/// The part of `s` from character `from` up to, not including, character `to`.
pub fn slice_of(s: &str, from: usize, to: usize) -> (r: String)
    requires
        from <= to <= s@.len(),
    ensures
        r@ == s@.subrange(from as int, to as int),
{
    String::from_str(s.substring_char(from, to))
}

/// Removes the white space at both ends of `s`.
pub fn trim(s: &str) -> (r: String)
    ensures
        r@ == trimmed(s@),
{
    let v = chars_of(s);
    let n = v.len();
    let mut i: usize = 0;
    assert(v@.skip(0) =~= v@);
    while i < n && space(v[i])
        invariant
            i <= n,
            n == v@.len(),
            strip_front(v@) == strip_front(v@.skip(i as int)),
        decreases n - i,
    {
        proof {
            assert(v@.skip(i as int).drop_first() =~= v@.skip(i + 1));
        }
        i += 1;
    }
    assert(v@.skip(i as int) =~= v@.subrange(i as int, n as int));
    let mut j: usize = n;
    while j > i && space(v[j - 1])
        invariant
            i <= j <= n,
            n == v@.len(),
            strip_back(v@.subrange(i as int, n as int)) == strip_back(
                v@.subrange(i as int, j as int),
            ),
        decreases j,
    {
        proof {
            assert(v@.subrange(i as int, j as int).drop_last() =~= v@.subrange(
                i as int,
                j - 1,
            ));
        }
        j -= 1;
    }
    slice_of(s, i, j)
}

/// Whether two texts hold the same characters.
pub fn same_text(a: &str, b: &str) -> (r: bool)
    ensures
        r == (a@ == b@),
{
    let x = chars_of(a);
    let y = chars_of(b);
    same_chars(&x, &y)
}

/// Whether two vectors hold the same characters.
pub fn same_chars(x: &Vec<char>, y: &Vec<char>) -> (r: bool)
    ensures
        r == (x@ == y@),
{
    if x.len() != y.len() {
        return false;
    }
    let n = x.len();
    let mut i: usize = 0;
    while i < n
        invariant
            i <= n,
            n == x@.len(),
            n == y@.len(),
            x@.take(i as int) == y@.take(i as int),
        decreases n - i,
    {
        if x[i] != y[i] {
            return false;
        }
        proof {
            assert(x@.take(i + 1) =~= x@.take(i as int).push(x@[i as int]));
            assert(y@.take(i + 1) =~= y@.take(i as int).push(y@[i as int]));
        }
        i += 1;
    }
    proof {
        assert(x@.take(n as int) =~= x@);
        assert(y@.take(n as int) =~= y@);
    }
    true
}

/// Whether `c` is one of the ten ASCII digits.
pub open spec fn is_digit(c: char) -> bool {
    0x30 <= c as u32 <= 0x39
}

/// Decides [`is_digit`].
pub fn digit(c: char) -> (r: bool)
    ensures
        r == is_digit(c),
{
    let n: u32 = c as u32;
    0x30 <= n && n <= 0x39
}

/// The number that the digit `c` stands for.
pub open spec fn digit_value(c: char) -> nat {
    (c as u32 - 0x30) as nat
}

/// The digit that stands for `d`, for `d` below ten.
pub open spec fn digit_char(d: nat) -> char {
    if d == 0 {
        '0'
    } else if d == 1 {
        '1'
    } else if d == 2 {
        '2'
    } else if d == 3 {
        '3'
    } else if d == 4 {
        '4'
    } else if d == 5 {
        '5'
    } else if d == 6 {
        '6'
    } else if d == 7 {
        '7'
    } else if d == 8 {
        '8'
    } else {
        '9'
    }
}

/// Whether every character of `s` is an ASCII digit.
pub open spec fn all_digits(s: Seq<char>) -> bool {
    forall|i: int| 0 <= i < s.len() ==> is_digit(#[trigger] s[i])
}

/// The number that the digits of `s` write in base ten.
pub open spec fn decimal_value(s: Seq<char>) -> nat
    decreases s.len(),
{
    if s.len() == 0 {
        0
    } else {
        decimal_value(s.drop_last()) * 10 + digit_value(s.last())
    }
}

/// The digits that write `n` in base ten, without leading zeros.
pub open spec fn decimal_digits(n: nat) -> Seq<char>
    decreases n,
{
    if n < 10 {
        seq![digit_char(n)]
    } else {
        decimal_digits(n / 10).push(digit_char(n % 10))
    }
}

/// The number that `s` writes, where `s` is a non-empty run of ASCII digits
/// whose value a 32-bit signed integer can hold.
pub open spec fn number_of(s: Seq<char>) -> Option<int> {
    if s.len() > 0 && all_digits(s) && decimal_value(s) <= i32::MAX {
        Some(decimal_value(s) as int)
    } else {
        None
    }
}

/// How `n` is written in base ten: a minus sign for a negative number, then
/// the digits.
pub open spec fn number_text(n: int) -> Seq<char> {
    if n < 0 {
        seq!['-'] + decimal_digits((-n) as nat)
    } else {
        decimal_digits(n as nat)
    }
}

/// How `n` is written at a width of at least two, filled with a zero on the
/// left; the minus sign of a negative number takes one place.
pub open spec fn padded_text(n: int) -> Seq<char> {
    if 0 <= n < 10 {
        seq!['0'] + decimal_digits(n as nat)
    } else {
        number_text(n)
    }
}

/// What was written can be read back: the digits of `n` are digits, and
/// their value is `n`.
pub proof fn lemma_decimal_round_trip(n: nat)
    ensures
        decimal_digits(n).len() > 0,
        all_digits(decimal_digits(n)),
        decimal_value(decimal_digits(n)) == n,
    decreases n,
{
    if n < 10 {
        let s = decimal_digits(n);
        assert(s.len() == 1);
        assert(s.drop_last().len() == 0);
        assert(decimal_value(s) == decimal_value(s.drop_last()) * 10 + digit_value(s.last()));
    } else {
        lemma_decimal_round_trip(n / 10);
        let p = decimal_digits(n / 10);
        let s = decimal_digits(n);
        assert(s == p.push(digit_char(n % 10)));
        assert(s.drop_last() =~= p);
        assert(s.last() == digit_char(n % 10));
    }
}

/// A zero in front changes no value.
pub proof fn lemma_leading_zero(s: Seq<char>)
    ensures
        decimal_value(seq!['0'] + s) == decimal_value(s),
    decreases s.len(),
{
    let t = seq!['0'] + s;
    if s.len() == 0 {
        assert(t.drop_last().len() == 0);
        assert(decimal_value(t) == decimal_value(t.drop_last()) * 10 + digit_value(t.last()));
    } else {
        lemma_leading_zero(s.drop_last());
        assert(t.drop_last() =~= seq!['0'] + s.drop_last());
        assert(t.last() == s.last());
    }
}

/// A number that is not negative, written at a width of two, is a run of
/// digits that writes the number.
pub proof fn lemma_padded_reads_back(n: int)
    requires
        0 <= n,
    ensures
        padded_text(n).len() > 0,
        all_digits(padded_text(n)),
        decimal_value(padded_text(n)) == n,
{
    lemma_decimal_round_trip(n as nat);
    if n < 10 {
        let d = decimal_digits(n as nat);
        lemma_leading_zero(d);
        let t = seq!['0'] + d;
        assert forall|i: int| 0 <= i < t.len() implies is_digit(#[trigger] t[i]) by {
            if i > 0 {
                assert(t[i] == d[i - 1]);
            }
        }
    }
}

/// The value of a run of digits is at least the value of each of its
/// beginnings.
pub proof fn lemma_value_grows(s: Seq<char>, k: int)
    requires
        0 <= k <= s.len(),
    ensures
        decimal_value(s.take(k)) <= decimal_value(s),
    decreases s.len() - k,
{
    if k == s.len() {
        assert(s.take(k) =~= s);
    } else {
        lemma_value_grows(s, k + 1);
        assert(s.take(k + 1).drop_last() =~= s.take(k));
    }
}

/// Reads the number that characters `from..to` of `v` write.
pub fn read_number(v: &Vec<char>, from: usize, to: usize) -> (r: Option<i32>)
    requires
        from <= to <= v@.len(),
    ensures
        r matches Some(n) ==> number_of(v@.subrange(from as int, to as int)) == Some(n as int),
        r is None ==> number_of(v@.subrange(from as int, to as int)) is None,
{
    let ghost s = v@.subrange(from as int, to as int);
    if from == to {
        return None;
    }
    let mut acc: u64 = 0;
    let mut i: usize = from;
    while i < to
        invariant
            from <= i <= to <= v@.len(),
            s == v@.subrange(from as int, to as int),
            all_digits(s.take(i - from)),
            acc == decimal_value(s.take(i - from)),
            acc <= i32::MAX,
        decreases to - i,
    {
        let c = v[i];
        let n: u32 = c as u32;
        if n < 0x30 || n > 0x39 {
            proof {
                assert(s[i - from] == c);
                assert(!is_digit(s[i - from]));
            }
            return None;
        }
        let next: u64 = acc * 10 + (n - 0x30) as u64;
        proof {
            assert(s.take(i - from + 1).drop_last() =~= s.take(i - from));
            assert(s.take(i - from + 1).last() == c);
            assert(next == decimal_value(s.take(i - from + 1)));
            assert forall|k: int| 0 <= k < s.take(i - from + 1).len() implies is_digit(
                #[trigger] s.take(i - from + 1)[k],
            ) by {
                if k < i - from {
                    assert(s.take(i - from + 1)[k] == s.take(i - from)[k]);
                }
            }
        }
        if next > 0x7fff_ffff {
            proof {
                lemma_value_grows(s, i - from + 1);
            }
            return None;
        }
        acc = next;
        i += 1;
    }
    proof {
        assert(s.take(to - from) =~= s);
    }
    Some(acc as i32)
}

/// The text of one digit.
pub fn digit_text(d: u32) -> (r: &'static str)
    requires
        d < 10,
    ensures
        r@ == seq![digit_char(d as nat)],
{
    proof {
        reveal_strlit("0");
        reveal_strlit("1");
        reveal_strlit("2");
        reveal_strlit("3");
        reveal_strlit("4");
        reveal_strlit("5");
        reveal_strlit("6");
        reveal_strlit("7");
        reveal_strlit("8");
        reveal_strlit("9");
    }
    let r = if d == 0 {
        "0"
    } else if d == 1 {
        "1"
    } else if d == 2 {
        "2"
    } else if d == 3 {
        "3"
    } else if d == 4 {
        "4"
    } else if d == 5 {
        "5"
    } else if d == 6 {
        "6"
    } else if d == 7 {
        "7"
    } else if d == 8 {
        "8"
    } else {
        "9"
    };
    assert(r@ =~= seq![digit_char(d as nat)]);
    r
}

/// Writes `n` in base ten.
pub fn write_digits(n: u32) -> (r: String)
    ensures
        r@ == decimal_digits(n as nat),
    decreases n,
{
    if n < 10 {
        String::from_str(digit_text(n))
    } else {
        let mut s = write_digits(n / 10);
        s.append(digit_text(n % 10));
        s
    }
}

/// The size of `n` without its sign.
pub fn magnitude(n: i32) -> (r: u32)
    ensures
        n >= 0 ==> r == n,
        n < 0 ==> r == -n,
{
    let wide: i64 = n as i64;
    if wide < 0 {
        (-wide) as u32
    } else {
        wide as u32
    }
}

/// Writes `n` in base ten, with its sign where it is negative.
pub fn write_number(n: i32) -> (r: String)
    ensures
        r@ == number_text(n as int),
{
    if n < 0 {
        proof {
            reveal_strlit("-");
        }
        let mut s = String::from_str("-");
        s.append(write_digits(magnitude(n)).as_str());
        assert(s@ =~= number_text(n as int));
        s
    } else {
        write_digits(magnitude(n))
    }
}

/// Writes `n` at a width of at least two, filled with a zero.
pub fn write_padded(n: i32) -> (r: String)
    ensures
        r@ == padded_text(n as int),
{
    if 0 <= n && n < 10 {
        proof {
            reveal_strlit("0");
        }
        let mut s = String::from_str("0");
        s.append(write_digits(magnitude(n)).as_str());
        assert(s@ =~= padded_text(n as int));
        s
    } else {
        write_number(n)
    }
}

/// The small letter for an ASCII capital, any other character unchanged.
pub open spec fn lower_char(c: char) -> char {
    if 0x41 <= c as u32 <= 0x5a {
        ((c as u32 + 32) as u8) as char
    } else {
        c
    }
}

/// Computes [`lower_char`].
pub fn to_lower(c: char) -> (r: char)
    ensures
        r == lower_char(c),
{
    let n: u32 = c as u32;
    if 0x41 <= n && n <= 0x5a {
        ((n + 32) as u8) as char
    } else {
        c
    }
}

/// `s` with every ASCII capital replaced by its small letter.
pub open spec fn lowered(s: Seq<char>) -> Seq<char> {
    s.map_values(|c: char| lower_char(c))
}

/// Computes [`lowered`] for characters `from..to` of `v`.
pub fn lower_slice(v: &Vec<char>, from: usize, to: usize) -> (r: Vec<char>)
    requires
        from <= to <= v@.len(),
    ensures
        r@ == lowered(v@.subrange(from as int, to as int)),
{
    let mut r: Vec<char> = Vec::new();
    let mut i: usize = from;
    while i < to
        invariant
            from <= i <= to <= v@.len(),
            r@ == lowered(v@.subrange(from as int, i as int)),
        decreases to - i,
    {
        r.push(to_lower(v[i]));
        proof {
            assert(v@.subrange(from as int, i + 1) =~= v@.subrange(from as int, i as int).push(
                v@[i as int],
            ));
            assert(r@ =~= lowered(v@.subrange(from as int, i + 1)));
        }
        i += 1;
    }
    r
}

/// The greatest index below `n` at which `p` holds, if there is one.
pub open spec fn last_where(n: int, p: spec_fn(int) -> bool) -> Option<int>
    decreases n,
{
    if n <= 0 {
        None
    } else if p(n - 1) {
        Some(n - 1)
    } else {
        last_where(n - 1, p)
    }
}

/// What [`last_where`] finds is the last index at which `p` holds, and it
/// finds none only where `p` holds nowhere below `n`.
pub proof fn lemma_last_where(n: int, p: spec_fn(int) -> bool)
    ensures
        match last_where(n, p) {
            Some(i) => 0 <= i < n && p(i) && forall|j: int| i < j < n ==> !#[trigger] p(j),
            None => forall|j: int| 0 <= j < n ==> !#[trigger] p(j),
        },
    decreases n,
{
    if n > 0 && !p(n - 1) {
        lemma_last_where(n - 1, p);
    }
}

/// An index at which `p` holds, with none after it below `n`, is what
/// [`last_where`] finds.
pub proof fn lemma_last_where_is(n: int, p: spec_fn(int) -> bool, i: int)
    requires
        0 <= i < n,
        p(i),
        forall|j: int| i < j < n ==> !#[trigger] p(j),
    ensures
        last_where(n, p) == Some(i),
    decreases n,
{
    if i < n - 1 {
        lemma_last_where_is(n - 1, p, i);
    }
}

/// The test "character `i` of `s` is `c`".
pub open spec fn holds_char(s: Seq<char>, c: char) -> spec_fn(int) -> bool {
    |i: int| s[i] == c
}

/// The index of the last `c` in `s`, if `c` occurs in it.
pub open spec fn last_index_of(s: Seq<char>, c: char) -> Option<int> {
    last_where(s.len() as int, holds_char(s, c))
}

/// Computes [`last_index_of`].
pub fn find_last(v: &Vec<char>, c: char) -> (r: Option<usize>)
    ensures
        r matches Some(i) ==> last_index_of(v@, c) == Some(i as int) && i < v@.len(),
        r is None ==> last_index_of(v@, c) is None,
{
    let ghost p = holds_char(v@, c);
    let mut n: usize = v.len();
    while n > 0
        invariant
            n <= v@.len(),
            p == holds_char(v@, c),
            last_where(v@.len() as int, p) == last_where(n as int, p),
        decreases n,
    {
        if v[n - 1] == c {
            assert(p(n - 1));
            return Some(n - 1);
        }
        assert(!p(n - 1));
        n -= 1;
    }
    None
}

/// Whether `needle` stands at index `i` of `hay`.
pub open spec fn stands_at(hay: Seq<char>, needle: Seq<char>, i: int) -> bool {
    0 <= i && i + needle.len() <= hay.len() && hay.subrange(i, i + needle.len()) == needle
}

/// Whether `needle` occurs somewhere in `hay`.
pub open spec fn occurs_in(hay: Seq<char>, needle: Seq<char>) -> bool {
    exists|i: int| #[trigger] stands_at(hay, needle, i)
}

/// Decides [`stands_at`].
fn found_at(hay: &Vec<char>, needle: &Vec<char>, i: usize) -> (r: bool)
    requires
        i + needle@.len() <= hay@.len(),
    ensures
        r == stands_at(hay@, needle@, i as int),
{
    let n = needle.len();
    let h = hay.len();
    let mut k: usize = 0;
    while k < n
        invariant
            k <= n,
            n == needle@.len(),
            h == hay@.len(),
            i + n <= h,
            forall|j: int| 0 <= j < k ==> hay@[i + j] == needle@[j],
        decreases n - k,
    {
        if hay[i + k] != needle[k] {
            proof {
                assert(hay@.subrange(i as int, i + n)[k as int] == hay@[i + k]);
            }
            return false;
        }
        k += 1;
    }
    proof {
        assert(hay@.subrange(i as int, i + n) =~= needle@);
    }
    true
}

/// Decides [`occurs_in`].
pub fn contains(hay: &str, needle: &str) -> (r: bool)
    ensures
        r == occurs_in(hay@, needle@),
{
    let h = chars_of(hay);
    let n = chars_of(needle);
    if n.len() > h.len() {
        return false;
    }
    let last = h.len() - n.len();
    let mut i: usize = 0;
    loop
        invariant
            i <= last,
            last == h@.len() - n@.len(),
            h@ == hay@,
            n@ == needle@,
            forall|j: int| 0 <= j < i ==> !stands_at(h@, n@, j),
        decreases last - i,
    {
        if found_at(&h, &n, i) {
            return true;
        }
        if i == last {
            return false;
        }
        i += 1;
    }
}

/// The part of `s` before its first `c`: all of it where `c` does not occur.
pub open spec fn before_first(s: Seq<char>, c: char) -> Seq<char>
    decreases s.len(),
{
    if s.len() == 0 || s[0] == c {
        Seq::empty()
    } else {
        seq![s[0]] + before_first(s.drop_first(), c)
    }
}

/// Computes [`before_first`].
pub fn take_before(s: &str, c: char) -> (r: String)
    ensures
        r@ == before_first(s@, c),
{
    let v = chars_of(s);
    let mut i: usize = 0;
    assert(v@.take(0) + before_first(v@.skip(0), c) =~= before_first(v@, c)) by {
        assert(v@.skip(0) =~= v@);
    }
    while i < v.len() && v[i] != c
        invariant
            i <= v@.len(),
            before_first(v@, c) == v@.take(i as int) + before_first(v@.skip(i as int), c),
        decreases v@.len() - i,
    {
        proof {
            let t = v@.skip(i as int);
            assert(t.drop_first() =~= v@.skip(i + 1));
            assert(v@.take(i + 1) =~= v@.take(i as int) + seq![v@[i as int]]);
            assert(v@.take(i as int) + (seq![t[0]] + before_first(t.drop_first(), c)) =~= v@.take(
                i + 1,
            ) + before_first(v@.skip(i + 1), c));
        }
        i += 1;
    }
    proof {
        assert(v@.take(i as int) + Seq::<char>::empty() =~= v@.take(i as int));
        assert(v@.take(i as int) =~= v@.subrange(0, i as int));
    }
    slice_of(s, 0, i)
}

/// Whether `s` has no white space at either end.
pub open spec fn is_trim(s: Seq<char>) -> bool {
    s.len() == 0 || (!is_space(s[0]) && !is_space(s.last()))
}

/// What is left of `s` without its leading white space is an end of `s`
/// that does not start with white space.
pub proof fn lemma_strip_front(s: Seq<char>)
    ensures
        exists|k: int| 0 <= k <= s.len() && strip_front(s) == #[trigger] s.skip(k),
        strip_front(s).len() > 0 ==> !is_space(strip_front(s)[0]),
    decreases s.len(),
{
    if s.len() > 0 && is_space(s[0]) {
        let t = s.drop_first();
        lemma_strip_front(t);
        let k = choose|k: int| 0 <= k <= t.len() && strip_front(t) == #[trigger] t.skip(k);
        assert(t.skip(k) =~= s.skip(k + 1));
    } else {
        assert(s =~= s.skip(0));
    }
}

/// What is left of `s` without its trailing white space is a beginning of
/// `s` that does not end with white space.
pub proof fn lemma_strip_back(s: Seq<char>)
    ensures
        exists|k: int| 0 <= k <= s.len() && strip_back(s) == #[trigger] s.take(k),
        strip_back(s).len() > 0 ==> !is_space(strip_back(s).last()),
    decreases s.len(),
{
    if s.len() > 0 && is_space(s.last()) {
        let t = s.drop_last();
        lemma_strip_back(t);
        let k = choose|k: int| 0 <= k <= t.len() && strip_back(t) == #[trigger] t.take(k);
        assert(t.take(k) =~= s.take(k));
    } else {
        assert(s =~= s.take(s.len() as int));
    }
}

/// Trimming leaves a part of the text, and one without white space at its
/// ends.
pub proof fn lemma_trimmed(s: Seq<char>)
    ensures
        occurs_in(s, trimmed(s)),
        is_trim(trimmed(s)),
{
    lemma_strip_front(s);
    let a = choose|k: int| 0 <= k <= s.len() && strip_front(s) == #[trigger] s.skip(k);
    let t = s.skip(a);
    lemma_strip_back(t);
    let b = choose|k: int| 0 <= k <= t.len() && strip_back(t) == #[trigger] t.take(k);
    let r = t.take(b);
    assert(r =~= s.subrange(a, a + b));
    assert(stands_at(s, r, a));
    if r.len() > 0 {
        assert(r[0] == t[0]);
    }
}

/// A part of a part of a text is a part of the text.
pub proof fn lemma_occurs_in_part(a: Seq<char>, b: Seq<char>, c: Seq<char>)
    requires
        occurs_in(a, b),
        occurs_in(b, c),
    ensures
        occurs_in(a, c),
{
    let i = choose|i: int| #[trigger] stands_at(a, b, i);
    let j = choose|j: int| #[trigger] stands_at(b, c, j);
    assert(a.subrange(i + j, i + j + c.len()) =~= b.subrange(j, j + c.len()));
    assert(stands_at(a, c, i + j));
}

} // verus!
