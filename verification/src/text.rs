//! Character-level text helpers: splitting, decimal and hexadecimal digits.
//!
//! Strings are modelled by their view, a `Seq<char>`.

use vstd::prelude::*;

verus! {

/// `c` is one of the ASCII digits `0`..`9`.
pub open spec fn is_ascii_digit(c: char) -> bool {
    '0' <= c && c <= '9'
}

/// `c` is an ASCII letter or digit.
pub open spec fn is_ascii_alnum(c: char) -> bool {
    ||| is_ascii_digit(c)
    ||| ('a' <= c && c <= 'z')
    ||| ('A' <= c && c <= 'Z')
}

/// The numeric value of an ASCII digit.
pub open spec fn digit_value(c: char) -> nat {
    (c as int - '0' as int) as nat
}

/// Every character of `s` is an ASCII digit.
pub open spec fn all_digits(s: Seq<char>) -> bool {
    forall|i: int| 0 <= i < s.len() ==> is_ascii_digit(#[trigger] s[i])
}

/// The value of a string of decimal digits, most significant first.
pub open spec fn digits_value(s: Seq<char>) -> nat
    decreases s.len(),
{
    if s.len() == 0 {
        0
    } else {
        digits_value(s.drop_last()) * 10 + digit_value(s.last())
    }
}

/// The value that std's `FromStr` for an unsigned integer reads from `s`, before the range
/// check: an optional `+`, then at least one ASCII digit and nothing else.
pub open spec fn unsigned_text_value(s: Seq<char>) -> Option<nat> {
    let d = if s.len() > 0 && s[0] == '+' {
        s.drop_first()
    } else {
        s
    };
    if d.len() > 0 && all_digits(d) {
        Some(digits_value(d))
    } else {
        None
    }
}

/// The `u32` that `s.parse::<u32>()` gives, or `None` where it fails.
pub open spec fn parse_u32_spec(s: Seq<char>) -> Option<u32> {
    match unsigned_text_value(s) {
        Some(v) => if v <= u32::MAX {
            Some(v as u32)
        } else {
            None
        },
        None => None,
    }
}

/// The `u64` that `s.parse::<u64>()` gives, or `None` where it fails.
pub open spec fn parse_u64_spec(s: Seq<char>) -> Option<u64> {
    match unsigned_text_value(s) {
        Some(v) => if v <= u64::MAX {
            Some(v as u64)
        } else {
            None
        },
        None => None,
    }
}

/// The pieces of `s` between occurrences of `sep`, empty pieces included, as
/// `str::split` with a character pattern gives them.
pub open spec fn split_char(s: Seq<char>, sep: char) -> Seq<Seq<char>>
    decreases s.len(),
{
    if s.len() == 0 {
        seq![Seq::<char>::empty()]
    } else {
        let r = split_char(s.drop_last(), sep);
        if s.last() == sep {
            r.push(Seq::<char>::empty())
        } else {
            r.update(r.len() - 1, r.last().push(s.last()))
        }
    }
}

/// The index of the first occurrence of `c` in `s`, if any.
pub open spec fn first_index_of(s: Seq<char>, c: char) -> Option<int>
    decreases s.len(),
{
    if s.len() == 0 {
        None
    } else if s[0] == c {
        Some(0)
    } else {
        match first_index_of(s.drop_first(), c) {
            Some(i) => Some(i + 1),
            None => None,
        }
    }
}

/// The part of `s` before the first `c` (all of `s` where there is none).
pub open spec fn before_first(s: Seq<char>, c: char) -> Seq<char> {
    match first_index_of(s, c) {
        Some(i) => s.take(i),
        None => s,
    }
}

/// The part of `s` after the first `c`, where there is one.
pub open spec fn after_first(s: Seq<char>, c: char) -> Option<Seq<char>> {
    match first_index_of(s, c) {
        Some(i) => Some(s.skip(i + 1)),
        None => None,
    }
}

/// Every piece of `split_char(s, sep)` is non-empty and lies in `s` away from `sep`.
pub proof fn lemma_split_char_len(s: Seq<char>, sep: char)
    ensures
        split_char(s, sep).len() >= 1,
    decreases s.len(),
{
    if s.len() > 0 {
        lemma_split_char_len(s.drop_last(), sep);
    }
}

/// A text with no separator is a single piece.
pub proof fn lemma_split_no_sep(a: Seq<char>, sep: char)
    requires
        !a.contains(sep),
    ensures
        split_char(a, sep) == seq![a],
    decreases a.len(),
{
    if a.len() > 0 {
        assert(!a.drop_last().contains(sep)) by {
            if a.drop_last().contains(sep) {
                let k = choose|k: int| 0 <= k < a.drop_last().len() && a.drop_last()[k] == sep;
                assert(a[k] == sep);
            }
        }
        lemma_split_no_sep(a.drop_last(), sep);
        assert(a.last() != sep) by {
            assert(a[a.len() - 1] == a.last());
        }
        assert(a.drop_last().push(a.last()) =~= a);
    }
    assert(split_char(a, sep) =~= seq![a]) by {
        if a.len() == 0 {
            assert(a =~= Seq::<char>::empty());
        }
    }
}

/// The first occurrence of `c`, where there is one, is an occurrence and has no earlier one.
pub proof fn lemma_first_index_of(s: Seq<char>, c: char)
    ensures
        match first_index_of(s, c) {
            Some(i) => 0 <= i < s.len() && s[i] == c && forall|j: int| 0 <= j < i ==> s[j] != c,
            None => forall|j: int| 0 <= j < s.len() ==> s[j] != c,
        },
    decreases s.len(),
{
    if s.len() > 0 {
        lemma_first_index_of(s.drop_first(), c);
        if s[0] != c {
            match first_index_of(s.drop_first(), c) {
                Some(i) => {
                    assert forall|j: int| 0 <= j < i + 1 implies s[j] != c by {
                        if j > 0 {
                            assert(s[j] == s.drop_first()[j - 1]);
                        }
                    }
                },
                None => {
                    assert forall|j: int| 0 <= j < s.len() implies s[j] != c by {
                        if j > 0 {
                            assert(s[j] == s.drop_first()[j - 1]);
                        }
                    }
                },
            }
        }
    }
}

/// A prefix of a digit string never has a larger value than the whole string.
pub proof fn lemma_digits_value_prefix(s: Seq<char>, i: int)
    requires
        0 <= i <= s.len(),
    ensures
        digits_value(s.take(i)) <= digits_value(s),
    decreases s.len() - i,
{
    if i < s.len() {
        lemma_digits_value_prefix(s, i + 1);
        assert(s.take(i + 1).drop_last() =~= s.take(i));
    } else {
        assert(s.take(i) =~= s);
    }
}

/// The characters of a string slice, as a vector.
pub fn str_to_chars(s: &str) -> (r: Vec<char>)
    ensures
        r@ == s@,
{
    let n = s.unicode_len();
    let mut r: Vec<char> = Vec::new();
    let mut i: usize = 0;
    while i < n
        invariant
            n == s@.len(),
            i <= n,
            r@ == s@.take(i as int),
        decreases n - i,
    {
        let c = s.get_char(i);
        r.push(c);
        i = i + 1;
        assert(r@ =~= s@.take(i as int));
    }
    assert(r@ =~= s@);
    r
}

/// Appends one character to a string.
#[verifier::external_body]
pub(crate) fn push_char(s: &mut String, c: char)
    ensures
        final(s)@ == old(s)@.push(c),
{
    s.push(c);
}

/// The string made of the given characters.
pub fn chars_to_string(v: &Vec<char>) -> (r: String)
    ensures
        r@ == v@,
{
    let mut r = String::new();
    let mut i: usize = 0;
    while i < v.len()
        invariant
            i <= v.len(),
            r@ == v@.take(i as int),
        decreases v.len() - i,
    {
        push_char(&mut r, v[i]);
        i = i + 1;
        assert(r@ =~= v@.take(i as int));
    }
    assert(r@ =~= v@);
    r
}

/// The characters of `v` from `start` up to `end`.
pub fn sub_chars(v: &Vec<char>, start: usize, end: usize) -> (r: Vec<char>)
    requires
        start <= end <= v.len(),
    ensures
        r@ == v@.subrange(start as int, end as int),
{
    let mut r: Vec<char> = Vec::new();
    let mut i: usize = start;
    while i < end
        invariant
            start <= i <= end <= v.len(),
            r@ == v@.subrange(start as int, i as int),
        decreases end - i,
    {
        r.push(v[i]);
        i = i + 1;
        assert(r@ =~= v@.subrange(start as int, i as int));
    }
    r
}

/// The index of the first occurrence of `c` in `v`, if any.
pub fn find_char(v: &Vec<char>, c: char) -> (r: Option<usize>)
    ensures
        match r {
            Some(i) => first_index_of(v@, c) == Some(i as int) && i < v@.len() && v@[i as int]
                == c,
            None => first_index_of(v@, c) is None,
        },
{
    let mut i: usize = 0;
    while i < v.len()
        invariant
            i <= v.len(),
            forall|j: int| 0 <= j < i ==> v@[j] != c,
        decreases v.len() - i,
    {
        if v[i] == c {
            proof {
                lemma_first_index_of(v@, c);
                match first_index_of(v@, c) {
                    Some(k) => {
                        assert(k == i as int);
                    },
                    None => {},
                }
            }
            return Some(i);
        }
        i = i + 1;
    }
    proof {
        lemma_first_index_of(v@, c);
        match first_index_of(v@, c) {
            Some(k) => {
                assert(v@[k] == c);
            },
            None => {},
        }
    }
    None
}

/// The part of `v` before the first `c`, and the part after it where there is one.
pub fn split_once_char(v: &Vec<char>, c: char) -> (r: (Vec<char>, Option<Vec<char>>))
    ensures
        r.0@ == before_first(v@, c),
        match r.1 {
            Some(a) => after_first(v@, c) == Some(a@),
            None => after_first(v@, c) is None,
        },
{
    match find_char(v, c) {
        Some(i) => {
            assert(i < v.len());
            (sub_chars(v, 0, i), Some(sub_chars(v, i + 1, v.len())))
        },
        None => {
            assert(v@.subrange(0, v@.len() as int) =~= v@);
            (sub_chars(v, 0, v.len()), None)
        },
    }
}

/// The pieces of `v` between occurrences of `sep`.
pub fn split_chars(v: &Vec<char>, sep: char) -> (r: Vec<Vec<char>>)
    ensures
        r@.len() == split_char(v@, sep).len(),
        forall|i: int| 0 <= i < r@.len() ==> (#[trigger] r@[i])@ == split_char(v@, sep)[i],
{
    let mut done: Vec<Vec<char>> = Vec::new();
    let mut cur: Vec<char> = Vec::new();
    let mut i: usize = 0;
    while i < v.len()
        invariant
            i <= v.len(),
            done@.len() + 1 == split_char(v@.take(i as int), sep).len(),
            forall|k: int|
                0 <= k < done@.len() ==> (#[trigger] done@[k])@ == split_char(
                    v@.take(i as int),
                    sep,
                )[k],
            cur@ == split_char(v@.take(i as int), sep).last(),
        decreases v.len() - i,
    {
        let c = v[i];
        proof {
            assert(v@.take(i + 1).drop_last() =~= v@.take(i as int));
            assert(v@.take(i + 1).last() == c);
        }
        if c == sep {
            let finished = cur;
            done.push(finished);
            cur = Vec::new();
        } else {
            cur.push(c);
        }
        i = i + 1;
        proof {
            let s = split_char(v@.take(i as int), sep);
            assert forall|k: int| 0 <= k < done@.len() implies (#[trigger] done@[k])@ == s[k] by {}
            assert(cur@ =~= s.last());
        }
    }
    proof {
        assert(v@.take(v@.len() as int) =~= v@);
    }
    let ghost pre = done@;
    done.push(cur);
    proof {
        let s = split_char(v@, sep);
        assert forall|k: int| 0 <= k < done@.len() implies (#[trigger] done@[k])@ == s[k] by {
            if k < pre.len() {
                assert(done@[k] == pre[k]);
            }
        }
    }
    done
}

/// Reads an unsigned decimal number no larger than `max`, as std's `FromStr` for unsigned
/// integers does: an optional `+`, then at least one ASCII digit and nothing else.
pub fn parse_unsigned(v: &Vec<char>, max: u64) -> (r: Option<u64>)
    requires
        max >= 9,
    ensures
        match r {
            Some(n) => unsigned_text_value(v@) == Some(n as nat) && n <= max,
            None => match unsigned_text_value(v@) {
                Some(n) => n > max,
                None => true,
            },
        },
{
    let start: usize = if v.len() > 0 && v[0] == '+' {
        1
    } else {
        0
    };
    let ghost d = if v@.len() > 0 && v@[0] == '+' {
        v@.drop_first()
    } else {
        v@
    };
    assert(d =~= v@.skip(start as int));
    if start >= v.len() {
        return None;
    }
    let mut value: u64 = 0;
    let mut i: usize = start;
    while i < v.len()
        invariant
            start <= i <= v.len(),
            start < v.len(),
            max >= 9,
            d == (if v@.len() > 0 && v@[0] == '+' {
                v@.drop_first()
            } else {
                v@
            }),
            d =~= v@.skip(start as int),
            all_digits(d.take(i - start)),
            value as nat == digits_value(d.take(i - start)),
            value <= max,
        decreases v.len() - i,
    {
        let c = v[i];
        if !('0' <= c && c <= '9') {
            proof {
                assert(d[i - start] == c);
                assert(!all_digits(d));
            }
            return None;
        }
        let dv: u64 = (c as u32 - '0' as u32) as u64;
        proof {
            assert(d.take(i - start + 1).drop_last() =~= d.take(i - start));
            assert(d.take(i - start + 1).last() == c);
            assert(dv == digit_value(c));
        }
        if value > (max - dv) / 10 {
            proof {
                assert(value * 10 + dv > max) by (nonlinear_arith)
                    requires
                        value > (max - dv) / 10,
                        dv <= max || dv > max,
                ;
                lemma_digits_value_prefix(d, i - start + 1);
                assert(d.take(d.len() as int) =~= d);
            }
            return None;
        }
        proof {
            assert(value * 10 + dv <= max) by (nonlinear_arith)
                requires
                    value <= (max - dv) / 10,
                    dv <= 9,
            ;
        }
        value = value * 10 + dv;
        i = i + 1;
        assert(all_digits(d.take(i - start))) by {
            assert forall|k: int| 0 <= k < i - start implies is_ascii_digit(
                #[trigger] d.take(i - start)[k],
            ) by {
                if k < i - start - 1 {
                    assert(d.take(i - start)[k] == d.take(i - start - 1)[k]);
                }
            }
        }
    }
    assert(d.take(i - start) =~= d);
    Some(value)
}

/// Reads a `u32` as `s.parse::<u32>()` does.
pub fn parse_u32(v: &Vec<char>) -> (r: Option<u32>)
    ensures
        r == parse_u32_spec(v@),
{
    match parse_unsigned(v, 0xffff_ffff) {
        Some(n) => Some(n as u32),
        None => None,
    }
}

/// Reads a `u64` as `s.parse::<u64>()` does.
pub fn parse_u64(v: &Vec<char>) -> (r: Option<u64>)
    ensures
        r == parse_u64_spec(v@),
{
    parse_unsigned(v, 0xffff_ffff_ffff_ffff)
}

/// The decimal text of `n`, without leading zeros.
pub open spec fn decimal_text(n: nat) -> Seq<char>
    decreases n,
{
    if n < 10 {
        seq![digit_char(n)]
    } else {
        decimal_text(n / 10).push(digit_char(n % 10))
    }
}

/// The ASCII digit for a value below ten.
pub open spec fn digit_char(d: nat) -> char {
    ('0' as int + d) as char
}

/// The decimal text of `n`, as `to_string` gives it.
pub fn u64_to_decimal(n: u64) -> (r: Vec<char>)
    ensures
        r@ == decimal_text(n as nat),
    decreases n,
{
    if n < 10 {
        let c = char_from_digit(n as u32);
        let mut r: Vec<char> = Vec::new();
        r.push(c);
        assert(r@ =~= seq![digit_char(n as nat)]);
        r
    } else {
        let mut r = u64_to_decimal(n / 10);
        let c = char_from_digit((n % 10) as u32);
        r.push(c);
        r
    }
}

/// The ASCII digit for a value below ten.
pub fn char_from_digit(d: u32) -> (c: char)
    requires
        d < 10,
    ensures
        c == digit_char(d as nat),
{
    if d == 0 {
        '0'
    } else if d == 1 {
        '1'
    } else if d == 2 {
        '2'
    } else if d == 3 {
        '3'
    } else if d == 4 {
        '4'
    } else if d == 5 {
        '5'
    } else if d == 6 {
        '6'
    } else if d == 7 {
        '7'
    } else if d == 8 {
        '8'
    } else {
        '9'
    }
}

/// Whether std's `char::is_numeric` holds of `c`: its general category is a number category
/// (Nd, Nl or No).
pub uninterp spec fn char_is_numeric(c: char) -> bool;

/// Whether `c` is numeric in the sense of `char::is_numeric`: among the ASCII characters
/// exactly the digits `0`..`9` are, and beyond ASCII it is the Unicode number categories.
pub open spec fn numeric_char(c: char) -> bool {
    if (c as u32) < 128 {
        is_ascii_digit(c)
    } else {
        char_is_numeric(c)
    }
}

/// Calls `char::is_numeric`. Its documentation gives the Unicode number categories; of the
/// ASCII characters exactly the digits `0`..`9` are in them, which is all that is claimed
/// beyond the name.
#[verifier::external_body]
pub(crate) fn is_numeric_char(c: char) -> (r: bool)
    ensures
        r == char_is_numeric(c),
        r == numeric_char(c),
{
    c.is_numeric()
}

/// The decimal text of a number is a non-empty digit string whose value is the number.
pub proof fn lemma_decimal_text(n: nat)
    ensures
        decimal_text(n).len() > 0,
        all_digits(decimal_text(n)),
        digits_value(decimal_text(n)) == n,
        decimal_text(n)[0] != '+',
    decreases n,
{
    if n < 10 {
        assert(decimal_text(n) =~= seq![digit_char(n)]);
        assert(seq![digit_char(n)].drop_last() =~= Seq::<char>::empty());
        assert(digit_value(digit_char(n)) == n);
        let t = decimal_text(n);
        assert(digits_value(t.drop_last()) == 0);
        assert(digits_value(t) == digits_value(t.drop_last()) * 10 + digit_value(t.last()));
    } else {
        lemma_decimal_text(n / 10);
        let t = decimal_text(n);
        assert(t.drop_last() =~= decimal_text(n / 10));
        assert forall|i: int| 0 <= i < t.len() implies is_ascii_digit(#[trigger] t[i]) by {
            if i < t.len() - 1 {
                assert(t[i] == decimal_text(n / 10)[i]);
            }
        }
        assert(t[0] == decimal_text(n / 10)[0]);
        assert(t.last() == digit_char(n % 10));
        assert(digit_value(digit_char(n % 10)) == n % 10);
        assert(n == (n / 10) * 10 + n % 10);
        assert(digits_value(t) == digits_value(t.drop_last()) * 10 + digit_value(t.last()));
        assert(digits_value(t.drop_last()) == n / 10);
    }
}

/// Reading the decimal text of a `u32` gives it back.
pub proof fn lemma_parse_decimal_u32(n: u32)
    ensures
        parse_u32_spec(decimal_text(n as nat)) == Some(n),
{
    lemma_decimal_text(n as nat);
}

/// The first occurrence of `c` in `x + [c] + y`, where `x` holds no `c`, is right after `x`.
pub proof fn lemma_first_index_of_concat(x: Seq<char>, c: char, y: Seq<char>)
    requires
        !x.contains(c),
    ensures
        first_index_of(x + seq![c] + y, c) == Some(x.len() as int),
    decreases x.len(),
{
    let s = x + seq![c] + y;
    if x.len() == 0 {
        assert(s[0] == c);
    } else {
        assert(s[0] == x[0]);
        assert(x[0] != c) by {
            if x[0] == c {
                assert(x.contains(c));
            }
        }
        assert(!x.drop_first().contains(c)) by {
            if x.drop_first().contains(c) {
                let k = choose|k: int| 0 <= k < x.drop_first().len() && x.drop_first()[k] == c;
                assert(x[k + 1] == c);
            }
        }
        lemma_first_index_of_concat(x.drop_first(), c, y);
        assert(s.drop_first() =~= x.drop_first() + seq![c] + y);
    }
}

/// A sequence without `c` has no first occurrence of it.
pub proof fn lemma_first_index_of_absent(s: Seq<char>, c: char)
    requires
        !s.contains(c),
    ensures
        first_index_of(s, c) is None,
{
    lemma_first_index_of(s, c);
    match first_index_of(s, c) {
        Some(i) => {
            assert(s[i] == c);
            assert(s.contains(c));
        },
        None => {},
    }
}

/// Splitting `x + [c] + y` at its first `c`, where `x` holds no `c`, gives `x` and `y`.
pub proof fn lemma_split_once_concat(x: Seq<char>, c: char, y: Seq<char>)
    requires
        !x.contains(c),
    ensures
        before_first(x + seq![c] + y, c) == x,
        after_first(x + seq![c] + y, c) == Some(y),
{
    lemma_first_index_of_concat(x, c, y);
    assert((x + seq![c] + y).take(x.len() as int) =~= x);
    assert((x + seq![c] + y).skip(x.len() as int + 1) =~= y);
}

/// Splitting a sequence without `c` at `c` leaves it whole.
pub proof fn lemma_split_once_absent(s: Seq<char>, c: char)
    requires
        !s.contains(c),
    ensures
        before_first(s, c) == s,
        after_first(s, c) is None,
{
    lemma_first_index_of_absent(s, c);
}

/// A concatenation holds `c` only where one of its parts does.
pub proof fn lemma_concat_not_contains(a: Seq<char>, b: Seq<char>, c: char)
    requires
        !a.contains(c),
        !b.contains(c),
    ensures
        !(a + b).contains(c),
{
    if (a + b).contains(c) {
        let k = choose|k: int| 0 <= k < (a + b).len() && (a + b)[k] == c;
        if k < a.len() {
            assert(a[k] == c);
            assert(a.contains(c));
        } else {
            assert(b[k - a.len()] == c);
            assert(b.contains(c));
        }
    }
}

/// A digit string holds no character other than digits.
pub proof fn lemma_digits_not_contains(s: Seq<char>, c: char)
    requires
        all_digits(s),
        !is_ascii_digit(c),
    ensures
        !s.contains(c),
{
    if s.contains(c) {
        let k = choose|k: int| 0 <= k < s.len() && s[k] == c;
        assert(is_ascii_digit(s[k]));
    }
}

/// Every character of `p` is `sep` or a character of one of its pieces, so a property of
/// all the pieces' characters holds of every character of `p` but `sep`.
pub proof fn lemma_split_char_all(p: Seq<char>, sep: char, pred: spec_fn(char) -> bool)
    requires
        forall|k: int, j: int|
            0 <= k < split_char(p, sep).len() && 0 <= j < split_char(p, sep)[k].len() ==> pred(
                #[trigger] split_char(p, sep)[k][j],
            ),
    ensures
        forall|i: int| 0 <= i < p.len() ==> #[trigger] p[i] == sep || pred(p[i]),
    decreases p.len(),
{
    if p.len() > 0 {
        let q = p.drop_last();
        let x = p.last();
        let pq = split_char(q, sep);
        let pp = split_char(p, sep);
        lemma_split_char_len(q, sep);
        assert forall|k: int, j: int| 0 <= k < pq.len() && 0 <= j < pq[k].len() implies pred(
            #[trigger] pq[k][j],
        ) by {
            if x == sep {
                assert(pp[k] == pq[k]);
                assert(pp[k][j] == pq[k][j]);
            } else if k < pq.len() - 1 {
                assert(pp[k] == pq[k]);
                assert(pp[k][j] == pq[k][j]);
            } else {
                assert(pp[k] == pq[k].push(x));
                assert(pp[k][j] == pq[k][j]);
            }
        }
        lemma_split_char_all(q, sep, pred);
        assert forall|i: int| 0 <= i < p.len() implies #[trigger] p[i] == sep || pred(p[i]) by {
            if i < p.len() - 1 {
                assert(p[i] == q[i]);
            } else if x != sep {
                let last = pq.len() - 1;
                assert(pp[last] == pq[last].push(x));
                assert(pp[last][pq[last].len() as int] == x);
            }
        }
    }
}

/// The ASCII lowercase of a character: `A`..`Z` become `a`..`z`, all else stays.
pub open spec fn ascii_lower_char(c: char) -> char {
    if 'A' <= c && c <= 'Z' {
        ((c as u32) + 32) as char
    } else {
        c
    }
}

/// The ASCII lowercase of a string.
pub open spec fn ascii_lowercase(s: Seq<char>) -> Seq<char> {
    s.map_values(|c: char| ascii_lower_char(c))
}

/// Every character of `s` is ASCII.
pub open spec fn all_ascii(s: Seq<char>) -> bool {
    forall|i: int| 0 <= i < s.len() ==> #[trigger] s[i] < '\u{80}'
}

/// What std's `str::to_lowercase` gives for a string: its lowercase by the Unicode
/// `Lowercase` property.
pub uninterp spec fn unicode_lowercase(s: Seq<char>) -> Seq<char>;

/// Calls `str::to_lowercase`. Beyond the name, it is claimed only that on ASCII text it maps
/// `A`..`Z` to `a`..`z` and keeps every other character, as the Unicode case mapping does.
#[verifier::external_body]
pub(crate) fn to_lowercase(s: &str) -> (r: String)
    ensures
        r@ == unicode_lowercase(s@),
        all_ascii(s@) ==> r@ == ascii_lowercase(s@),
{
    s.to_lowercase()
}

/// Appends the decimal text of `n` to a string.
pub fn append_decimal(s: &mut String, n: u64)
    ensures
        final(s)@ == old(s)@ + decimal_text(n as nat),
{
    let digits = u64_to_decimal(n);
    let mut i: usize = 0;
    while i < digits.len()
        invariant
            i <= digits@.len(),
            digits@ == decimal_text(n as nat),
            s@ == old(s)@ + digits@.take(i as int),
        decreases digits@.len() - i,
    {
        push_char(s, digits[i]);
        i = i + 1;
        assert(s@ =~= old(s)@ + digits@.take(i as int));
    }
    assert(digits@.take(i as int) =~= digits@);
}

} // verus!
