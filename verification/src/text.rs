//! Text as sequences of characters: white space, fields between separators,
//! and decimal numbers in both directions.

use vstd::prelude::*;
use vstd::std_specs::iter::IteratorSpec;
use vstd::string::*;

verus! {

/// Whether `c` is white space: the code points that Unicode marks as
/// `White_Space`.
pub open spec fn is_space(c: char) -> bool {
    let u = c as u32;
    ||| 0x09 <= u <= 0x0D
    ||| u == 0x20
    ||| u == 0x85
    ||| u == 0xA0
    ||| u == 0x1680
    ||| 0x2000 <= u <= 0x200A
    ||| u == 0x2028
    ||| u == 0x2029
    ||| u == 0x202F
    ||| u == 0x205F
    ||| u == 0x3000
}

/// `s` without its leading white space.
pub open spec fn trim_start(s: Seq<char>) -> Seq<char>
    decreases s.len(),
{
    if s.len() > 0 && is_space(s[0]) {
        trim_start(s.drop_first())
    } else {
        s
    }
}

/// `s` without its trailing white space.
pub open spec fn trim_end(s: Seq<char>) -> Seq<char>
    decreases s.len(),
{
    if s.len() > 0 && is_space(s.last()) {
        trim_end(s.drop_last())
    } else {
        s
    }
}

/// `s` without its leading and trailing white space.
pub open spec fn trim(s: Seq<char>) -> Seq<char> {
    trim_end(trim_start(s))
}

/// Position of the first `c` in `s`, or the length of `s` where it has none.
pub open spec fn index_of(s: Seq<char>, c: char) -> int
    decreases s.len(),
{
    if s.len() == 0 || s[0] == c {
        0
    } else {
        1 + index_of(s.drop_first(), c)
    }
}

/// The fields of `s` between occurrences of `sep`: one more than there are
/// separators, in order, each possibly empty.
pub open spec fn split(s: Seq<char>, sep: char) -> Seq<Seq<char>>
    decreases s.len(),
{
    let i = index_of(s, sep);
    if 0 <= i < s.len() {
        seq![s.subrange(0, i)] + split(s.subrange(i + 1, s.len() as int), sep)
    } else {
        seq![s]
    }
}

/// Whether `c` is one of the ten decimal digits.
pub open spec fn is_digit(c: char) -> bool {
    '0' <= c <= '9'
}

/// The number that the digit `c` stands for.
pub open spec fn digit_value(c: char) -> nat {
    (c as u32 - 0x30) as nat
}

/// The digit that stands for `d`, where `0 <= d <= 9`.
pub open spec fn digit_char(d: int) -> char {
    ((0x30 + d) as u8) as char
}

/// Whether `s` holds decimal digits only.
pub open spec fn all_digits(s: Seq<char>) -> bool {
    forall|i: int| 0 <= i < s.len() ==> is_digit(#[trigger] s[i])
}

/// The number that the digits `s` write in base ten.
pub open spec fn digits_value(s: Seq<char>) -> nat
    decreases s.len(),
{
    if s.len() == 0 {
        0
    } else {
        digits_value(s.drop_last()) * 10 + digit_value(s.last())
    }
}

/// `s` without one leading plus sign.
pub open spec fn unsigned_digits(s: Seq<char>) -> Seq<char> {
    if s.len() > 0 && s[0] == '+' {
        s.drop_first()
    } else {
        s
    }
}

/// The number at most `max` that `s` writes: an optional plus sign, then one
/// or more decimal digits and nothing else. `None` for any other text and for
/// a number above `max`.
pub open spec fn parse_unsigned(s: Seq<char>, max: nat) -> Option<nat> {
    let d = unsigned_digits(s);
    if d.len() > 0 && all_digits(d) && digits_value(d) <= max {
        Some(digits_value(d))
    } else {
        None
    }
}

/// `n` in base ten, without leading zeros.
pub open spec fn decimal(n: nat) -> Seq<char>
    decreases n,
{
    if n < 10 {
        seq![digit_char(n as int)]
    } else {
        decimal(n / 10).push(digit_char((n % 10) as int))
    }
}

/// `n` in base ten, with zeros in front up to `width` characters where it
/// has fewer.
pub open spec fn padded(n: nat, width: nat) -> Seq<char> {
    let d = decimal(n);
    if d.len() >= width {
        d
    } else {
        Seq::new((width - d.len()) as nat, |i: int| '0') + d
    }
}

/// Whether `c` is white space.
pub fn is_whitespace(c: char) -> (space: bool)
    ensures
        space == is_space(c),
{
    let u: u32 = c as u32;
    (0x09 <= u && u <= 0x0D) || u == 0x20 || u == 0x85 || u == 0xA0 || u == 0x1680 || (0x2000
        <= u && u <= 0x200A) || u == 0x2028 || u == 0x2029 || u == 0x202F || u == 0x205F || u
        == 0x3000
}

/// The characters of `s`, one by one.
pub fn chars_of(s: &str) -> (chars: Vec<char>)
    ensures
        chars@ == s@,
{
    broadcast use vstd::string::group_string_axioms;

    let mut chars: Vec<char> = Vec::new();
    let mut rest = s.chars();
    loop
        invariant
            rest.obeys_prophetic_iter_laws(),
            rest.decrease() is Some,
            chars@ + rest.remaining() == s@,
        ensures
            chars@ == s@,
        decreases rest.decrease()->0,
    {
        let ghost before = rest.remaining();
        match rest.next() {
            Some(c) => {
                chars.push(c);
                assert(chars@ + rest.remaining() =~= s@);
            },
            None => {
                assert(before =~= Seq::<char>::empty());
                assert(chars@ + before =~= chars@);
                break ;
            },
        }
    }
    chars
}

/// Whether `c` occurs in `v[lo..hi]`.
pub fn contains_char(v: &Vec<char>, lo: usize, hi: usize, c: char) -> (found: bool)
    requires
        lo <= hi <= v.len(),
    ensures
        found == v@.subrange(lo as int, hi as int).contains(c),
{
    let ghost s = v@.subrange(lo as int, hi as int);
    let mut i: usize = lo;
    while i < hi
        invariant
            lo <= i <= hi <= v.len(),
            s == v@.subrange(lo as int, hi as int),
            forall|j: int| 0 <= j < i - lo ==> s[j] != c,
        decreases hi - i,
    {
        if v[i] == c {
            assert(s[i - lo] == c);
            return true;
        }
        i += 1;
    }
    false
}

/// The bounds of `v[lo..hi]` without its leading and trailing white space.
pub fn trim_bounds(v: &Vec<char>, lo: usize, hi: usize) -> (bounds: (usize, usize))
    requires
        lo <= hi <= v.len(),
    ensures
        lo <= bounds.0 <= bounds.1 <= hi,
        v@.subrange(bounds.0 as int, bounds.1 as int) == trim(v@.subrange(lo as int, hi as int)),
{
    let mut a: usize = lo;
    while a < hi && is_whitespace(v[a])
        invariant
            lo <= a <= hi <= v.len(),
            trim_start(v@.subrange(lo as int, hi as int)) == trim_start(
                v@.subrange(a as int, hi as int),
            ),
        decreases hi - a,
    {
        assert(v@.subrange(a as int, hi as int).drop_first() =~= v@.subrange(
            a as int + 1,
            hi as int,
        ));
        a += 1;
    }
    let mut b: usize = hi;
    while b > a && is_whitespace(v[b - 1])
        invariant
            a <= b <= hi <= v.len(),
            trim_end(v@.subrange(a as int, hi as int)) == trim_end(v@.subrange(a as int, b as int)),
        decreases b - a,
    {
        assert(v@.subrange(a as int, b as int).drop_last() =~= v@.subrange(
            a as int,
            b as int - 1,
        ));
        b -= 1;
    }
    (a, b)
}

/// The bounds of the fields of `v[lo..hi]` between occurrences of `sep`.
pub fn split_bounds(v: &Vec<char>, lo: usize, hi: usize, sep: char) -> (fields: Vec<
    (usize, usize),
>)
    requires
        lo <= hi <= v.len(),
    ensures
        fields@.len() == split(v@.subrange(lo as int, hi as int), sep).len(),
        forall|k: int|
            0 <= k < fields@.len() ==> lo <= (#[trigger] fields@[k]).0 <= fields@[k].1 <= hi,
        forall|k: int|
            0 <= k < fields@.len() ==> v@.subrange(
                (#[trigger] fields@[k]).0 as int,
                fields@[k].1 as int,
            ) == split(v@.subrange(lo as int, hi as int), sep)[k],
{
    let ghost whole = split(v@.subrange(lo as int, hi as int), sep);
    let mut fields: Vec<(usize, usize)> = Vec::new();
    let mut start: usize = lo;
    let mut i: usize = lo;
    while i < hi
        invariant
            lo <= start <= i <= hi <= v.len(),
            whole == split(v@.subrange(lo as int, hi as int), sep),
            forall|j: int| start <= j < i ==> v@[j] != sep,
            forall|k: int|
                0 <= k < fields@.len() ==> lo <= (#[trigger] fields@[k]).0 <= fields@[k].1 <= hi,
            fields@.len() + split(v@.subrange(start as int, hi as int), sep).len() == whole.len(),
            forall|k: int|
                0 <= k < fields@.len() ==> v@.subrange(
                    (#[trigger] fields@[k]).0 as int,
                    fields@[k].1 as int,
                ) == whole[k],
            forall|k: int|
                0 <= k < split(v@.subrange(start as int, hi as int), sep).len() ==> split(
                    v@.subrange(start as int, hi as int),
                    sep,
                )[k] == whole[fields@.len() + k],
        decreases hi - i,
    {
        if v[i] == sep {
            let ghost rest = v@.subrange(start as int, hi as int);
            proof {
                lemma_index_of(rest, sep, i - start);
                assert(rest.subrange(0, i - start) =~= v@.subrange(start as int, i as int));
                assert(rest.subrange(i - start + 1, rest.len() as int) =~= v@.subrange(
                    i as int + 1,
                    hi as int,
                ));
                let next = split(v@.subrange(i as int + 1, hi as int), sep);
                assert(split(rest, sep) =~= seq![v@.subrange(start as int, i as int)] + next);
                assert(split(rest, sep)[0] == v@.subrange(start as int, i as int));
                assert forall|k: int| 0 <= k < next.len() implies next[k] == whole[fields@.len()
                    + 1 + k] by {
                    assert(split(rest, sep)[k + 1] == next[k]);
                }
            }
            fields.push((start, i));
            start = i + 1;
        }
        i += 1;
    }
    proof {
        let rest = v@.subrange(start as int, hi as int);
        lemma_index_of(rest, sep, rest.len() as int);
        assert(split(rest, sep) =~= seq![rest]);
        assert(split(rest, sep)[0] == rest);
    }
    fields.push((start, hi));
    fields
}

/// The number at most `max` that `v[lo..hi]` writes, if it writes one. The
/// limit leaves room for one more digit in 32 bits.
pub fn parse_number(v: &Vec<char>, lo: usize, hi: usize, max: u32) -> (number: Option<u32>)
    requires
        lo <= hi <= v.len(),
        max <= 429_496_728,
    ensures
        match number {
            Some(n) => parse_unsigned(v@.subrange(lo as int, hi as int), max as nat) == Some(
                n as nat,
            ),
            None => parse_unsigned(v@.subrange(lo as int, hi as int), max as nat).is_none(),
        },
{
    let ghost s = v@.subrange(lo as int, hi as int);
    let first: usize = if lo < hi && v[lo] == '+' {
        lo + 1
    } else {
        lo
    };
    let ghost d = v@.subrange(first as int, hi as int);
    assert(d =~= unsigned_digits(s));
    if first == hi {
        return None;
    }
    let mut value: u32 = 0;
    let mut i: usize = first;
    while i < hi
        invariant
            lo <= first <= i <= hi <= v.len(),
            first < hi,
            s == v@.subrange(lo as int, hi as int),
            d == v@.subrange(first as int, hi as int),
            d == unsigned_digits(s),
            max <= 429_496_728,
            value <= max,
            value == digits_value(d.subrange(0, i - first)),
            all_digits(d.subrange(0, i - first)),
        decreases hi - i,
    {
        let c: char = v[i];
        let ghost before = d.subrange(0, i - first);
        let ghost after = d.subrange(0, i - first + 1);
        proof {
            assert(after.drop_last() =~= before);
            assert(after.last() == c);
        }
        if !('0' <= c && c <= '9') {
            assert(!is_digit(d[i - first]));
            return None;
        }
        let digit: u32 = c as u32 - 0x30;
        let next: u32 = value * 10 + digit;
        if next > max {
            proof {
                lemma_digits_value_prefix(d, i - first + 1);
            }
            return None;
        }
        assert(all_digits(after)) by {
            assert forall|j: int| 0 <= j < after.len() implies is_digit(#[trigger] after[j]) by {
                if j < before.len() {
                    assert(after[j] == before[j]);
                }
            }
        }
        value = next;
        i += 1;
    }
    assert(d.subrange(0, hi - first) =~= d);
    Some(value)
}

/// Appends the digit that stands for `d`.
pub fn push_digit(out: &mut String, d: u8)
    requires
        d <= 9,
    ensures
        final(out)@ == old(out)@.push(digit_char(d as int)),
{
    proof {
        reveal_strlit("0");
        reveal_strlit("1");
        reveal_strlit("2");
        reveal_strlit("3");
        reveal_strlit("4");
        reveal_strlit("5");
        reveal_strlit("6");
        reveal_strlit("7");
        reveal_strlit("8");
        reveal_strlit("9");
    }
    let ghost before = out@;
    let digit: &str = if d == 0 {
        "0"
    } else if d == 1 {
        "1"
    } else if d == 2 {
        "2"
    } else if d == 3 {
        "3"
    } else if d == 4 {
        "4"
    } else if d == 5 {
        "5"
    } else if d == 6 {
        "6"
    } else if d == 7 {
        "7"
    } else if d == 8 {
        "8"
    } else {
        "9"
    };
    assert(digit@ =~= seq![digit_char(d as int)]);
    out.append(digit);
    assert(out@ =~= before.push(digit_char(d as int)));
}

/// Appends `n` in base ten, without leading zeros.
pub fn push_decimal(out: &mut String, n: u64)
    ensures
        final(out)@ == old(out)@ + decimal(n as nat),
    decreases n,
{
    let ghost before = out@;
    if n >= 10 {
        push_decimal(out, n / 10);
    }
    push_digit(out, (n % 10) as u8);
    assert(out@ =~= before + decimal(n as nat));
}

/// Appends `n` in base ten, with zeros in front up to `width` characters
/// where it has fewer.
pub fn push_padded(out: &mut String, n: u16, width: usize)
    ensures
        final(out)@ == old(out)@ + padded(n as nat, width as nat),
{
    let ghost before = out@;
    let len: usize = if n < 10 {
        1
    } else if n < 100 {
        2
    } else if n < 1000 {
        3
    } else if n < 10000 {
        4
    } else {
        5
    };
    proof {
        lemma_decimal_len(n as nat);
    }
    let mut k: usize = len;
    while k < width
        invariant
            len <= k,
            len < width ==> k <= width,
            len >= width ==> k == len,
            len == decimal(n as nat).len(),
            out@ == before + Seq::new((k - len) as nat, |i: int| '0'),
        decreases width - k,
    {
        push_digit(out, 0);
        k += 1;
        assert(out@ =~= before + Seq::new((k - len) as nat, |i: int| '0'));
    }
    push_decimal(out, n as u64);
    proof {
        let pad = Seq::new((k - len) as nat, |i: int| '0');
        assert(out@ == before + pad + decimal(n as nat));
        if len < width {
            assert(pad =~= Seq::new((width - len) as nat, |i: int| '0'));
        } else {
            assert(pad =~= Seq::<char>::empty());
        }
    }
    assert(out@ =~= before + padded(n as nat, width as nat));
}

/// The first `c` of `s` is where nothing before is `c` and `c` stands, or at
/// the end where `s` has none.
pub proof fn lemma_index_of(s: Seq<char>, c: char, i: int)
    requires
        0 <= i <= s.len(),
        forall|j: int| 0 <= j < i ==> s[j] != c,
        i < s.len() ==> s[i] == c,
    ensures
        index_of(s, c) == i,
    decreases i,
{
    if i > 0 {
        let rest = s.drop_first();
        assert forall|j: int| 0 <= j < i - 1 implies rest[j] != c by {
            assert(rest[j] == s[j + 1]);
        }
        lemma_index_of(rest, c, i - 1);
    }
}

/// `index_of` stays within the text, and no `c` stands before it.
pub proof fn lemma_index_of_first(s: Seq<char>, c: char)
    ensures
        0 <= index_of(s, c) <= s.len(),
        forall|j: int| 0 <= j < index_of(s, c) ==> s[j] != c,
        index_of(s, c) < s.len() ==> s[index_of(s, c)] == c,
        index_of(s, c) < s.len() <==> s.contains(c),
    decreases s.len(),
{
    if s.len() == 0 || s[0] == c {
    } else {
        let rest = s.drop_first();
        lemma_index_of_first(rest, c);
        assert forall|j: int| 0 <= j < index_of(s, c) implies s[j] != c by {
            if j > 0 {
                assert(rest[j - 1] == s[j]);
            }
        }
        assert(index_of(s, c) < s.len() ==> s[index_of(s, c)] == c) by {
            if index_of(s, c) < s.len() {
                assert(rest[index_of(rest, c)] == s[index_of(rest, c) + 1]);
            }
        }
    }
    if index_of(s, c) < s.len() {
        assert(s[index_of(s, c)] == c);
    }
    if s.contains(c) {
        let k = choose|k: int| 0 <= k < s.len() && s[k] == c;
        assert(index_of(s, c) <= k);
    }
}

/// A number's value is at least that of any of its leading digits.
pub proof fn lemma_digits_value_prefix(s: Seq<char>, k: int)
    requires
        0 <= k <= s.len(),
    ensures
        digits_value(s.subrange(0, k)) <= digits_value(s),
    decreases s.len() - k,
{
    if k == s.len() {
        assert(s.subrange(0, k) =~= s);
    } else {
        lemma_digits_value_prefix(s.drop_last(), k);
        assert(s.drop_last().subrange(0, k) =~= s.subrange(0, k));
    }
}

/// How many digits a number has.
pub proof fn lemma_decimal_len(n: nat)
    ensures
        n < 10 ==> decimal(n).len() == 1,
        10 <= n < 100 ==> decimal(n).len() == 2,
        100 <= n < 1000 ==> decimal(n).len() == 3,
        1000 <= n < 10000 ==> decimal(n).len() == 4,
        10000 <= n < 100000 ==> decimal(n).len() == 5,
    decreases n,
{
    if n >= 10 {
        lemma_decimal_len(n / 10);
    }
}

/// A digit's character stands for the digit, and is neither white space nor
/// a sign or separator.
pub proof fn lemma_digit_char(d: int)
    requires
        0 <= d <= 9,
    ensures
        is_digit(digit_char(d)),
        digit_value(digit_char(d)) == d,
{
}

/// A digit is no white space, sign or separator.
pub proof fn lemma_digit_is_plain(c: char)
    requires
        is_digit(c),
    ensures
        !is_space(c),
        c != '+',
        c != '-',
        c != '/',
        digit_value(c) <= 9,
{
}

/// Appending a digit multiplies the value by ten and adds the digit.
pub proof fn lemma_digits_value_push(s: Seq<char>, c: char)
    ensures
        digits_value(s.push(c)) == digits_value(s) * 10 + digit_value(c),
{
    assert(s.push(c).drop_last() =~= s);
}

/// The decimal text of a number holds digits only, at least one, and writes
/// that number.
pub proof fn lemma_decimal_digits(n: nat)
    ensures
        decimal(n).len() >= 1,
        all_digits(decimal(n)),
        digits_value(decimal(n)) == n,
    decreases n,
{
    if n < 10 {
        lemma_digit_char(n as int);
        lemma_digits_value_push(Seq::empty(), digit_char(n as int));
        assert(decimal(n) =~= Seq::<char>::empty().push(digit_char(n as int)));
    } else {
        lemma_decimal_digits(n / 10);
        lemma_digit_char((n % 10) as int);
        lemma_digits_value_push(decimal(n / 10), digit_char((n % 10) as int));
    }
}

/// Zeros in front change nothing of the value.
pub proof fn lemma_leading_zeros(k: nat, s: Seq<char>)
    ensures
        digits_value(Seq::new(k, |i: int| '0') + s) == digits_value(s),
    decreases s.len(), k,
{
    let zeros = Seq::new(k, |i: int| '0');
    if s.len() > 0 {
        lemma_leading_zeros(k, s.drop_last());
        assert((zeros + s).drop_last() =~= zeros + s.drop_last());
        assert((zeros + s).last() == s.last());
    } else if k > 0 {
        let fewer = Seq::new((k - 1) as nat, |i: int| '0');
        lemma_leading_zeros((k - 1) as nat, s);
        assert((zeros + s).drop_last() =~= fewer + s);
        assert((zeros + s).last() == '0');
    } else {
        assert(zeros + s =~= Seq::<char>::empty());
    }
}

/// The padded text of a number holds digits only, at least one, and writes
/// that number.
pub proof fn lemma_padded_digits(n: nat, width: nat)
    ensures
        padded(n, width).len() >= 1,
        all_digits(padded(n, width)),
        digits_value(padded(n, width)) == n,
{
    lemma_decimal_digits(n);
    let d = decimal(n);
    if d.len() < width {
        lemma_leading_zeros((width - d.len()) as nat, d);
    }
}

/// A text of digits, not empty, is its own trimmed form, holds no sign and
/// no separator, and reads as its value where that is within the limit.
pub proof fn lemma_digits_read_back(s: Seq<char>, max: nat)
    requires
        s.len() >= 1,
        all_digits(s),
    ensures
        trim(s) == s,
        !s.contains('-'),
        !s.contains('/'),
        parse_unsigned(s, max) == (if digits_value(s) <= max {
            Some(digits_value(s))
        } else {
            None
        }),
{
    lemma_digit_is_plain(s[0]);
    lemma_digit_is_plain(s.last());
    assert forall|i: int| 0 <= i < s.len() implies s[i] != '-' && s[i] != '/' by {
        lemma_digit_is_plain(s[i]);
    }
}

/// Fields: a text without the separator is one field.
pub proof fn lemma_split_one(s: Seq<char>, sep: char)
    requires
        !s.contains(sep),
    ensures
        split(s, sep) == seq![s],
{
    lemma_index_of_first(s, sep);
}

/// Fields: what stands before the first separator is the first field, and
/// the fields of the rest follow.
pub proof fn lemma_split_first(a: Seq<char>, b: Seq<char>, sep: char)
    requires
        !a.contains(sep),
    ensures
        split(a + seq![sep] + b, sep) == seq![a] + split(b, sep),
{
    let s = a + seq![sep] + b;
    assert forall|j: int| 0 <= j < a.len() implies s[j] != sep by {
        assert(s[j] == a[j]);
        assert(a.contains(a[j]));
    }
    assert(s[a.len() as int] == sep);
    lemma_index_of(s, sep, a.len() as int);
    assert(s.subrange(0, a.len() as int) =~= a);
    assert(s.subrange(a.len() as int + 1, s.len() as int) =~= b);
}

} // verus!
