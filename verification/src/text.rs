use vstd::prelude::*;

verus! {

// ---------------------------------------------------------------------------
// Decimal numbers
// ---------------------------------------------------------------------------

/// The ASCII character of a decimal digit.
pub open spec fn digit_char(d: nat) -> char
    recommends
        d < 10,
{
    (48 + d) as char
}

/// The decimal rendering of a natural number, most significant digit first, no leading zeros.
pub open spec fn decimal(n: nat) -> Seq<char>
    decreases n,
{
    if n < 10 {
        seq![digit_char(n)]
    } else {
        decimal(n / 10).push(digit_char(n % 10))
    }
}

/// The decimal rendering of an integer, with a leading `-` when it is negative.
pub open spec fn signed_decimal(v: int) -> Seq<char> {
    if v < 0 {
        seq!['-'] + decimal((-v) as nat)
    } else {
        decimal(v as nat)
    }
}

/// Whether a character is an ASCII decimal digit.
pub open spec fn is_digit(c: char) -> bool {
    '0' <= c && c <= '9'
}

/// Whether every character of a sequence is an ASCII decimal digit.
pub open spec fn all_digits(s: Seq<char>) -> bool {
    forall|i: int| 0 <= i < s.len() ==> #[trigger] is_digit(s[i])
}

/// The value of a sequence of decimal digits (leading zeros allowed).
pub open spec fn digits_value(s: Seq<char>) -> nat
    decreases s.len(),
{
    if s.len() == 0 {
        0
    } else {
        digits_value(s.drop_last()) * 10 + ((s.last() as nat) - 48) as nat
    }
}

/// The digits that an unsigned number is read from: the text after an optional leading `+`.
pub open spec fn unsigned_body(s: Seq<char>) -> Seq<char> {
    if s.len() > 0 && s[0] == '+' {
        s.drop_first()
    } else {
        s
    }
}

/// What reading an unsigned number no larger than `max` gives: an optional `+`, then one or
/// more ASCII digits whose value is at most `max`; anything else is refused.
pub open spec fn parse_unsigned(s: Seq<char>, max: nat) -> Option<nat> {
    let d = unsigned_body(s);
    if d.len() > 0 && all_digits(d) && digits_value(d) <= max {
        Some(digits_value(d))
    } else {
        None
    }
}

/// What reading an `i32` gives: an optional `+` or `-`, then one or more ASCII digits whose
/// signed value lies in the range of `i32`; anything else is refused.
pub open spec fn parse_signed_i32(s: Seq<char>) -> Option<int> {
    if s.len() > 0 && s[0] == '-' {
        let d = s.drop_first();
        if d.len() > 0 && all_digits(d) && digits_value(d) <= 0x8000_0000 {
            Some(-(digits_value(d) as int))
        } else {
            None
        }
    } else {
        match parse_unsigned(s, 0x7fff_ffff) {
            Some(v) => Some(v as int),
            None => None,
        }
    }
}

/// Appends one character to a string (`String::push`).
#[verifier::external_body]
pub(crate) fn push_char(s: &mut String, c: char)
    ensures
        final(s)@ == old(s)@.push(c),
{
    s.push(c);
}

fn digit_to_char(d: u64) -> (c: char)
    requires
        d < 10,
    ensures
        c == digit_char(d as nat),
{
    let b: u8 = d as u8;
    let c: char = (48u8 + b) as char;
    c
}

fn push_decimal(s: &mut String, n: u64)
    ensures
        final(s)@ == old(s)@ + decimal(n as nat),
    decreases n,
{
    if n >= 10 {
        push_decimal(s, n / 10);
    }
    let c = digit_to_char(n % 10);
    push_char(s, c);
    proof {
        assert(final(s)@ == old(s)@ + decimal(n as nat)) by {
            if n >= 10 {
                assert(decimal(n as nat) == decimal((n / 10) as nat).push(digit_char((n % 10) as nat)));
            }
        }
    }
}

/// Renders an unsigned number in decimal, as `to_string` does.
pub fn format_u64(n: u64) -> (r: String)
    ensures
        r@ == decimal(n as nat),
{
    let mut s = String::new();
    push_decimal(&mut s, n);
    assert(s@ == decimal(n as nat));
    s
}

/// Renders an `i32` in decimal, with a leading `-` when it is negative, as `to_string` does.
pub fn format_i32(n: i32) -> (r: String)
    ensures
        r@ == signed_decimal(n as int),
{
    let mut s = String::new();
    if n < 0 {
        push_char(&mut s, '-');
        let m: u64 = (0i64 - (n as i64)) as u64;
        push_decimal(&mut s, m);
    } else {
        push_decimal(&mut s, n as u64);
    }
    s
}

proof fn lemma_digits_value_monotone(s: Seq<char>, start: int, i: int, j: int)
    requires
        0 <= start <= i <= j <= s.len(),
        all_digits(s.subrange(start, j)),
    ensures
        digits_value(s.subrange(start, i)) <= digits_value(s.subrange(start, j)),
    decreases j - i,
{
    if i < j {
        let t = s.subrange(start, j);
        assert(t.drop_last() =~= s.subrange(start, j - 1));
        assert(is_digit(t[t.len() - 1]));
        assert forall|k: int| 0 <= k < j - 1 - start implies #[trigger] is_digit(
            s.subrange(start, j - 1)[k],
        ) by {
            assert(s.subrange(start, j - 1)[k] == t[k]);
        }
        lemma_digits_value_monotone(s, start, i, j - 1);
    }
}

/// Reads the decimal digits of `s` from position `start` to its end, refusing a value above
/// `bound`.
fn parse_digits(s: &str, start: usize, len: usize, bound: u64) -> (r: Option<u64>)
    requires
        len == s@.len(),
        start <= len,
    ensures
        match r {
            Some(v) => {
                &&& start < len
                &&& all_digits(s@.subrange(start as int, len as int))
                &&& v == digits_value(s@.subrange(start as int, len as int))
                &&& v <= bound
            },
            None => !(start < len && all_digits(s@.subrange(start as int, len as int))
                && digits_value(s@.subrange(start as int, len as int)) <= bound),
        },
{
    if start == len {
        return None;
    }
    let mut acc: u128 = 0;
    let mut i: usize = start;
    assert(s@.subrange(start as int, start as int) =~= Seq::<char>::empty());
    while i < len
        invariant
            len == s@.len(),
            start < len,
            start <= i <= len,
            acc <= bound,
            all_digits(s@.subrange(start as int, i as int)),
            acc == digits_value(s@.subrange(start as int, i as int)),
        decreases len - i,
    {
        let c = s.get_char(i);
        let ghost next = s@.subrange(start as int, i + 1);
        assert(next.drop_last() =~= s@.subrange(start as int, i as int));
        if !('0' <= c && c <= '9') {
            assert(!is_digit(s@.subrange(start as int, len as int)[i - start]));
            return None;
        }
        let d: u128 = (c as u32 - 48) as u128;
        acc = acc * 10 + d;
        assert forall|k: int| 0 <= k < i + 1 - start implies #[trigger] is_digit(next[k]) by {
            if k < i - start {
                assert(next[k] == s@.subrange(start as int, i as int)[k]);
            }
        }
        assert(acc == digits_value(next));
        if acc > bound as u128 {
            proof {
                if all_digits(s@.subrange(start as int, len as int)) {
                    lemma_digits_value_monotone(s@, start as int, i + 1, len as int);
                }
            }
            return None;
        }
        i = i + 1;
    }
    Some(acc as u64)
}

/// Reads an unsigned number no larger than `max`, as `str::parse` does for unsigned integer
/// types: an optional `+`, then one or more ASCII digits.
pub fn parse_unsigned_at_most(s: &str, max: u32) -> (r: Option<u32>)
    ensures
        match r {
            Some(v) => parse_unsigned(s@, max as nat) == Some(v as nat),
            None => parse_unsigned(s@, max as nat) is None,
        },
{
    let len = s.unicode_len();
    let start: usize = if len > 0 && s.get_char(0) == '+' {
        1
    } else {
        0
    };
    assert(s@.subrange(start as int, len as int) =~= unsigned_body(s@));
    match parse_digits(s, start, len, max as u64) {
        Some(v) => Some(v as u32),
        None => None,
    }
}

/// Reads a `usize`, as `str::parse::<usize>` does: an optional `+`, then one or more ASCII
/// digits whose value fits in a `usize`.
pub fn parse_usize(s: &str) -> (r: Option<usize>)
    ensures
        match r {
            Some(v) => parse_unsigned(s@, usize::MAX as nat) == Some(v as nat),
            None => parse_unsigned(s@, usize::MAX as nat) is None,
        },
{
    let len = s.unicode_len();
    let start: usize = if len > 0 && s.get_char(0) == '+' {
        1
    } else {
        0
    };
    assert(s@.subrange(start as int, len as int) =~= unsigned_body(s@));
    match parse_digits(s, start, len, usize::MAX as u64) {
        Some(v) => Some(v as usize),
        None => None,
    }
}

/// Reads a `u32`, as `str::parse::<u32>` does.
pub fn parse_u32(s: &str) -> (r: Option<u32>)
    ensures
        match r {
            Some(v) => parse_unsigned(s@, u32::MAX as nat) == Some(v as nat),
            None => parse_unsigned(s@, u32::MAX as nat) is None,
        },
{
    parse_unsigned_at_most(s, u32::MAX)
}

/// Reads an `i32`, as `str::parse::<i32>` does: an optional `+` or `-`, then one or more ASCII
/// digits whose signed value fits in an `i32`.
pub fn parse_i32(s: &str) -> (r: Option<i32>)
    ensures
        match r {
            Some(v) => parse_signed_i32(s@) == Some(v as int),
            None => parse_signed_i32(s@) is None,
        },
{
    let len = s.unicode_len();
    if len > 0 && s.get_char(0) == '-' {
        assert(s@.subrange(1, len as int) =~= s@.drop_first());
        match parse_digits(s, 1, len, 0x8000_0000) {
            Some(v) => {
                let r: i64 = 0i64 - (v as i64);
                Some(r as i32)
            },
            None => None,
        }
    } else {
        match parse_unsigned_at_most(s, 0x7fff_ffff) {
            Some(v) => Some(v as i32),
            None => None,
        }
    }
}

proof fn lemma_decimal_digits(n: nat)
    ensures
        decimal(n).len() > 0,
        all_digits(decimal(n)),
        digits_value(decimal(n)) == n,
    decreases n,
{
    if n < 10 {
        let s = decimal(n);
        assert(s.drop_last() =~= Seq::<char>::empty());
        assert(((48 + n) as char) as nat == 48 + n);
        assert(digits_value(s) == digits_value(s.drop_last()) * 10 + ((s.last() as nat) - 48) as nat);
    } else {
        lemma_decimal_digits(n / 10);
        let s = decimal(n);
        let d = (n % 10) as nat;
        assert(s.drop_last() =~= decimal(n / 10));
        assert(((48 + d) as char) as nat == 48 + d);
        assert(s.last() == digit_char(d));
        assert(digits_value(s) == digits_value(decimal(n / 10)) * 10 + d);
        assert((n / 10) * 10 + d == n);
        assert forall|i: int| 0 <= i < s.len() implies #[trigger] is_digit(s[i]) by {
            if i < s.len() - 1 {
                assert(s[i] == decimal(n / 10)[i]);
            }
        }
    }
}

/// Reading back what `format_u64` writes gives the number again: the decimal rendering of `n`
/// reads as `n` under every bound at or above `n`.
pub proof fn lemma_parse_unsigned_decimal(n: nat, max: nat)
    requires
        n <= max,
    ensures
        parse_unsigned(decimal(n), max) == Some(n),
{
    lemma_decimal_digits(n);
    assert(is_digit(decimal(n)[0]));
}

/// Reading back what `format_i32` writes gives the number again: for every `i32` value `v`,
/// `parse_signed_i32(signed_decimal(v)) == Some(v)`.
pub proof fn lemma_parse_i32_signed_decimal(v: int)
    requires
        i32::MIN <= v <= i32::MAX,
    ensures
        parse_signed_i32(signed_decimal(v)) == Some(v),
{
    if v < 0 {
        let m = (-v) as nat;
        lemma_decimal_digits(m);
        let s = signed_decimal(v);
        assert(s[0] == '-');
        assert(s.drop_first() =~= decimal(m));
    } else {
        lemma_decimal_digits(v as nat);
        assert(is_digit(decimal(v as nat)[0]));
    }
}

/// How signs are read: a run of ASCII digits `d` reads as its value with or without a leading
/// `+`, and as its negation after a leading `-`, within the range of `i32`; a text with no digits
/// after its sign, or an empty text, is refused.
pub proof fn lemma_parse_i32_signs(d: Seq<char>)
    ensures
        parse_signed_i32(Seq::empty()) is None,
        parse_signed_i32(seq!['+']) is None,
        parse_signed_i32(seq!['-']) is None,
        d.len() > 0 && all_digits(d) && digits_value(d) <= 0x7fff_ffff ==> {
            &&& parse_signed_i32(d) == Some(digits_value(d) as int)
            &&& parse_signed_i32(seq!['+'] + d) == Some(digits_value(d) as int)
        },
        d.len() > 0 && all_digits(d) && digits_value(d) <= 0x8000_0000 ==> parse_signed_i32(
            seq!['-'] + d,
        ) == Some(-(digits_value(d) as int)),
        d.len() > 0 && all_digits(d) && digits_value(d) > 0x8000_0000 ==> {
            &&& parse_signed_i32(d) is None
            &&& parse_signed_i32(seq!['+'] + d) is None
            &&& parse_signed_i32(seq!['-'] + d) is None
        },
{
    assert(seq!['+'].drop_first() =~= Seq::<char>::empty());
    assert(seq!['-'].drop_first() =~= Seq::<char>::empty());
    assert((seq!['+'] + d).drop_first() =~= d);
    assert((seq!['-'] + d).drop_first() =~= d);
    if d.len() > 0 && all_digits(d) {
        assert(is_digit(d[0]));
        assert((seq!['+'] + d)[0] == '+');
        assert((seq!['-'] + d)[0] == '-');
    }
}

// ---------------------------------------------------------------------------
// Character sequences
// ---------------------------------------------------------------------------

/// `n` zero characters.
pub open spec fn zeros(n: nat) -> Seq<char> {
    Seq::new(n, |_i: int| '0')
}

/// Whether `s` begins with `n` zero characters, i.e. `s.starts_with(&"0".repeat(n))`.
pub open spec fn has_zero_prefix(s: Seq<char>, n: nat) -> bool {
    n <= s.len() && forall|i: int| 0 <= i < n ==> #[trigger] s[i] == '0'
}

/// Whether `s` begins with `n` zero characters.
pub fn starts_with_zeros(s: &str, n: usize) -> (r: bool)
    ensures
        r == has_zero_prefix(s@, n as nat),
{
    let len = s.unicode_len();
    if n > len {
        return false;
    }
    let mut i: usize = 0;
    while i < n
        invariant
            n <= len == s@.len(),
            0 <= i <= n,
            forall|k: int| 0 <= k < i ==> #[trigger] s@[k] == '0',
        decreases n - i,
    {
        if s.get_char(i) != '0' {
            return false;
        }
        i = i + 1;
    }
    true
}

/// `s` with every trailing `c` removed, as `str::trim_end_matches` does with a one-character
/// pattern.
pub open spec fn trim_end_char(s: Seq<char>, c: char) -> Seq<char>
    decreases s.len(),
{
    if s.len() > 0 && s.last() == c {
        trim_end_char(s.drop_last(), c)
    } else {
        s
    }
}

/// Trimming leaves no trailing `c`, and trimming again changes nothing.
pub proof fn lemma_trim_end_char_done(s: Seq<char>, c: char)
    ensures
        !(trim_end_char(s, c).len() > 0 && trim_end_char(s, c).last() == c),
        trim_end_char(trim_end_char(s, c), c) == trim_end_char(s, c),
        trim_end_char(s, c).is_prefix_of(s),
    decreases s.len(),
{
    if s.len() > 0 && s.last() == c {
        lemma_trim_end_char_done(s.drop_last(), c);
        let t = trim_end_char(s.drop_last(), c);
        assert(t.is_prefix_of(s)) by {
            assert forall|i: int| 0 <= i < t.len() implies t[i] == s[i] by {
                assert(t[i] == s.drop_last()[i]);
            }
            assert(t =~= s.subrange(0, t.len() as int));
        }
    } else {
        assert(s =~= s.subrange(0, s.len() as int));
    }
}

/// Removes every trailing `/` from `s`.
pub fn trim_end_slashes(s: &str) -> (r: String)
    ensures
        r@ == trim_end_char(s@, '/'),
{
    let len = s.unicode_len();
    let mut e: usize = len;
    assert(s@.subrange(0, len as int) =~= s@);
    while e > 0 && s.get_char(e - 1) == '/'
        invariant
            len == s@.len(),
            e <= len,
            trim_end_char(s@, '/') == trim_end_char(s@.subrange(0, e as int), '/'),
        decreases e,
    {
        assert(s@.subrange(0, e as int).drop_last() =~= s@.subrange(0, e - 1));
        e = e - 1;
    }
    let t = s.substring_char(0, e);
    t.to_owned()
}

/// Whether `p` occurs in `h` at position `i`.
pub open spec fn occurs_at(h: Seq<char>, p: Seq<char>, i: int) -> bool {
    0 <= i && i + p.len() <= h.len() && h.subrange(i, i + p.len()) == p
}

/// Whether `p` occurs anywhere in `h`, as `str::contains` with a string pattern.
pub open spec fn contains_seq(h: Seq<char>, p: Seq<char>) -> bool {
    exists|i: int| #[trigger] occurs_at(h, p, i)
}

fn occurs_at_exec(h: &str, hlen: usize, p: &str, plen: usize, i: usize) -> (r: bool)
    requires
        hlen == h@.len(),
        plen == p@.len(),
        i + plen <= hlen,
    ensures
        r == occurs_at(h@, p@, i as int),
{
    let mut k: usize = 0;
    while k < plen
        invariant
            hlen == h@.len(),
            plen == p@.len(),
            i + plen <= hlen,
            k <= plen,
            forall|j: int| 0 <= j < k ==> h@[i + j] == #[trigger] p@[j],
        decreases plen - k,
    {
        if h.get_char(i + k) != p.get_char(k) {
            assert(h@.subrange(i as int, i + plen)[k as int] != p@[k as int]);
            return false;
        }
        k = k + 1;
    }
    assert(h@.subrange(i as int, i + plen) =~= p@);
    true
}

/// Whether `p` occurs anywhere in `h`.
pub fn contains_str(h: &str, p: &str) -> (r: bool)
    ensures
        r == contains_seq(h@, p@),
        r == exists|i: int|
            0 <= i && i + p@.len() <= h@.len() && #[trigger] h@.subrange(i, i + p@.len()) == p@,
{
    proof {
        lemma_contains_at_any_position(h@, p@);
    }
    let hlen = h.unicode_len();
    let plen = p.unicode_len();
    if plen > hlen {
        assert forall|i: int| !#[trigger] occurs_at(h@, p@, i) by {}
        return false;
    }
    let mut i: usize = 0;
    let last = hlen - plen;
    loop
        invariant
            hlen == h@.len(),
            plen == p@.len(),
            plen <= hlen,
            last == hlen - plen,
            i <= last,
            forall|j: int| 0 <= j < i ==> !#[trigger] occurs_at(h@, p@, j),
            contains_seq(h@, p@) <==> exists|j: int|
                0 <= j && j + p@.len() <= h@.len() && #[trigger] h@.subrange(j, j + p@.len())
                    == p@,
        decreases last - i,
    {
        if occurs_at_exec(h, hlen, p, plen, i) {
            return true;
        }
        if i == last {
            assert forall|j: int| !#[trigger] occurs_at(h@, p@, j) by {
                if 0 <= j && j < i {
                }
            }
            return false;
        }
        i = i + 1;
    }
}

/// `p` occurs in `h` exactly when some stretch of `h`, at any position, is `p`.
pub proof fn lemma_contains_at_any_position(h: Seq<char>, p: Seq<char>)
    ensures
        contains_seq(h, p) <==> exists|i: int|
            0 <= i && i + p.len() <= h.len() && #[trigger] h.subrange(i, i + p.len()) == p,
{
    if contains_seq(h, p) {
        let i = choose|i: int| #[trigger] occurs_at(h, p, i);
        assert(h.subrange(i, i + p.len()) == p);
    }
    if exists|i: int| 0 <= i && i + p.len() <= h.len() && #[trigger] h.subrange(i, i + p.len()) == p {
        let i = choose|i: int| 0 <= i && i + p.len() <= h.len() && #[trigger] h.subrange(i, i + p.len()) == p;
        assert(occurs_at(h, p, i));
    }
}

/// Whether two strings hold the same characters.
pub fn str_equal(a: &str, b: &str) -> (r: bool)
    ensures
        r == (a@ == b@),
{
    let x = a.to_owned();
    let y = b.to_owned();
    x == y
}

} // verus!
