//! Text helpers shared by the reference parser and the conversation registry:
//! the Unicode notion of whitespace that `str::trim` uses, and decimal numerals.
use vstd::prelude::*;

verus! {

/// A character of the Unicode `White_Space` property, the set that
/// `char::is_whitespace` and `str::trim` go by.
pub open spec fn is_space(c: char) -> bool {
    let u = c as u32;
    ||| 0x09 <= u <= 0x0D
    ||| u == 0x20
    ||| u == 0x85
    ||| u == 0xA0
    ||| u == 0x1680
    ||| 0x2000 <= u <= 0x200A
    ||| u == 0x2028
    ||| u == 0x2029
    ||| u == 0x202F
    ||| u == 0x205F
    ||| u == 0x3000
}

/// `s` without its leading whitespace.
pub open spec fn trim_start(s: Seq<char>) -> Seq<char>
    decreases s.len(),
{
    if s.len() > 0 && is_space(s[0]) {
        trim_start(s.drop_first())
    } else {
        s
    }
}

/// `s` without its trailing whitespace.
pub open spec fn trim_end(s: Seq<char>) -> Seq<char>
    decreases s.len(),
{
    if s.len() > 0 && is_space(s.last()) {
        trim_end(s.drop_last())
    } else {
        s
    }
}

/// `s` without leading or trailing whitespace, as `str::trim` returns it.
pub open spec fn trimmed(s: Seq<char>) -> Seq<char> {
    trim_end(trim_start(s))
}

/// Whether `c` is whitespace in the sense of `is_space`.
pub fn is_space_char(c: char) -> (b: bool)
    ensures
        b == is_space(c),
{
    let u = c as u32;
    (0x09 <= u && u <= 0x0D) || u == 0x20 || u == 0x85 || u == 0xA0 || u == 0x1680 || (0x2000
        <= u && u <= 0x200A) || u == 0x2028 || u == 0x2029 || u == 0x202F || u == 0x205F || u
        == 0x3000
}

/// `s` without leading or trailing whitespace, as `str::trim` returns it.
pub fn trim_text(s: &str) -> (r: &str)
    ensures
        r@ == trimmed(s@),
{
    let n = s.unicode_len();
    let mut a: usize = 0;
    assert(s@.subrange(0, n as int) =~= s@);
    while a < n && is_space_char(s.get_char(a))
        invariant
            a <= n,
            n == s@.len(),
            trim_start(s@) == trim_start(s@.subrange(a as int, n as int)),
        decreases n - a,
    {
        let ghost rest = s@.subrange(a as int, n as int);
        assert(rest[0] == s@[a as int]);
        assert(rest.drop_first() =~= s@.subrange(a + 1, n as int));
        a = a + 1;
    }
    let ghost front = s@.subrange(a as int, n as int);
    assert(trim_start(s@) == front) by {
        if a < n {
            assert(front[0] == s@[a as int]);
        }
    }
    let mut b: usize = n;
    assert(s@.subrange(a as int, b as int) =~= front);
    while b > a && is_space_char(s.get_char(b - 1))
        invariant
            a <= b <= n,
            n == s@.len(),
            trim_end(front) == trim_end(s@.subrange(a as int, b as int)),
        decreases b,
    {
        let ghost part = s@.subrange(a as int, b as int);
        assert(part.last() == s@[b - 1]);
        assert(part.drop_last() =~= s@.subrange(a as int, b - 1));
        b = b - 1;
    }
    let ghost kept = s@.subrange(a as int, b as int);
    assert(trim_end(front) == kept) by {
        if b > a {
            assert(kept.last() == s@[b - 1]);
        }
    }
    s.substring_char(a, b)
}

/// Trimming the front of `a + b`, where `b` begins with a non-space, trims only `a`.
pub proof fn lemma_trim_start_concat(a: Seq<char>, b: Seq<char>)
    requires
        b.len() > 0,
        !is_space(b[0]),
    ensures
        trim_start(a + b) == trim_start(a) + b,
    decreases a.len(),
{
    if a.len() == 0 {
        assert(a + b =~= b);
        assert(trim_start(a) + b =~= b);
    } else if is_space(a[0]) {
        assert((a + b).drop_first() =~= a.drop_first() + b);
        lemma_trim_start_concat(a.drop_first(), b);
    } else {
        assert((a + b)[0] == a[0]);
    }
}

/// What `trim_start` leaves is a suffix of its argument.
pub proof fn lemma_trim_start_suffix(s: Seq<char>)
    ensures
        trim_start(s).len() <= s.len(),
        trim_start(s) =~= s.skip(s.len() - trim_start(s).len()),
        s.len() > 0 && !is_space(s.last()) ==> trim_start(s).len() > 0,
    decreases s.len(),
{
    if s.len() > 0 && is_space(s[0]) {
        lemma_trim_start_suffix(s.drop_first());
        let t = trim_start(s.drop_first());
        assert(s.drop_first().skip(s.drop_first().len() - t.len()) =~= s.skip(s.len() - t.len()));
        if s.len() > 1 {
            assert(s.drop_first().last() == s.last());
        }
    }
}

/// `trim_end` leaves a sequence that ends in a non-space unchanged.
pub proof fn lemma_trim_end_keeps(s: Seq<char>)
    requires
        s.len() > 0,
        !is_space(s.last()),
    ensures
        trim_end(s) == s,
{
}

/// What `trim_start` leaves begins with a non-space.
pub proof fn lemma_trim_start_begins_solid(s: Seq<char>)
    ensures
        trim_start(s).len() > 0 ==> !is_space(trim_start(s)[0]),
    decreases s.len(),
{
    if s.len() > 0 && is_space(s[0]) {
        lemma_trim_start_begins_solid(s.drop_first());
    }
}

/// What `trim_end` leaves is a prefix of its argument and ends with a
/// non-space.
pub proof fn lemma_trim_end_prefix(s: Seq<char>)
    ensures
        trim_end(s).len() <= s.len(),
        trim_end(s) =~= s.take(trim_end(s).len() as int),
        trim_end(s).len() > 0 ==> !is_space(trim_end(s).last()),
    decreases s.len(),
{
    if s.len() > 0 && is_space(s.last()) {
        lemma_trim_end_prefix(s.drop_last());
        let t = trim_end(s.drop_last());
        assert(s.drop_last().take(t.len() as int) =~= s.take(t.len() as int));
    } else {
        assert(s.take(s.len() as int) =~= s);
    }
}

/// What `trim_start` drops is whitespace.
proof fn lemma_trim_start_drops_space(s: Seq<char>)
    ensures
        trim_start(s).len() <= s.len(),
        trim_start(s) =~= s.skip(s.len() - trim_start(s).len()),
        forall|i: int| 0 <= i < s.len() - trim_start(s).len() ==> is_space(#[trigger] s[i]),
    decreases s.len(),
{
    lemma_trim_start_suffix(s);
    if s.len() > 0 && is_space(s[0]) {
        lemma_trim_start_drops_space(s.drop_first());
        assert forall|i: int| 0 <= i < s.len() - trim_start(s).len() implies is_space(#[trigger] s[i]) by {
            if i > 0 {
                assert(s[i] == s.drop_first()[i - 1]);
            }
        }
    }
}

/// What `trim_end` drops is whitespace.
proof fn lemma_trim_end_drops_space(s: Seq<char>)
    ensures
        forall|i: int| trim_end(s).len() <= i < s.len() ==> is_space(#[trigger] s[i]),
    decreases s.len(),
{
    if s.len() > 0 && is_space(s.last()) {
        lemma_trim_end_drops_space(s.drop_last());
        lemma_trim_end_prefix(s.drop_last());
        assert forall|i: int| trim_end(s).len() <= i < s.len() implies is_space(#[trigger] s[i]) by {
            if i < s.len() - 1 {
                assert(s[i] == s.drop_last()[i]);
            }
        }
    }
}

/// The trimmed text is a stretch of the text, with only whitespace around it.
pub proof fn lemma_trimmed_is_infix(s: Seq<char>)
    ensures
        exists|a: int, b: int|
            0 <= a <= b <= s.len() && #[trigger] s.subrange(a, b) == trimmed(s) && forall|i: int|
                0 <= i < s.len() && (i < a || i >= b) ==> is_space(#[trigger] s[i]),
{
    let t0 = trim_start(s);
    lemma_trim_start_drops_space(s);
    lemma_trim_end_prefix(t0);
    lemma_trim_end_drops_space(t0);
    let a = s.len() - t0.len();
    let b = a + trimmed(s).len();
    assert(s.subrange(a, b) =~= trimmed(s));
    assert forall|i: int| 0 <= i < s.len() && (i < a || i >= b) implies is_space(#[trigger] s[i]) by {
        if i >= b {
            assert(s[i] == t0[i - a]);
        }
    }
}

/// A trimmed text neither begins nor ends with whitespace.
pub proof fn lemma_trimmed_is_solid(s: Seq<char>)
    ensures
        trimmed(s).len() > 0 ==> !is_space(trimmed(s)[0]) && !is_space(trimmed(s).last()),
{
    let t0 = trim_start(s);
    lemma_trim_start_begins_solid(s);
    lemma_trim_end_prefix(t0);
    if trimmed(s).len() > 0 {
        assert(trimmed(s)[0] == t0[0]);
    }
}

/// Trimming twice is trimming once: whitespace around a text changes
/// nothing that trimming keeps.
pub proof fn lemma_trimmed_idempotent(s: Seq<char>)
    ensures
        trimmed(trimmed(s)) == trimmed(s),
{
    let u = trimmed(s);
    lemma_trimmed_is_solid(s);
    if u.len() > 0 {
        assert(trim_start(u) == u);
        lemma_trim_end_keeps(u);
    } else {
        assert(trim_start(u) == u);
        assert(trim_end(u) == u);
    }
}

/// The character of decimal digit `d`.
pub open spec fn digit_char(d: nat) -> char {
    seq!['0', '1', '2', '3', '4', '5', '6', '7', '8', '9'][d as int]
}

/// Whether `c` is an ASCII decimal digit.
pub open spec fn is_digit(c: char) -> bool {
    '0' <= c && c <= '9'
}

/// The value of the decimal digit `c`.
pub open spec fn digit_value(c: char) -> nat {
    ((c as u32) - ('0' as u32)) as nat
}

/// The decimal numeral of `n`, without sign or leading zeros, as `u64`'s
/// `Display` writes it.
pub open spec fn decimal(n: nat) -> Seq<char>
    decreases n,
{
    if n < 10 {
        seq![digit_char(n)]
    } else {
        decimal(n / 10).push(digit_char(n % 10))
    }
}

/// Whether every character of `s` is a decimal digit.
pub open spec fn all_digits(s: Seq<char>) -> bool {
    forall|i: int| 0 <= i < s.len() ==> #[trigger] is_digit(s[i])
}

/// A numeral as `decimal` writes one: digits only, and no leading zero
/// unless the numeral is `0` itself.
pub open spec fn is_canonical_decimal(s: Seq<char>) -> bool {
    &&& s.len() > 0
    &&& all_digits(s)
    &&& (s.len() == 1 || s[0] != '0')
}

/// The number that the digits `s` denote.
pub open spec fn digits_value(s: Seq<char>) -> nat
    decreases s.len(),
{
    if s.len() == 0 {
        0
    } else {
        digits_value(s.drop_last()) * 10 + digit_value(s.last())
    }
}

proof fn lemma_digit_char(d: nat)
    requires
        d < 10,
    ensures
        is_digit(digit_char(d)),
        digit_value(digit_char(d)) == d,
        (digit_char(d) == '0') == (d == 0),
{
}

proof fn lemma_digit_value_bound(c: char)
    requires
        is_digit(c),
    ensures
        digit_value(c) < 10,
        digit_char(digit_value(c)) == c,
{
    let v = digit_value(c);
    if v == 0 { assert(c == '0'); }
    else if v == 1 { assert(c == '1'); }
    else if v == 2 { assert(c == '2'); }
    else if v == 3 { assert(c == '3'); }
    else if v == 4 { assert(c == '4'); }
    else if v == 5 { assert(c == '5'); }
    else if v == 6 { assert(c == '6'); }
    else if v == 7 { assert(c == '7'); }
    else if v == 8 { assert(c == '8'); }
    else { assert(c == '9'); }
}

/// `decimal(n)` is a canonical numeral and denotes `n`.
pub proof fn lemma_decimal(n: nat)
    ensures
        is_canonical_decimal(decimal(n)),
        digits_value(decimal(n)) == n,
    decreases n,
{
    lemma_digit_char(n % 10);
    let d = decimal(n);
    if n < 10 {
        assert(d.drop_last() =~= Seq::<char>::empty());
        assert(d.last() == digit_char(n));
        assert(digits_value(d) == digits_value(d.drop_last()) * 10 + digit_value(d.last()));
        assert(is_digit(d[0]));
    } else {
        lemma_decimal(n / 10);
        let p = decimal(n / 10);
        assert(d.drop_last() =~= p);
        assert(d.last() == digit_char(n % 10));
        assert(d[0] == p[0]);
        assert(digits_value(d) == digits_value(p) * 10 + digit_value(d.last()));
        if n / 10 < 10 {
            lemma_digit_char(n / 10);
            assert(p[0] == digit_char(n / 10));
        } else {
            assert(p.len() == decimal(n / 10 / 10).len() + 1);
            assert(p.len() > 1);
            assert(p[0] != '0');
        }
        assert(d.len() > 1);
        assert(d[0] != '0');
        assert forall|i: int| 0 <= i < d.len() implies #[trigger] is_digit(d[i]) by {
            if i < d.len() - 1 {
                assert(d[i] == p[i]);
            }
        }
    }
}

/// A canonical numeral is the decimal numeral of the number it denotes.
pub proof fn lemma_canonical_decimal_unique(s: Seq<char>)
    requires
        is_canonical_decimal(s),
    ensures
        decimal(digits_value(s)) == s,
    decreases s.len(),
{
    let last = s.last();
    assert(is_digit(s[s.len() - 1]));
    lemma_digit_value_bound(last);
    if s.len() == 1 {
        assert(s.drop_last() =~= Seq::<char>::empty());
        assert(digits_value(s.drop_last()) == 0);
        assert(digits_value(s) == digit_value(last));
        assert(decimal(digits_value(s)) =~= s);
    } else {
        let p = s.drop_last();
        assert(p[0] == s[0]);
        assert forall|i: int| 0 <= i < p.len() implies #[trigger] is_digit(p[i]) by {
            assert(is_digit(s[i]));
        }
        lemma_canonical_decimal_unique(p);
        lemma_decimal(digits_value(p));
        // p has no leading zero, so it denotes a number of at least 1
        if digits_value(p) == 0 {
            assert(decimal(0) =~= seq![digit_char(0)]);
            assert(p =~= seq!['0']);
        }
        let v = digits_value(s);
        assert(v / 10 == digits_value(p));
        assert(v % 10 == digit_value(last));
        assert(decimal(v) =~= s);
    }
}

/// The one-character string of the decimal digit `d`.
fn digit_text(d: u64) -> (s: String)
    requires
        d < 10,
    ensures
        s@ == seq![digit_char(d as nat)],
{
    let lit = if d == 0 {
        "0"
    } else if d == 1 {
        "1"
    } else if d == 2 {
        "2"
    } else if d == 3 {
        "3"
    } else if d == 4 {
        "4"
    } else if d == 5 {
        "5"
    } else if d == 6 {
        "6"
    } else if d == 7 {
        "7"
    } else if d == 8 {
        "8"
    } else {
        "9"
    };
    proof {
        reveal_strlit("0");
        reveal_strlit("1");
        reveal_strlit("2");
        reveal_strlit("3");
        reveal_strlit("4");
        reveal_strlit("5");
        reveal_strlit("6");
        reveal_strlit("7");
        reveal_strlit("8");
        reveal_strlit("9");
    }
    let s = String::from_str(lit);
    assert(s@ =~= seq![digit_char(d as nat)]);
    s
}

/// The decimal numeral of `n`.
pub fn decimal_text(n: u64) -> (s: String)
    ensures
        s@ == decimal(n as nat),
{
    let mut s = digit_text(n % 10);
    let mut m = n / 10;
    assert(n < 10 ==> decimal(n as nat) =~= s@);
    assert(n >= 10 ==> decimal(n as nat) =~= decimal(m as nat) + s@);
    while m > 0
        invariant
            m > 0 ==> decimal(n as nat) =~= decimal(m as nat) + s@,
            m == 0 ==> decimal(n as nat) =~= s@,
        decreases m,
    {
        let d = digit_text(m % 10);
        let ghost old_s = s@;
        s = d.concat(s.as_str());
        let ghost m0 = m as nat;
        m = m / 10;
        assert(m0 < 10 ==> decimal(m0) =~= seq![digit_char(m0 % 10)]);
        assert(m0 >= 10 ==> decimal(m0) =~= decimal(m as nat) + seq![digit_char(m0 % 10)]);
    }
    s
}

} // verus!
