//! References to temper resources: a bare UUID, or a decorated
//! `slug-<uuid>` reference whose trailing UUID names the resource.
use vstd::prelude::*;

use crate::text::{is_space, lemma_trim_end_keeps, lemma_trim_start_concat, lemma_trim_start_suffix, trim_end, trim_start, trim_text, trimmed};

verus! {

/// The lower-case hexadecimal digit of the nibble `d`.
pub open spec fn hex_char(d: nat) -> char {
    seq!['0', '1', '2', '3', '4', '5', '6', '7', '8', '9', 'a', 'b', 'c', 'd', 'e', 'f'][d as int]
}

/// Whether `c` is a hexadecimal digit, in either case.
pub open spec fn is_hex_char(c: char) -> bool {
    ||| ('0' <= c && c <= '9')
    ||| ('a' <= c && c <= 'f')
    ||| ('A' <= c && c <= 'F')
}

/// The value of the hexadecimal digit `c`.
pub open spec fn hex_char_value(c: char) -> nat {
    if '0' <= c && c <= '9' {
        ((c as u32) - ('0' as u32)) as nat
    } else if 'a' <= c && c <= 'f' {
        ((c as u32) - ('a' as u32) + 10) as nat
    } else {
        ((c as u32) - ('A' as u32) + 10) as nat
    }
}

/// The number that the hexadecimal digits `s` denote, most significant first.
pub open spec fn hex_value(s: Seq<char>) -> nat
    decreases s.len(),
{
    if s.len() == 0 {
        0
    } else {
        hex_value(s.drop_last()) * 16 + hex_char_value(s.last())
    }
}

/// The `n` lower-case hexadecimal digits of `v` (taken modulo 16^n), most
/// significant first.
pub open spec fn hex_digits(v: nat, n: nat) -> Seq<char>
    decreases n,
{
    if n == 0 {
        Seq::empty()
    } else {
        hex_digits(v / 16, (n - 1) as nat).push(hex_char(v % 16))
    }
}

/// 16 to the power `n`.
pub open spec fn pow16(n: nat) -> nat
    decreases n,
{
    if n == 0 {
        1
    } else {
        16 * pow16((n - 1) as nat)
    }
}

/// The 32 digits of a hyphenated UUID text, without its four hyphens.
pub open spec fn uuid_hex_body(s: Seq<char>) -> Seq<char> {
    s.subrange(0, 8) + s.subrange(9, 13) + s.subrange(14, 18) + s.subrange(19, 23) + s.subrange(
        24,
        36,
    )
}

/// A hyphenated UUID text: 36 characters, hyphens at 8, 13, 18 and 23, and
/// hexadecimal digits (of either case) everywhere else.
pub open spec fn is_uuid_text(s: Seq<char>) -> bool {
    &&& s.len() == 36
    &&& s[8] == '-'
    &&& s[13] == '-'
    &&& s[18] == '-'
    &&& s[23] == '-'
    &&& forall|i: int| 0 <= i < 32 ==> #[trigger] is_hex_char(uuid_hex_body(s)[i])
}

/// The 128-bit value of a hyphenated UUID text, read big-endian, or `None`
/// where `s` is no such text.
pub open spec fn uuid_text_value(s: Seq<char>) -> Option<u128> {
    if is_uuid_text(s) {
        Some(hex_value(uuid_hex_body(s)) as u128)
    } else {
        None
    }
}

/// The lower-case hyphenated text of the UUID with value `v`.
pub open spec fn uuid_text(v: u128) -> Seq<char> {
    let d = hex_digits(v as nat, 32);
    d.subrange(0, 8) + seq!['-'] + d.subrange(8, 12) + seq!['-'] + d.subrange(12, 16) + seq!['-']
        + d.subrange(16, 20) + seq!['-'] + d.subrange(20, 32)
}

/// Wraps `uuid::Uuid::parse_str` followed by `Uuid::as_u128`. On a text of
/// 36 characters the crate accepts exactly the hyphenated form (its braced and
/// URN forms need other lengths once the text is encoded, or hold non-ASCII
/// bytes where the hyphenated parser wants digits), decodes the 32 digits
/// case-insensitively into 16 big-endian bytes, and `as_u128` reads them
/// big-endian.
#[verifier::external_body]
fn parse_uuid_text(s: &str) -> (r: Option<u128>)
    requires
        s@.len() == 36,
    ensures
        r == uuid_text_value(s@),
{
    match uuid::Uuid::parse_str(s) {
        Ok(u) => Some(u.as_u128()),
        Err(_) => None,
    }
}

/// Wraps `uuid::Uuid::from_u128` and its `to_string`: the crate's `Display`
/// writes the hyphenated form with lower-case digits, the 16 big-endian bytes
/// of the value two digits each.
#[verifier::external_body]
fn format_uuid(v: u128) -> (s: String)
    ensures
        s@ == uuid_text(v),
{
    uuid::Uuid::from_u128(v).to_string()
}

/// The identifier of a temper resource: the 128-bit value of its UUID.
#[derive(Clone, Copy, Debug, PartialEq, Eq, Structural)]
pub struct ResourceId(pub u128);

impl ResourceId {
    /// The resource's UUID in its lower-case hyphenated form.
    pub fn to_string(&self) -> (s: String)
        ensures
            s@ == uuid_text(self.0),
    {
        format_uuid(self.0)
    }

    /// The UUID as one big-endian 128-bit number.
    pub fn as_u128(&self) -> (v: u128)
        ensures
            v == self.0,
    {
        self.0
    }
}

/// The part of a reference before its trailing UUID is either empty or ends
/// in a hyphen.
pub open spec fn is_ref_head(head: Seq<char>) -> bool {
    head.len() == 0 || head.last() == '-'
}

/// The value of the resource that the reference `raw` names: after trimming,
/// its last 36 characters must be a hyphenated UUID text and what precedes
/// them must be empty or end in `-`.
pub open spec fn ref_value(raw: Seq<char>) -> Option<u128> {
    let t = trimmed(raw);
    if t.len() >= 36 && is_ref_head(t.take(t.len() - 36)) {
        uuid_text_value(t.skip(t.len() - 36))
    } else {
        None
    }
}

/// The UUID a reference names: a bare UUID, or the trailing UUID of a
/// decorated `slug-<uuid>` reference. Surrounding whitespace is ignored, and
/// any text that is not a reference gives `None`.
pub fn parse_ref(raw: &str) -> (r: Option<ResourceId>)
    ensures
        r == (match ref_value(raw@) {
            Some(v) => Some(ResourceId(v)),
            None => None,
        }),
{
    let t = trim_text(raw);
    let n = t.unicode_len();
    if n < 36 {
        return None;
    }
    let cut = n - 36;
    if cut > 0 && t.get_char(cut - 1) != '-' {
        return None;
    }
    let tail = t.substring_char(cut, n);
    assert(t@.take(cut as int).len() > 0 ==> t@.take(cut as int).last() == t@[cut - 1]);
    assert(tail@ =~= t@.skip(cut as int));
    match parse_uuid_text(tail) {
        Some(v) => Some(ResourceId(v)),
        None => None,
    }
}

proof fn lemma_hex_char(d: nat)
    requires
        d < 16,
    ensures
        is_hex_char(hex_char(d)),
        hex_char_value(hex_char(d)) == d,
        !is_space(hex_char(d)),
        hex_char(d) != '-',
        (hex_char(d) as u32) < 0x80,
        (hex_char(d) as u32) == if d < 10 {
            48 + d
        } else {
            87 + d
        },
{
    if d == 0 { assert(hex_char(d) == '0'); }
    else if d == 1 { assert(hex_char(d) == '1'); }
    else if d == 2 { assert(hex_char(d) == '2'); }
    else if d == 3 { assert(hex_char(d) == '3'); }
    else if d == 4 { assert(hex_char(d) == '4'); }
    else if d == 5 { assert(hex_char(d) == '5'); }
    else if d == 6 { assert(hex_char(d) == '6'); }
    else if d == 7 { assert(hex_char(d) == '7'); }
    else if d == 8 { assert(hex_char(d) == '8'); }
    else if d == 9 { assert(hex_char(d) == '9'); }
    else if d == 10 { assert(hex_char(d) == 'a'); }
    else if d == 11 { assert(hex_char(d) == 'b'); }
    else if d == 12 { assert(hex_char(d) == 'c'); }
    else if d == 13 { assert(hex_char(d) == 'd'); }
    else if d == 14 { assert(hex_char(d) == 'e'); }
    else { assert(hex_char(d) == 'f'); }
}

/// The digits of `v` are `n` lower-case hexadecimal digits, and they denote
/// `v` when `v` is below 16^n.
proof fn lemma_hex_digits(v: nat, n: nat)
    ensures
        hex_digits(v, n).len() == n,
        forall|i: int| 0 <= i < n ==> {
            let c = #[trigger] hex_digits(v, n)[i];
            &&& is_hex_char(c)
            &&& !is_space(c)
            &&& c != '-'
            &&& (c as u32) < 0x80
        },
        v < pow16(n) ==> hex_value(hex_digits(v, n)) == v,
    decreases n,
{
    if n > 0 {
        let p = hex_digits(v / 16, (n - 1) as nat);
        lemma_hex_digits(v / 16, (n - 1) as nat);
        lemma_hex_char(v % 16);
        let d = hex_digits(v, n);
        assert(d.drop_last() =~= p);
        assert forall|i: int| 0 <= i < n implies {
            let c = #[trigger] hex_digits(v, n)[i];
            &&& is_hex_char(c)
            &&& !is_space(c)
            &&& c != '-'
            &&& (c as u32) < 0x80
        } by {
            if i < n - 1 {
                assert(d[i] == p[i]);
            }
        }
        if v < pow16(n) {
            assert(v / 16 < pow16((n - 1) as nat));
            assert(hex_value(d) == hex_value(p) * 16 + hex_char_value(d.last()));
        }
    }
}

/// The hexadecimal body of `uuid_text(v)` is the 32 digits of `v`, and the
/// text is a UUID text of value `v`.
proof fn lemma_uuid_text(v: u128)
    ensures
        uuid_text(v).len() == 36,
        uuid_hex_body(uuid_text(v)) == hex_digits(v as nat, 32),
        uuid_text_value(uuid_text(v)) == Some(v),
        forall|i: int| 0 <= i < 36 ==> {
            let c = #[trigger] uuid_text(v)[i];
            &&& !is_space(c)
            &&& (c as u32) < 0x80
        },
{
    let d = hex_digits(v as nat, 32);
    lemma_hex_digits(v as nat, 32);
    let u = uuid_text(v);
    assert(uuid_hex_body(u) =~= d);
    reveal_with_fuel(pow16, 33);
    assert(pow16(32) == 0x1_0000_0000_0000_0000_0000_0000_0000_0000);
    assert(hex_value(d) == v as nat);
    assert forall|i: int| 0 <= i < 32 implies #[trigger] is_hex_char(uuid_hex_body(u)[i]) by {
        assert(uuid_hex_body(u)[i] == d[i]);
    }
    assert forall|i: int| 0 <= i < 36 implies {
        let c = #[trigger] uuid_text(v)[i];
        &&& !is_space(c)
        &&& (c as u32) < 0x80
    } by {
        if i < 8 {
            assert(u[i] == d[i]);
        } else if i == 8 || i == 13 || i == 18 || i == 23 {
            assert(u[i] == '-');
        } else if i < 13 {
            assert(u[i] == d[i - 1]);
        } else if i < 18 {
            assert(u[i] == d[i - 2]);
        } else if i < 23 {
            assert(u[i] == d[i - 3]);
        } else {
            assert(u[i] == d[i - 4]);
        }
    }
}

/// Round trip: the text that `ResourceId::to_string` writes, alone or behind
/// a slug that ends in `-`, is a reference that `parse_ref` accepts and reads
/// back as the same identifier.
pub proof fn lemma_ref_round_trip(id: u128, slug: Seq<char>)
    requires
        is_ref_head(slug),
    ensures
        ref_value(slug + uuid_text(id)) == Some(id),
{
    let u = uuid_text(id);
    lemma_uuid_text(id);
    assert(!is_space(u[0]));
    assert(!is_space(u.last()));
    lemma_trim_start_concat(slug, u);
    let s0 = trim_start(slug);
    let t0 = s0 + u;
    assert(t0.last() == u.last());
    lemma_trim_end_keeps(t0);
    assert(trimmed(slug + u) == t0);
    assert(t0.take(t0.len() - 36) =~= s0);
    assert(t0.skip(t0.len() - 36) =~= u);
    lemma_trim_start_suffix(slug);
    if slug.len() > 0 {
        assert(!is_space(slug.last()));
        assert(s0.last() == slug.last());
    }
    assert(is_ref_head(s0));
}

/// A UUID glued to a slug is not a reference: behind a slug whose last
/// character is neither `-` nor whitespace, the text names no resource.
pub proof fn lemma_glued_ref_is_rejected(id: u128, slug: Seq<char>)
    requires
        slug.len() > 0,
        slug.last() != '-',
        !is_space(slug.last()),
    ensures
        ref_value(slug + uuid_text(id)) is None,
{
    let u = uuid_text(id);
    lemma_uuid_text(id);
    assert(!is_space(u[0]));
    lemma_trim_start_concat(slug, u);
    let s0 = trim_start(slug);
    let t0 = s0 + u;
    assert(t0.last() == u.last());
    lemma_trim_end_keeps(t0);
    assert(t0.take(t0.len() - 36) =~= s0);
    lemma_trim_start_suffix(slug);
    assert(s0.last() == slug.last());
}

/// `c` is the character `d`, or the upper case of the lower-case letter `d`.
pub open spec fn same_ignoring_case(c: char, d: char) -> bool {
    ||| (c as u32) == (d as u32)
    ||| ('a' <= d && d <= 'z' && (c as u32) + 32 == (d as u32))
}

proof fn lemma_hex_char_spelling(c: char)
    requires
        is_hex_char(c),
    ensures
        hex_char_value(c) < 16,
        same_ignoring_case(c, hex_char(hex_char_value(c))),
{
    lemma_hex_char(hex_char_value(c));
}

/// Hexadecimal digits denote a number below 16^n, and they spell, up to the
/// case of their letters, the digits `hex_digits` writes for that number.
proof fn lemma_hex_spelling(d: Seq<char>)
    requires
        forall|i: int| 0 <= i < d.len() ==> is_hex_char(#[trigger] d[i]),
    ensures
        hex_value(d) < pow16(d.len()),
        forall|i: int| 0 <= i < d.len() ==> same_ignoring_case(#[trigger] d[i], hex_digits(hex_value(d), d.len())[i]),
    decreases d.len(),
{
    if d.len() > 0 {
        let p = d.drop_last();
        let n = d.len();
        assert forall|i: int| 0 <= i < p.len() implies is_hex_char(#[trigger] p[i]) by {
            assert(p[i] == d[i]);
        }
        lemma_hex_spelling(p);
        assert(is_hex_char(d[n - 1]));
        lemma_hex_char_spelling(d.last());
        let w = hex_value(d);
        let c = hex_char_value(d.last());
        assert(w == hex_value(p) * 16 + c);
        assert(w / 16 == hex_value(p));
        assert(w % 16 == c);
        let h = hex_digits(w, n as nat);
        lemma_hex_digits(hex_value(p), (n - 1) as nat);
        assert(h.drop_last() =~= hex_digits(hex_value(p), (n - 1) as nat));
        assert(h.last() == hex_char(c));
        assert forall|i: int| 0 <= i < d.len() implies same_ignoring_case(#[trigger] d[i], hex_digits(hex_value(d), d.len())[i]) by {
            if i < n - 1 {
                assert(d[i] == p[i]);
                assert(h[i] == h.drop_last()[i]);
            }
        }
    }
}

/// A reference spells out the resource it names: where a text names the
/// resource with id `v`, its trimmed form ends in the 36-character text of
/// `v` (letters in either case), behind nothing or behind a hyphen.
pub proof fn lemma_ref_spells_its_id(raw: Seq<char>, v: u128)
    requires
        ref_value(raw) == Some(v),
    ensures
        ({
            let t = trimmed(raw);
            let tail = t.skip(t.len() - 36);
            &&& t.len() >= 36
            &&& (t.len() == 36 || t[t.len() - 37] == '-')
            &&& forall|i: int| 0 <= i < 36 ==> same_ignoring_case(#[trigger] tail[i], uuid_text(v)[i])
        }),
{
    let t = trimmed(raw);
    let tail = t.skip(t.len() - 36);
    let head = t.take(t.len() - 36);
    if t.len() > 36 {
        assert(head.last() == t[t.len() - 37]);
    }
    let body = uuid_hex_body(tail);
    assert(body.len() == 32);
    assert forall|i: int| 0 <= i < body.len() implies is_hex_char(#[trigger] body[i]) by {
        assert(is_hex_char(uuid_hex_body(tail)[i]));
    }
    lemma_hex_spelling(body);
    reveal_with_fuel(pow16, 33);
    assert(pow16(32) == 0x1_0000_0000_0000_0000_0000_0000_0000_0000);
    assert(v as nat == hex_value(body));
    lemma_uuid_text(v);
    let u = uuid_text(v);
    let h = hex_digits(v as nat, 32);
    assert(uuid_hex_body(u) == h);
    assert forall|i: int| 0 <= i < 36 implies same_ignoring_case(#[trigger] tail[i], uuid_text(v)[i]) by {
        if i == 8 || i == 13 || i == 18 || i == 23 {
            assert(u[i] == '-');
        } else if i < 8 {
            assert(tail[i] == body[i]);
            assert(u[i] == uuid_hex_body(u)[i]);
        } else if i < 13 {
            assert(tail[i] == body[i - 1]);
            assert(u[i] == uuid_hex_body(u)[i - 1]);
        } else if i < 18 {
            assert(tail[i] == body[i - 2]);
            assert(u[i] == uuid_hex_body(u)[i - 2]);
        } else if i < 23 {
            assert(tail[i] == body[i - 3]);
            assert(u[i] == uuid_hex_body(u)[i - 3]);
        } else {
            assert(tail[i] == body[i - 4]);
            assert(u[i] == uuid_hex_body(u)[i - 4]);
        }
    }
}

} // verus!
