//! ASCII-oriented string helpers: case folding, case-insensitive equality,
//! lexicographic order, and decimal rendering/parsing. Resource names, alias
//! sets and API group names are matched case-insensitively in the ASCII
//! sense throughout the crate.
use vstd::prelude::*;

verus! {

/// The ASCII lowercase form of one character; characters outside `A`..`Z`
/// are unchanged.
pub open spec fn lower_char(c: char) -> char {
    if 65 <= c as u32 && c as u32 <= 90 {
        ((c as u32 + 32) as u8) as char
    } else {
        c
    }
}

/// The ASCII lowercase form of a character sequence.
pub open spec fn lower_seq(s: Seq<char>) -> Seq<char> {
    s.map_values(|c: char| lower_char(c))
}

/// Two character sequences are equal up to ASCII case.
pub open spec fn eq_ignore_case(a: Seq<char>, b: Seq<char>) -> bool {
    lower_seq(a) == lower_seq(b)
}

pub fn to_lower_char(c: char) -> (r: char)
    ensures
        r == lower_char(c),
{
    let u = c as u32;
    if 65 <= u && u <= 90 {
        ((u + 32) as u8) as char
    } else {
        c
    }
}

pub fn str_eq_ignore_ascii_case(a: &str, b: &str) -> (r: bool)
    ensures
        r == eq_ignore_case(a@, b@),
{
    let alen = a.unicode_len();
    let blen = b.unicode_len();
    if alen != blen {
        assert(lower_seq(a@).len() != lower_seq(b@).len());
        return false;
    }
    let mut i: usize = 0;
    while i < alen
        invariant
            alen == a@.len(),
            blen == b@.len(),
            alen == blen,
            i <= alen,
            forall|j: int| 0 <= j < i ==> lower_char(a@[j]) == lower_char(b@[j]),
        decreases alen - i,
    {
        let ca = a.get_char(i);
        let cb = b.get_char(i);
        if to_lower_char(ca) != to_lower_char(cb) {
            assert(lower_seq(a@)[i as int] != lower_seq(b@)[i as int]);
            return false;
        }
        i += 1;
    }
    assert(lower_seq(a@) =~= lower_seq(b@));
    true
}

pub fn str_eq(a: &str, b: &str) -> (r: bool)
    ensures
        r == (a@ == b@),
{
    let alen = a.unicode_len();
    let blen = b.unicode_len();
    if alen != blen {
        return false;
    }
    let mut i: usize = 0;
    while i < alen
        invariant
            alen == a@.len(),
            blen == b@.len(),
            alen == blen,
            i <= alen,
            forall|j: int| 0 <= j < i ==> a@[j] == b@[j],
        decreases alen - i,
    {
        if a.get_char(i) != b.get_char(i) {
            return false;
        }
        i += 1;
    }
    assert(a@ =~= b@);
    true
}

/// Relies on `String::push`: appends the given character to the end of the
/// string.
#[verifier::external_body]
pub(crate) fn push_char(s: &mut String, c: char)
    ensures
        final(s)@ == old(s)@.push(c),
{
    s.push(c);
}

/// A freshly built ASCII-lowercase copy of `s`.
pub fn to_lowercase_string(s: &str) -> (r: String)
    ensures
        r@ == lower_seq(s@),
{
    let len = s.unicode_len();
    let mut r = String::new();
    let mut i: usize = 0;
    while i < len
        invariant
            len == s@.len(),
            i <= len,
            r@ == lower_seq(s@.subrange(0, i as int)),
        decreases len - i,
    {
        let c = s.get_char(i);
        push_char(&mut r, to_lower_char(c));
        assert(lower_seq(s@.subrange(0, i + 1 as int)) =~= lower_seq(
            s@.subrange(0, i as int),
        ).push(lower_char(c))) by {
            assert(s@.subrange(0, i + 1 as int).map_values(|x: char| lower_char(x)).last()
                == lower_char(c));
            assert(s@.subrange(0, i + 1 as int).drop_last() =~= s@.subrange(0, i as int));
        }
        i += 1;
    }
    assert(s@.subrange(0, len as int) =~= s@);
    r
}

/// Strict lexicographic order on character sequences, comparing by Unicode
/// scalar value (the order `String`'s `Ord` gives on UTF-8 text).
pub open spec fn lex_lt(a: Seq<char>, b: Seq<char>) -> bool
    decreases a.len(),
{
    if b.len() == 0 {
        false
    } else if a.len() == 0 {
        true
    } else if (a[0] as u32) < (b[0] as u32) {
        true
    } else if a[0] == b[0] {
        lex_lt(a.drop_first(), b.drop_first())
    } else {
        false
    }
}

pub fn str_lex_lt(a: &str, b: &str) -> (r: bool)
    ensures
        r == lex_lt(a@, b@),
{
    let alen = a.unicode_len();
    let blen = b.unicode_len();
    let mut i: usize = 0;
    assert(a@.skip(0) =~= a@);
    assert(b@.skip(0) =~= b@);
    loop
        invariant
            alen == a@.len(),
            blen == b@.len(),
            i <= alen,
            i <= blen,
            lex_lt(a@, b@) == lex_lt(a@.skip(i as int), b@.skip(i as int)),
        decreases alen - i,
    {
        if i == blen {
            assert(b@.skip(i as int).len() == 0);
            return false;
        }
        if i == alen {
            assert(a@.skip(i as int).len() == 0 && b@.skip(i as int).len() > 0);
            return true;
        }
        let ca = a.get_char(i);
        let cb = b.get_char(i);
        assert(a@.skip(i as int)[0] == ca && b@.skip(i as int)[0] == cb);
        if (ca as u32) < (cb as u32) {
            return true;
        }
        if ca != cb {
            return false;
        }
        assert(a@.skip(i as int).drop_first() =~= a@.skip(i + 1 as int));
        assert(b@.skip(i as int).drop_first() =~= b@.skip(i + 1 as int));
        i += 1;
    }
}

/// The character for one decimal digit.
pub open spec fn digit_char(d: nat) -> char
    recommends
        d < 10,
{
    ((48 + d) as u8) as char
}

/// The decimal rendering of a natural number, most significant digit first.
pub open spec fn dec_digits(n: nat) -> Seq<char>
    decreases n,
{
    if n < 10 {
        seq![digit_char(n)]
    } else {
        dec_digits(n / 10).push(digit_char(n % 10))
    }
}

/// The decimal rendering of an integer, with a leading `-` when negative.
pub open spec fn dec_int(n: int) -> Seq<char> {
    if n < 0 {
        seq!['-'] + dec_digits((-n) as nat)
    } else {
        dec_digits(n as nat)
    }
}

fn push_digits(r: &mut String, n: u64)
    ensures
        final(r)@ == old(r)@ + dec_digits(n as nat),
    decreases n,
{
    if n < 10 {
        push_char(r, ((48 + n) as u8) as char);
        assert(final(r)@ =~= old(r)@ + dec_digits(n as nat));
    } else {
        push_digits(r, n / 10);
        push_char(r, ((48 + n % 10) as u8) as char);
        assert(final(r)@ =~= old(r)@ + dec_digits(n as nat));
    }
}

/// The decimal text of an unsigned number.
pub fn u64_to_string(n: u64) -> (r: String)
    ensures
        r@ == dec_digits(n as nat),
{
    let mut r = String::new();
    push_digits(&mut r, n);
    assert(r@ =~= dec_digits(n as nat));
    r
}

/// The decimal text of a signed number.
pub fn i64_to_string(n: i64) -> (r: String)
    ensures
        r@ == dec_int(n as int),
{
    if n >= 0 {
        let r = u64_to_string(n as u64);
        r
    } else {
        let mag: u64 = ((-(n as i128)) as u64);
        let mut r = String::new();
        push_char(&mut r, '-');
        push_digits(&mut r, mag);
        assert(r@ =~= dec_int(n as int));
        r
    }
}

/// Whether a character sequence is one or more decimal digits.
pub open spec fn all_digits(s: Seq<char>) -> bool {
    s.len() > 0 && forall|i: int| 0 <= i < s.len() ==> 48 <= #[trigger] (s[i] as u32) <= 57
}

/// The value of a sequence of decimal digits.
pub open spec fn dec_value(s: Seq<char>) -> nat
    decreases s.len(),
{
    if s.len() == 0 {
        0
    } else {
        dec_value(s.drop_last()) * 10 + (s.last() as u32 - 48) as nat
    }
}

/// Reads a number written as decimal digits. Returns the value exactly when
/// the text is all digits and the value fits in `u64`.
pub fn parse_u64(s: &str) -> (r: Option<u64>)
    ensures
        r matches Some(v) ==> all_digits(s@) && v as nat == dec_value(s@),
        r is None ==> !(all_digits(s@) && dec_value(s@) <= u64::MAX),
{
    let len = s.unicode_len();
    if len == 0 {
        return None;
    }
    let mut acc: u64 = 0;
    let mut i: usize = 0;
    while i < len
        invariant
            len == s@.len(),
            0 < len,
            i <= len,
            forall|j: int| 0 <= j < i ==> 48 <= #[trigger] (s@[j] as u32) <= 57,
            acc as nat == dec_value(s@.subrange(0, i as int)),
        decreases len - i,
    {
        let c = s.get_char(i);
        let u = c as u32;
        if !(48 <= u && u <= 57) {
            return None;
        }
        let d: u64 = (u - 48) as u64;
        if acc > (u64::MAX - d) / 10 {
            // The digits seen so far already exceed what the remaining text
            // could bring back under the limit: every extension of a
            // too-large prefix is too large.
            proof {
                assert(acc as nat * 10 + d as nat > u64::MAX) by (nonlinear_arith)
                    requires
                        acc as nat > (u64::MAX - d as nat) / 10,
                        d as nat <= 9,
                ;
                assert(s@.subrange(0, i + 1 as int).drop_last() =~= s@.subrange(0, i as int));
                assert(dec_value(s@.subrange(0, i + 1 as int)) > u64::MAX);
                lemma_dec_value_prefix_monotone(s@, i + 1 as int);
            }
            return None;
        }
        proof {
            assert(acc as nat * 10 + d as nat <= u64::MAX) by (nonlinear_arith)
                requires
                    acc as nat <= (u64::MAX - d as nat) / 10,
                    d as nat <= 9,
            ;
            assert(s@.subrange(0, i + 1 as int).drop_last() =~= s@.subrange(0, i as int));
        }
        acc = acc * 10 + d;
        i += 1;
    }
    assert(s@.subrange(0, len as int) =~= s@);
    Some(acc)
}

fn push_digits_u128(r: &mut String, n: u128)
    ensures
        final(r)@ == old(r)@ + dec_digits(n as nat),
    decreases n,
{
    if n < 10 {
        push_char(r, ((48 + n) as u8) as char);
        assert(final(r)@ =~= old(r)@ + dec_digits(n as nat));
    } else {
        push_digits_u128(r, n / 10);
        push_char(r, ((48 + n % 10) as u8) as char);
        assert(final(r)@ =~= old(r)@ + dec_digits(n as nat));
    }
}

/// The decimal text of a signed wide number.
pub fn i128_to_string(n: i128) -> (r: String)
    requires
        n != i128::MIN,
    ensures
        r@ == dec_int(n as int),
{
    if n >= 0 {
        let mut r = String::new();
        push_digits_u128(&mut r, n as u128);
        assert(r@ =~= dec_int(n as int));
        r
    } else {
        let mag: u128 = (-(n as i128)) as u128;
        let mut r = String::new();
        push_char(&mut r, '-');
        push_digits_u128(&mut r, mag);
        assert(r@ =~= dec_int(n as int));
        r
    }
}

/// The value a piece of text denotes as a decimal integer: digits with an
/// optional leading minus sign, and nothing else.
pub open spec fn int_text_value(s: Seq<char>) -> Option<int> {
    if s.len() > 0 && s[0] == '-' {
        if all_digits(s.skip(1)) {
            Some(-(dec_value(s.skip(1)) as int))
        } else {
            None
        }
    } else if all_digits(s) {
        Some(dec_value(s) as int)
    } else {
        None
    }
}

/// Reads a signed decimal integer, exactly when the text denotes one that
/// fits in `i64`.
pub fn parse_i64_text(s: &str) -> (r: Option<i64>)
    ensures
        r matches Some(v) ==> int_text_value(s@) == Some(v as int),
        r is None ==> !(int_text_value(s@) matches Some(v) && i64::MIN <= v <= i64::MAX),
{
    let len = s.unicode_len();
    if len > 0 && s.get_char(0) == '-' {
        let rest = s.substring_char(1, len);
        assert(rest@ == s@.skip(1));
        match parse_u64(rest) {
            Some(mag) => {
                if mag <= 9223372036854775808u64 {
                    let v: i64 = (-(mag as i128)) as i64;
                    Some(v)
                } else {
                    None
                }
            },
            None => None,
        }
    } else {
        assert(len > 0 ==> s@[0] != '-');
        match parse_u64(s) {
            Some(mag) => {
                if mag <= i64::MAX as u64 {
                    Some(mag as i64)
                } else {
                    None
                }
            },
            None => None,
        }
    }
}

/// A digit appended to the right never lowers the value: any extension of a
/// prefix whose value is above some bound stays above it.
proof fn lemma_dec_value_prefix_monotone(s: Seq<char>, i: int)
    requires
        0 < i <= s.len(),
    ensures
        dec_value(s) >= dec_value(s.subrange(0, i)),
    decreases s.len() - i,
{
    if i == s.len() {
        assert(s.subrange(0, i) =~= s);
    } else {
        lemma_dec_value_prefix_monotone(s, i + 1);
        assert(s.subrange(0, i + 1).drop_last() =~= s.subrange(0, i));
        assert(dec_value(s.subrange(0, i + 1)) >= dec_value(s.subrange(0, i)))
            by (nonlinear_arith)
            requires
                dec_value(s.subrange(0, i + 1)) == dec_value(s.subrange(0, i)) * 10 + (s.subrange(
                    0,
                    i + 1,
                ).last() as u32 - 48) as nat,
        ;
    }
}

} // verus!
