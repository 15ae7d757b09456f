//! Opaque public identifiers: a database id is tagged with the kind of
//! record it names, enciphered with AES-128 and written in base 52.
use vstd::prelude::*;
use vstd::arithmetic::power::pow;
use vstd::string::StringSliceAdditionalSpecFns;
use aes::cipher::{BlockDecrypt, BlockEncrypt, KeyInit};
use crate::digits::{le_value, digits_in_range, lemma_le_value_push, lemma_le_value_bound, lemma_le_value_prefix};

verus! {

// ---------------------------------------------------------------------------
// Kind tags
// ---------------------------------------------------------------------------

/// The bytes of a tag name read as a little-endian number.
pub open spec fn tag_value(bytes: Seq<u8>) -> int {
    le_value(bytes.map_values(|b: u8| b as int), 256)
}

proof fn lemma_or_shift(r: u64, b: u64, i: u64)
    requires
        i < 8,
        b < 256,
        r < pow(256, i as nat),
    ensures
        r | (b << (8 * i)) == r + b * pow(256, i as nat),
{
    reveal_pow256(i);
    if i == 0 {
        assert(r | (b << 0u64) == r + b) by (bit_vector) requires r < 1u64;
    } else if i == 1 {
        assert(r | (b << 8u64) == r + b * 0x100) by (bit_vector) requires r < 0x100u64, b < 256u64;
    } else if i == 2 {
        assert(r | (b << 16u64) == r + b * 0x10000) by (bit_vector) requires r < 0x10000u64, b < 256u64;
    } else if i == 3 {
        assert(r | (b << 24u64) == r + b * 0x1000000) by (bit_vector) requires r < 0x1000000u64, b < 256u64;
    } else if i == 4 {
        assert(r | (b << 32u64) == r + b * 0x100000000) by (bit_vector) requires r < 0x100000000u64, b < 256u64;
    } else if i == 5 {
        assert(r | (b << 40u64) == r + b * 0x10000000000) by (bit_vector) requires r < 0x10000000000u64, b < 256u64;
    } else if i == 6 {
        assert(r | (b << 48u64) == r + b * 0x1000000000000) by (bit_vector) requires r < 0x1000000000000u64, b < 256u64;
    } else {
        assert(r | (b << 56u64) == r + b * 0x100000000000000) by (bit_vector) requires r < 0x100000000000000u64, b < 256u64;
    }
}

/// `tag` is one-to-one on names without zero bytes: two such names get the
/// same tag exactly when they have the same bytes.
pub proof fn law_tag_injective(a: Seq<u8>, b: Seq<u8>)
    requires
        forall|i: int| 0 <= i < a.len() ==> #[trigger] a[i] != 0,
        forall|i: int| 0 <= i < b.len() ==> #[trigger] b[i] != 0,
    ensures
        tag_value(a) == tag_value(b) <==> a == b,
    decreases a.len(),
{
    let da = a.map_values(|x: u8| x as int);
    let db = b.map_values(|x: u8| x as int);
    if a.len() > 0 && b.len() > 0 {
        let ra = a.drop_first();
        let rb = b.drop_first();
        assert(da.drop_first() =~= ra.map_values(|x: u8| x as int));
        assert(db.drop_first() =~= rb.map_values(|x: u8| x as int));
        assert forall|i: int| 0 <= i < ra.len() implies #[trigger] ra[i] != 0 by {
            assert(ra[i] == a[i + 1]);
        }
        assert forall|i: int| 0 <= i < rb.len() implies #[trigger] rb[i] != 0 by {
            assert(rb[i] == b[i + 1]);
        }
        law_tag_injective(ra, rb);
        lemma_tag_digits(ra);
        lemma_tag_digits(rb);
        let va = tag_value(ra);
        let vb = tag_value(rb);
        if tag_value(a) == tag_value(b) {
            assert(a[0] as int + 256 * va == b[0] as int + 256 * vb);
            assert(a[0] == b[0] && va == vb) by (nonlinear_arith)
                requires
                    a[0] as int + 256 * va == b[0] as int + 256 * vb,
                    0 <= a[0] < 256,
                    0 <= b[0] < 256,
                    va >= 0,
                    vb >= 0,
            ;
            assert(a =~= b) by {
                assert(ra == rb);
                assert forall|i: int| 0 <= i < a.len() implies a[i] == b[i] by {
                    if i > 0 {
                        assert(a[i] == ra[i - 1]);
                        assert(b[i] == rb[i - 1]);
                    }
                }
            }
        }
    } else if a.len() > 0 {
        lemma_tag_positive(a);
        assert(db =~= Seq::<int>::empty());
    } else if b.len() > 0 {
        lemma_tag_positive(b);
        assert(da =~= Seq::<int>::empty());
    } else {
        assert(a =~= b);
    }
}

proof fn lemma_tag_digits(a: Seq<u8>)
    ensures
        digits_in_range(a.map_values(|x: u8| x as int), 256),
        tag_value(a) >= 0,
{
    let d = a.map_values(|x: u8| x as int);
    assert forall|i: int| 0 <= i < d.len() implies 0 <= #[trigger] d[i] < 256 by {}
    crate::digits::lemma_le_value_nonneg(d, 256);
}

proof fn lemma_tag_positive(a: Seq<u8>)
    requires
        a.len() > 0,
        a[0] != 0,
    ensures
        tag_value(a) > 0,
{
    let d = a.map_values(|x: u8| x as int);
    let r = a.drop_first();
    assert(d.drop_first() =~= r.map_values(|x: u8| x as int));
    lemma_tag_digits(r);
    let v = tag_value(r);
    assert(256 * v >= 0) by (nonlinear_arith)
        requires
            v >= 0,
    ;
}

/// The four kinds of records have distinct tags.
pub proof fn law_kind_tags_distinct()
    ensures
        USER_TAG != BOOK_TAG,
        USER_TAG != LIBRARY_TAG,
        USER_TAG != LENDING_TAG,
        BOOK_TAG != LIBRARY_TAG,
        BOOK_TAG != LENDING_TAG,
        LIBRARY_TAG != LENDING_TAG,
{
}

proof fn reveal_pow256(i: u64)
    requires
        i < 8,
    ensures
        i == 0 ==> pow(256, i as nat) == 1,
        i == 1 ==> pow(256, i as nat) == 0x100,
        i == 2 ==> pow(256, i as nat) == 0x10000,
        i == 3 ==> pow(256, i as nat) == 0x1000000,
        i == 4 ==> pow(256, i as nat) == 0x100000000,
        i == 5 ==> pow(256, i as nat) == 0x10000000000,
        i == 6 ==> pow(256, i as nat) == 0x1000000000000,
        i == 7 ==> pow(256, i as nat) == 0x100000000000000,
{
    reveal_with_fuel(pow, 9);
}

/// Packs the bytes of a short name into a number, first byte lowest.
pub fn tag(s: &str) -> (result: u64)
    requires
        s.spec_bytes().len() <= 8,
    ensures
        result == tag_value(s.spec_bytes()),
{
    let bytes = s.as_bytes();
    let ghost d = bytes@.map_values(|b: u8| b as int);
    let mut result: u64 = 0;
    let mut i: usize = 0;
    proof {
        reveal_pow256(0);
        assert(d.take(0) =~= Seq::<int>::empty());
    }
    while i < bytes.len()
        invariant
            bytes@ == s.spec_bytes(),
            bytes@.len() <= 8,
            d == bytes@.map_values(|b: u8| b as int),
            0 <= i <= bytes@.len(),
            result == le_value(d.take(i as int), 256),
            result < pow(256, i as nat),
        decreases bytes@.len() - i,
    {
        let b = bytes[i];
        proof {
            lemma_or_shift(result, b as u64, i as u64);
            assert(d.take(i + 1) =~= d.take(i as int).push(b as int));
            lemma_le_value_push(d.take(i as int), b as int, 256);
            assert(digits_in_range(d.take(i + 1), 256));
            lemma_le_value_bound(d.take(i + 1), 256);
        }
        result = result | ((b as u64) << (8 * i as u64));
        i = i + 1;
    }
    proof {
        assert(d.take(i as int) =~= d);
    }
    result
}


// ---------------------------------------------------------------------------
// Base-52 text form
// ---------------------------------------------------------------------------

/// The symbol for digit `d`: `a`..`z` for 0..25, `A`..`Z` for 26..51.
pub open spec fn digit_char(d: int) -> char {
    if d < 26 {
        (97 + d) as char
    } else {
        (39 + d) as char
    }
}

/// The symbols in digit order.
pub open spec fn alphabet_spec() -> Seq<char> {
    Seq::new(52, |i: int| digit_char(i))
}

/// The digit a symbol stands for, if it is one.
pub open spec fn char_digit(c: char) -> Option<int> {
    if 97 <= c as int <= 122 {
        Some(c as int - 97)
    } else if 65 <= c as int <= 90 {
        Some(c as int - 39)
    } else {
        None
    }
}

/// Every character of `s` is a symbol of the alphabet.
pub open spec fn all_digits(s: Seq<char>) -> bool {
    forall|i: int| 0 <= i < s.len() ==> (#[trigger] char_digit(s[i])) is Some
}

/// The digits that the characters of `s` stand for.
pub open spec fn digits_of(s: Seq<char>) -> Seq<int> {
    s.map_values(|c: char| char_digit(c).unwrap())
}

/// The base-52 digits of `n`, least significant first; zero has one digit.
pub open spec fn base52_digits(n: nat) -> Seq<int>
    decreases n,
{
    if n < 52 {
        seq![n as int]
    } else {
        seq![(n % 52) as int] + base52_digits(n / 52)
    }
}

/// The text form of `n`.
pub open spec fn encode_spec(n: nat) -> Seq<char> {
    base52_digits(n).map_values(|d: int| digit_char(d))
}

/// The number a text form stands for, or `None` when some character is not
/// a symbol of the alphabet.
pub open spec fn decode_spec(s: Seq<char>) -> Option<int> {
    if all_digits(s) {
        Some(le_value(digits_of(s), 52))
    } else {
        None
    }
}

/// Decoding `s` stays within `u128`: its leading run of symbols has at
/// most 23 characters and a value that fits.
pub open spec fn decode_fits(s: Seq<char>) -> bool {
    forall|k: int|
        #![trigger s.take(k)]
        0 <= k <= s.len() && all_digits(s.take(k)) ==> k <= 23 && le_value(digits_of(s.take(k)), 52)
            <= u128::MAX
}

/// Symbol `d` of the alphabet is exactly the character whose digit is `d`.
pub proof fn lemma_alphabet_digit(d: int, c: char)
    requires
        0 <= d < 52,
    ensures
        alphabet_spec()[d] == c <==> char_digit(c) == Some(d),
{
}

/// The alphabet holds 52 distinct symbols.
pub proof fn lemma_alphabet_distinct()
    ensures
        alphabet_spec().len() == 52,
        forall|i: int, j: int|
            0 <= i < 52 && 0 <= j < 52 && i != j ==> alphabet_spec()[i] != alphabet_spec()[j],
{
}

/// The alphabet is the lowercase letters `a` to `z` for the digits 0 to 25,
/// then the uppercase letters `A` to `Z` for 26 to 51. A number below 52 is
/// written as its one letter, and one letter reads back as its digit.
pub proof fn law_alphabet_letters()
    ensures
        forall|d: int| 0 <= d < 26 ==> #[trigger] alphabet_spec()[d] == (97 + d) as char,
        forall|d: int| 26 <= d < 52 ==> #[trigger] alphabet_spec()[d] == (65 + (d - 26)) as char,
        forall|n: nat| n < 26 ==> #[trigger] encode_spec(n) == seq![(97 + n) as char],
        forall|n: nat| 26 <= n < 52 ==> #[trigger] encode_spec(n) == seq![(65 + (n - 26)) as char],
        forall|c: char| 'a' <= c <= 'z' ==> #[trigger] decode_spec(seq![c]) == Some(c as int - 97),
        forall|c: char| 'A' <= c <= 'Z' ==> #[trigger] decode_spec(seq![c]) == Some(c as int - 65 + 26),
{
    assert forall|n: nat| n < 52 implies #[trigger] encode_spec(n) == seq![digit_char(n as int)] by {
        assert(base52_digits(n) == seq![n as int]);
        assert(encode_spec(n) =~= seq![digit_char(n as int)]);
    }
    assert forall|c: char| #![trigger decode_spec(seq![c])]
        ('a' <= c <= 'z' || 'A' <= c <= 'Z') implies decode_spec(seq![c]) == char_digit(c) by {
        let s = seq![c];
        assert(all_digits(s));
        assert(digits_of(s) =~= seq![char_digit(c)->Some_0]);
        assert(digits_of(s).drop_first() =~= Seq::<int>::empty());
        assert(le_value(Seq::<int>::empty(), 52) == 0);
        assert(le_value(digits_of(s), 52) == digits_of(s)[0] + 52 * le_value(digits_of(s).drop_first(), 52));
        assert(decode_spec(s) == Some(le_value(digits_of(s), 52)));
    }
}

#[verifier::external_body]
/// Appends one character; `String::push` of std.
fn push_char(s: &mut String, c: char)
    ensures
        final(s)@ == old(s)@.push(c),
{
    s.push(c)
}

/// The 52 symbols of the text form, in digit order.
pub fn alphabet() -> (result: Vec<char>)
    ensures
        result@ == alphabet_spec(),
        result@.len() == 52,
        forall|d: int| 0 <= d < 26 ==> #[trigger] result@[d] == (97 + d) as char,
        forall|d: int| 26 <= d < 52 ==> #[trigger] result@[d] == (65 + (d - 26)) as char,
{
    let mut result: Vec<char> = Vec::new();
    let mut i: u8 = 0;
    while i < 52
        invariant
            i <= 52,
            result@ == alphabet_spec().take(i as int),
        decreases 52 - i,
    {
        let c = if i < 26 {
            (97 + i) as char
        } else {
            (39 + i) as char
        };
        proof {
            assert(alphabet_spec().take(i + 1) =~= alphabet_spec().take(i as int).push(c));
        }
        result.push(c);
        i = i + 1;
    }
    proof {
        assert(alphabet_spec().take(52) =~= alphabet_spec());
        law_alphabet_letters();
    }
    result
}

proof fn lemma_encode_step(n: nat)
    ensures
        encode_spec(n) == seq![digit_char((n % 52) as int)] + (if n / 52 == 0 {
            Seq::<char>::empty()
        } else {
            encode_spec(n / 52)
        }),
{
    if n < 52 {
        assert(encode_spec(n) =~= seq![digit_char((n % 52) as int)]);
        assert(seq![digit_char((n % 52) as int)] + Seq::<char>::empty() =~= seq![digit_char((n % 52) as int)]);
    } else {
        assert(encode_spec(n) =~= seq![digit_char((n % 52) as int)] + encode_spec(n / 52));
    }
}

/// Writes `n` in base 52, least significant symbol first.
pub fn encode(n: u128) -> (result: String)
    ensures
        result@ == encode_spec(n as nat),
        n < 26 ==> result@ == seq![(97 + n) as char],
        26 <= n < 52 ==> result@ == seq![(65 + (n - 26)) as char],
{
    let alpha = alphabet();
    let mut out = String::new();
    let mut m: u128 = n;
    proof {
        lemma_encode_step(n as nat);
    }
    push_char(&mut out, alpha[(m % 52) as usize]);
    m = m / 52;
    while m != 0
        invariant
            alpha@ == alphabet_spec(),
            out@ + (if m == 0 {
                Seq::<char>::empty()
            } else {
                encode_spec(m as nat)
            }) == encode_spec(n as nat),
        decreases m,
    {
        proof {
            lemma_encode_step(m as nat);
        }
        let ghost before = out@;
        push_char(&mut out, alpha[(m % 52) as usize]);
        proof {
            let rest = if m / 52 == 0 {
                Seq::<char>::empty()
            } else {
                encode_spec((m / 52) as nat)
            };
            assert(before + (seq![digit_char((m % 52) as int)] + rest) =~= out@ + rest);
        }
        m = m / 52;
    }
    proof {
        assert(out@ + Seq::<char>::empty() =~= out@);
        law_alphabet_letters();
    }
    out
}

/// Index of `c` in `alpha`, the first one if it occurs.
fn position(alpha: &Vec<char>, c: char) -> (result: Option<usize>)
    ensures
        match result {
            Some(i) => i < alpha@.len() && alpha@[i as int] == c,
            None => forall|j: int| 0 <= j < alpha@.len() ==> alpha@[j] != c,
        },
{
    let mut i: usize = 0;
    while i < alpha.len()
        invariant
            0 <= i <= alpha@.len(),
            forall|j: int| 0 <= j < i ==> alpha@[j] != c,
        decreases alpha@.len() - i,
    {
        if alpha[i] == c {
            return Some(i);
        }
        i = i + 1;
    }
    None
}

proof fn lemma_pow52_22()
    ensures
        pow(52, 22) <= u128::MAX,
        u128::MAX < pow(52, 23),
{
    reveal_with_fuel(pow, 24);
}

/// Reads a base-52 text form, least significant symbol first, and gives
/// `None` where the number would not fit in `u128` (where `decode_fits`
/// fails).
pub fn decode_checked(s: &str) -> (result: Option<Result<u128, DecodeError>>)
    ensures
        result is None <==> !decode_fits(s@),
        result matches Some(r) ==> match decode_spec(s@) {
            Some(v) => 0 <= v <= u128::MAX && r == Ok::<u128, DecodeError>(v as u128),
            None => r == Err::<u128, DecodeError>(DecodeError),
        },
{
    let alpha = alphabet();
    let mut acc: u128 = 0;
    let mut power: u128 = 1;
    let mut i: usize = 0;
    proof {
        assert(s@.take(0) =~= Seq::<char>::empty());
        assert(digits_of(s@.take(0)) =~= Seq::<int>::empty());
        lemma_pow52_22();
    }
    for c in it: s.chars()
        invariant
            alpha@ == alphabet_spec(),
            it.seq() == s@,
            i == it.index(),
            i <= 23,
            all_digits(s@.take(i as int)),
            acc == le_value(digits_of(s@.take(i as int)), 52),
            i == 0 ==> power == 1,
            i > 0 ==> power == pow(52, (i - 1) as nat),
            pow(52, 22) <= u128::MAX,
            forall|k: int|
                #![trigger s@.take(k)]
                0 <= k <= i && all_digits(s@.take(k)) ==> k <= 23 && le_value(digits_of(s@.take(k)), 52)
                    <= u128::MAX,
    {
        let p = position(&alpha, c);
        proof {
            assert(s@[i as int] == c);
        }
        match p {
            None => {
                proof {
                    if char_digit(c) is Some {
                        let dd = char_digit(c).unwrap();
                        lemma_alphabet_digit(dd, c);
                        assert(alpha@[dd] == c);
                    }
                    assert forall|k: int|
                        #![trigger s@.take(k)]
                        0 <= k <= s@.len() && all_digits(s@.take(k)) implies k <= 23 && le_value(
                        digits_of(s@.take(k)),
                        52,
                    ) <= u128::MAX by {
                        if k > i {
                            assert(s@.take(k)[i as int] == c);
                        }
                    }
                    assert(!all_digits(s@));
                }
                return Some(Err(DecodeError));
            },
            Some(n) => {
                proof {
                    lemma_alphabet_digit(n as int, c);
                    assert(s@.take(i + 1) =~= s@.take(i as int).push(c));
                    assert(all_digits(s@.take(i + 1)));
                    assert(digits_of(s@.take(i + 1)) =~= digits_of(s@.take(i as int)).push(n as int));
                    lemma_le_value_push(digits_of(s@.take(i as int)), n as int, 52);
                }
                if i >= 23 {
                    return None;
                }
                proof {
                    if i > 0 {
                        vstd::arithmetic::power::lemma_pow_increases(52, i as nat, 22);
                        crate::digits::lemma_pow_succ(52, (i - 1) as nat);
                    } else {
                        vstd::arithmetic::power::lemma_pow0(52);
                    }
                }
                if i > 0 {
                    power = power * 52;
                }
                proof {
                    assert(power == pow(52, i as nat));
                    assert(0 <= n as int * power) by (nonlinear_arith)
                        requires
                            power >= 0,
                    ;
                }
                match (n as u128).checked_mul(power) {
                    None => {
                        return None;
                    },
                    Some(x) => match acc.checked_add(x) {
                        None => {
                            return None;
                        },
                        Some(v) => {
                            acc = v;
                        },
                    },
                }
                i = i + 1;
            },
        }
    }
    proof {
        assert(s@.take(i as int) =~= s@);
    }
    Some(Ok(acc))
}

/// Reads a base-52 text form, least significant symbol first.
pub fn decode(s: &str) -> (result: Result<u128, DecodeError>)
    requires
        decode_fits(s@),
    ensures
        match decode_spec(s@) {
            Some(v) => 0 <= v <= u128::MAX && result == Ok::<u128, DecodeError>(v as u128),
            None => result == Err::<u128, DecodeError>(DecodeError),
        },
{
    match decode_checked(s) {
        Some(r) => r,
        None => Err(DecodeError),
    }
}

/// Whether `decode` may read `s`: exactly `decode_fits`.
pub fn decodable(s: &str) -> (result: bool)
    ensures
        result == decode_fits(s@),
{
    decode_checked(s).is_some()
}

/// A text that does not stand for an identifier.
#[derive(Clone, Copy, Debug, PartialEq, Eq)]
pub struct DecodeError;


// ---------------------------------------------------------------------------
// Round trip of the text form
// ---------------------------------------------------------------------------

proof fn lemma_base52_digits(n: nat)
    ensures
        digits_in_range(base52_digits(n), 52),
        le_value(base52_digits(n), 52) == n,
        base52_digits(n).len() >= 1,
    decreases n,
{
    if n < 52 {
        let d = base52_digits(n);
        assert(d.drop_first() =~= Seq::<int>::empty());
        assert(le_value(Seq::<int>::empty(), 52) == 0);
    } else {
        lemma_base52_digits(n / 52);
        let d = base52_digits(n);
        assert(d.drop_first() =~= base52_digits(n / 52));
        assert(digits_in_range(d, 52)) by {
            assert forall|i: int| 0 <= i < d.len() implies 0 <= #[trigger] d[i] < 52 by {
                if i > 0 {
                    assert(d[i] == base52_digits(n / 52)[i - 1]);
                }
            }
        }
        assert(n == n % 52 + 52 * (n / 52));
    }
}

proof fn lemma_encode_digits(n: nat)
    ensures
        all_digits(encode_spec(n)),
        digits_of(encode_spec(n)) == base52_digits(n),
        encode_spec(n).len() == base52_digits(n).len(),
{
    lemma_base52_digits(n);
    let d = base52_digits(n);
    let e = encode_spec(n);
    assert forall|i: int| 0 <= i < e.len() implies (#[trigger] char_digit(e[i])) == Some(d[i]) by {
        assert(0 <= d[i] < 52);
    }
    assert(digits_of(e) =~= d);
}

proof fn lemma_encode_len(n: nat, k: nat)
    requires
        n < pow(52, k),
        k >= 1,
    ensures
        encode_spec(n).len() <= k,
    decreases n,
{
    lemma_encode_digits(n);
    if n >= 52 {
        crate::digits::lemma_pow_succ(52, (k - 1) as nat);
        assert(n / 52 < pow(52, (k - 1) as nat));
        if k == 1 {
            vstd::arithmetic::power::lemma_pow0(52);
            assert(false);
        }
        lemma_encode_len(n / 52, (k - 1) as nat);
        lemma_encode_digits(n / 52);
        assert(base52_digits(n).len() == 1 + base52_digits(n / 52).len());
    }
}

/// Reading back the text form of any `u128` is defined and gives the same
/// number: `decode(encode(n)) == Ok(n)`.
pub proof fn law_decode_encode(n: u128)
    ensures
        decode_fits(encode_spec(n as nat)),
        decode_spec(encode_spec(n as nat)) == Some(n as int),
{
    let e = encode_spec(n as nat);
    lemma_encode_digits(n as nat);
    lemma_base52_digits(n as nat);
    lemma_pow52_22();
    lemma_encode_len(n as nat, 23);
    assert forall|k: int|
        #![trigger e.take(k)]
        0 <= k <= e.len() && all_digits(e.take(k)) implies k <= 23 && le_value(
        digits_of(e.take(k)),
        52,
    ) <= u128::MAX by {
        assert(digits_of(e.take(k)) =~= base52_digits(n as nat).take(k));
        lemma_le_value_prefix(base52_digits(n as nat), k, 52);
    }
}

/// A text form as `encode` writes it: at least one symbol, all of them in
/// the alphabet, and no trailing `a` (a zero digit) except for zero itself.
pub open spec fn canonical(s: Seq<char>) -> bool {
    &&& s.len() >= 1
    &&& all_digits(s)
    &&& (s.len() == 1 || s.last() != 'a')
}

proof fn lemma_canonical_positive(s: Seq<char>)
    requires
        canonical(s),
        s.len() >= 2,
    ensures
        decode_spec(s.drop_first()) is Some,
        decode_spec(s.drop_first())->Some_0 >= 1,
    decreases s.len(),
{
    let rest = s.drop_first();
    assert(all_digits(rest)) by {
        assert forall|i: int| 0 <= i < rest.len() implies (#[trigger] char_digit(rest[i])) is Some by {
            assert(rest[i] == s[i + 1]);
        }
    }
    let d = digits_of(rest);
    assert(d.drop_first() =~= digits_of(rest.drop_first()));
    if rest.len() == 1 {
        assert(rest[0] == s.last());
        assert(d[0] >= 1);
        assert(le_value(Seq::<int>::empty(), 52) == 0);
        assert(d.drop_first() =~= Seq::<int>::empty());
    } else {
        assert(rest.last() == s.last());
        lemma_canonical_positive(rest);
        assert(all_digits(rest.drop_first())) by {
            assert forall|i: int| 0 <= i < rest.drop_first().len() implies (#[trigger] char_digit(
                rest.drop_first()[i],
            )) is Some by {
                assert(rest.drop_first()[i] == rest[i + 1]);
            }
        }
        assert(d[0] >= 0);
    }
}

/// The text form is unique: writing back the number that a canonical text
/// stands for gives that text, so `encode(decode(s)) == s`.
pub proof fn law_encode_decode(s: Seq<char>)
    requires
        canonical(s),
    ensures
        decode_spec(s) is Some,
        encode_spec(decode_spec(s)->Some_0 as nat) == s,
    decreases s.len(),
{
    let c = s[0];
    let d0 = char_digit(c)->Some_0;
    assert(char_digit(s[0]) is Some);
    assert(0 <= d0 < 52);
    let rest = s.drop_first();
    assert(digits_of(s).drop_first() =~= digits_of(rest));
    if s.len() == 1 {
        assert(rest =~= Seq::<char>::empty());
        assert(all_digits(rest));
        assert(digits_of(rest) =~= Seq::<int>::empty());
        assert(le_value(Seq::<int>::empty(), 52) == 0);
        assert(le_value(digits_of(s), 52) == d0);
        assert(encode_spec(d0 as nat) =~= seq![digit_char(d0)]);
        assert(digit_char(d0) == c);
        assert(encode_spec(d0 as nat) =~= s);
    } else {
        lemma_canonical_positive(s);
        assert(canonical(rest)) by {
            assert(rest.last() == s.last());
        }
        law_encode_decode(rest);
        let v = le_value(digits_of(rest), 52);
        let n = d0 + 52 * v;
        assert(le_value(digits_of(s), 52) == n);
        assert(n >= 52);
        assert(n % 52 == d0 && n / 52 == v) by (nonlinear_arith)
            requires
                n == d0 + 52 * v,
                0 <= d0 < 52,
                v >= 1,
        ;
        assert(digit_char(d0) == c);
        assert(encode_spec(n as nat) =~= seq![digit_char(d0)] + encode_spec(v as nat));
        assert(seq![c] + rest =~= s);
    }
}

// ---------------------------------------------------------------------------
// Block cipher
// ---------------------------------------------------------------------------

/// AES-128 under `key` of the 16-byte block whose little-endian reading is
/// `block`, read back little-endian.
pub uninterp spec fn aes128_encrypt(key: Seq<u8>, block: u128) -> u128;

/// AES-128 decryption under `key`, in the same byte order.
pub uninterp spec fn aes128_decrypt(key: Seq<u8>, block: u128) -> u128;

/// `aes::Aes128::encrypt_block` on the little-endian bytes of `block`.
/// Claims that the result is the AES-128 image of the block under `key`,
/// and that no other block has the same image: a block cipher under one
/// key is a permutation of blocks.
#[verifier::external_body]
fn aes128_encrypt_block(key: &[u8; 16], block: u128) -> (result: u128)
    ensures
        result == aes128_encrypt(key@, block),
        forall|other: u128| #[trigger] aes128_encrypt(key@, other) == result ==> other == block,
{
    let cipher = aes::Aes128::new(key.into());
    let mut bytes = block.to_le_bytes().into();
    cipher.encrypt_block(&mut bytes);
    u128::from_le_bytes(bytes.into())
}

/// `aes::Aes128::decrypt_block` on the little-endian bytes of `block`.
/// Claims that the result is the AES-128 preimage of the block under `key`:
/// decryption undoes encryption under the same key, as for any block cipher.
#[verifier::external_body]
fn aes128_decrypt_block(key: &[u8; 16], block: u128) -> (result: u128)
    ensures
        result == aes128_decrypt(key@, block),
        forall|plain: u128| #[trigger] aes128_encrypt(key@, plain) == block ==> result == plain,
{
    let cipher = aes::Aes128::new(key.into());
    let mut bytes = block.to_le_bytes().into();
    cipher.decrypt_block(&mut bytes);
    u128::from_le_bytes(bytes.into())
}

/// The 128-bit block that carries a kind tag in its high half and a
/// database id in its low half.
pub open spec fn tagged(tag: u64, id: u64) -> u128 {
    (tag as int * 0x1_0000_0000_0000_0000 + id as int) as u128
}

proof fn lemma_tagged(tag: u64, id: u64)
    ensures
        ((tag as u128) << 64u128) | (id as u128) == tagged(tag, id),
        (tagged(tag, id) as u64) == id,
        (tagged(tag, id) >> 64u128) as u64 == tag,
{
    let t = tag as u128;
    let i = id as u128;
    assert((t << 64u128) | i == t * 0x1_0000_0000_0000_0000u128 + i) by (bit_vector)
        requires
            t < 0x1_0000_0000_0000_0000u128,
            i < 0x1_0000_0000_0000_0000u128,
    ;
    let x: u128 = tagged(tag, id);
    assert(x == t * 0x1_0000_0000_0000_0000u128 + i);
    assert(x as u64 == i as u64 && (x >> 64u128) as u64 == t as u64) by (bit_vector)
        requires
            t < 0x1_0000_0000_0000_0000u128,
            i < 0x1_0000_0000_0000_0000u128,
            x == t * 0x1_0000_0000_0000_0000u128 + i,
    ;
}

proof fn lemma_halves(x: u128)
    ensures
        (x >> 64u128) as u64 == x / 0x1_0000_0000_0000_0000,
        x as u64 == x % 0x1_0000_0000_0000_0000,
        x == (x / 0x1_0000_0000_0000_0000) * 0x1_0000_0000_0000_0000 + x % 0x1_0000_0000_0000_0000,
{
    assert((x >> 64u128) as u64 == x / 0x1_0000_0000_0000_0000u128 && x as u64 == x
        % 0x1_0000_0000_0000_0000u128) by (bit_vector);
}

/// The kind tag carried by a deciphered block.
pub open spec fn block_tag(block: u128) -> int {
    block as int / 0x1_0000_0000_0000_0000
}

/// The database id carried by a deciphered block.
pub open spec fn block_id(block: u128) -> int {
    block as int % 0x1_0000_0000_0000_0000
}

/// The database id that the enciphered value `value` stands for under
/// `key` as an identifier of kind `tag`: the deciphered block must carry
/// `tag` and an id that fits in `i64`.
pub open spec fn sql_id_spec(tag: u64, key: Seq<u8>, value: u128) -> Option<int> {
    let block = aes128_decrypt(key, value);
    if block_tag(block) == tag && block_id(block) <= i64::MAX {
        Some(block_id(block))
    } else {
        None
    }
}

/// Enciphers `id` together with the kind tag `tag`.
fn encrypt(tag: u64, id: u64, key: &[u8; 16]) -> (result: u128)
    ensures
        result == aes128_encrypt(key@, tagged(tag, id)),
        forall|t: u64, x: u64|
            #[trigger] aes128_encrypt(key@, tagged(t, x)) == result ==> t == tag && x == id,
{
    proof {
        lemma_tagged(tag, id);
    }
    let block = ((tag as u128) << 64u128) | (id as u128);
    let result = aes128_encrypt_block(key, block);
    proof {
        assert forall|t: u64, x: u64|
            #[trigger] aes128_encrypt(key@, tagged(t, x)) == result implies t == tag && x == id by {
            lemma_tagged(t, x);
        }
    }
    result
}

/// Deciphers `id` and keeps the database id of its low half.
fn decrypt(id: u128, key: &[u8; 16]) -> (result: u64)
    ensures
        result == aes128_decrypt(key@, id) as u64,
        forall|tag: u64, plain: u64|
            #[trigger] aes128_encrypt(key@, tagged(tag, plain)) == id ==> result == plain,
{
    let block = aes128_decrypt_block(key, id);
    proof {
        assert forall|tag: u64, plain: u64|
            #[trigger] aes128_encrypt(key@, tagged(tag, plain)) == id implies block as u64 == plain by {
            lemma_tagged(tag, plain);
        }
    }
    block as u64
}

// ---------------------------------------------------------------------------
// Identifiers
// ---------------------------------------------------------------------------

/// A public identifier of a record of the kind `TAG`.
#[derive(Clone, Copy, Debug, PartialEq, Eq)]
pub struct Id<const TAG: u64> {
    value: u128,
}

impl<const TAG: u64> View for Id<TAG> {
    type V = u128;

    closed spec fn view(&self) -> u128 {
        self.value
    }
}

impl<const TAG: u64> Id<TAG> {
    /// The identifier of database id `id` under `key`. Identifiers are
    /// unique: under one key, no other database id and no other kind of
    /// record gives the same identifier.
    pub fn new(id: u64, key: &[u8; 16]) -> (result: Self)
        ensures
            result@ == aes128_encrypt(key@, tagged(TAG, id)),
            forall|tag: u64, other: u64|
                #[trigger] aes128_encrypt(key@, tagged(tag, other)) == result@ ==> tag == TAG && other == id,
    {
        Id { value: encrypt(TAG, id, key) }
    }

    /// The database id that this identifier stands for under `key`; for an
    /// identifier made by `new` under the same key, the id it was made from.
    pub fn to_u64(self, key: &[u8; 16]) -> (result: u64)
        ensures
            result == aes128_decrypt(key@, self@) as u64,
            forall|id: u64| self@ == #[trigger] aes128_encrypt(key@, tagged(TAG, id)) ==> result == id,
    {
        decrypt(self.value, key)
    }

    /// The database id of this identifier under `key`: it must have been
    /// made for the kind `TAG` and name an id that fits in `i64`.
    pub fn sql_id(self, key: &[u8; 16]) -> (result: Result<i64, DecodeError>)
        ensures
            match result {
                Ok(v) => sql_id_spec(TAG, key@, self@) == Some(v as int),
                Err(_) => sql_id_spec(TAG, key@, self@) is None,
            },
            forall|id: u64|
                self@ == #[trigger] aes128_encrypt(key@, tagged(TAG, id)) ==> if id <= i64::MAX {
                    result == Ok::<i64, DecodeError>(id as i64)
                } else {
                    result is Err
                },
    {
        let block = aes128_decrypt_block(key, self.value);
        proof {
            lemma_halves(block);
            assert forall|id: u64| self@ == #[trigger] aes128_encrypt(key@, tagged(TAG, id)) implies block
                == tagged(TAG, id) by {}
            assert forall|id: u64| self@ == #[trigger] aes128_encrypt(key@, tagged(TAG, id)) implies block_tag(
                block,
            ) == TAG && block_id(block) == id by {
                lemma_halves(tagged(TAG, id));
            }
        }
        let tag = (block >> 64u128) as u64;
        let low = block as u64;
        if tag == TAG && low <= 0x7fff_ffff_ffff_ffff {
            Ok(low as i64)
        } else {
            Err(DecodeError)
        }
    }

    /// The identifier whose enciphered value is `value`.
    pub fn from_raw(value: u128) -> (result: Self)
        ensures
            result@ == value,
    {
        Id { value }
    }

    /// The enciphered value.
    pub fn raw(&self) -> (result: u128)
        ensures
            result == self@,
    {
        self.value
    }

    /// The text form of the identifier.
    pub fn to_string(&self) -> (result: String)
        ensures
            result@ == encode_spec(self@ as nat),
    {
        encode(self.value)
    }

    /// Reads the text form of an identifier.
    pub fn from_str(s: &str) -> (result: Result<Self, DecodeError>)
        requires
            decode_fits(s@),
        ensures
            match decode_spec(s@) {
                Some(v) => match result {
                    Ok(id) => id@ == v,
                    Err(_) => false,
                },
                None => result == Err::<Self, DecodeError>(DecodeError),
            },
    {
        match decode(s) {
            Ok(v) => Ok(Id { value: v }),
            Err(e) => Err(e),
        }
    }
}

/// The text form of an identifier reads back as the same identifier:
/// `Id::from_str(&id.to_string())` may be called and gives `Ok(id)`.
pub proof fn law_id_text_round_trip<const TAG: u64>(id: Id<TAG>)
    ensures
        decode_fits(encode_spec(id@ as nat)),
        decode_spec(encode_spec(id@ as nat)) == Some(id@ as int),
{
    law_decode_encode(id@);
}

/// Tag of user identifiers: the bytes of `"user"`.
pub const USER_TAG: u64 = 0x7265_7375;

/// Tag of book identifiers: the bytes of `"book"`.
pub const BOOK_TAG: u64 = 0x6b6f_6f62;

/// Tag of library identifiers: the bytes of `"library"`.
pub const LIBRARY_TAG: u64 = 0x79_7261_7262_696c;

/// Tag of lending identifiers: the bytes of `"lending"`.
pub const LENDING_TAG: u64 = 0x67_6e69_646e_656c;

pub type UserId = Id<USER_TAG>;

pub type BookId = Id<BOOK_TAG>;

pub type LibraryId = Id<LIBRARY_TAG>;

pub type LendingId = Id<LENDING_TAG>;

} // verus!
