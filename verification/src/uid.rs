//! 128-bit endpoint identifiers and the reserved range of well-known
//! tokens.
//!
//! A `UID` is an ordered pair of 64-bit words. Identifiers whose first
//! word is all ones and whose second word is a small index form the
//! reserved range: each index names one well-known endpoint (`WLTOKEN`).
//! Every other identifier addresses an ephemeral endpoint.
//!
//! The canonical text form of a `UID` is 32 lower-case hexadecimal
//! characters: the first word, then the second, most significant digit
//! first. Parsing accepts either case; formatting always emits the
//! canonical form.

use vstd::prelude::*;
use vstd::arithmetic::div_mod::{lemma_fundamental_div_mod_converse, lemma_multiply_divide_lt};
use vstd::assert_seqs_equal;
use vstd::string::StringSliceAdditionalSpecFns;

use crate::errors::FlowError;

verus! {

/// First word shared by every token in the reserved range.
pub const WELL_KNOWN_FIRST_WORD: u64 = 0xffff_ffff_ffff_ffff;

/// Number of reserved second-word indices.
pub const WELL_KNOWN_TOKEN_COUNT: u64 = 6;

/// A 128-bit endpoint identifier: the addressing token of every frame.
#[derive(Clone, Copy, Debug, PartialEq, Eq, Hash, Structural)]
pub struct UID {
    pub first: u64,
    pub second: u64,
}

/// The well-known endpoints, one per reserved second-word index.
#[derive(Clone, Copy, Debug, PartialEq, Eq, Structural)]
pub enum WLTOKEN {
    EndpointNotFound,
    PingPacket,
    AuthTenant,
    UnauthorizedEndpoint,
    NetworkTest,
    ReservedForTesting,
}

/// The reserved second-word index of a well-known endpoint.
pub open spec fn wltoken_index(w: WLTOKEN) -> u64 {
    match w {
        WLTOKEN::EndpointNotFound => 0,
        WLTOKEN::PingPacket => 1,
        WLTOKEN::AuthTenant => 2,
        WLTOKEN::UnauthorizedEndpoint => 3,
        WLTOKEN::NetworkTest => 4,
        WLTOKEN::ReservedForTesting => 5,
    }
}

/// The well-known endpoint named by a reserved second-word index.
pub open spec fn wltoken_of_index(i: u64) -> WLTOKEN
    recommends
        i < WELL_KNOWN_TOKEN_COUNT,
{
    if i == 0 {
        WLTOKEN::EndpointNotFound
    } else if i == 1 {
        WLTOKEN::PingPacket
    } else if i == 2 {
        WLTOKEN::AuthTenant
    } else if i == 3 {
        WLTOKEN::UnauthorizedEndpoint
    } else if i == 4 {
        WLTOKEN::NetworkTest
    } else {
        WLTOKEN::ReservedForTesting
    }
}

impl UID {
    /// The identifier lies in the reserved well-known range.
    pub open spec fn spec_is_well_known(self) -> bool {
        self.first == WELL_KNOWN_FIRST_WORD && self.second < WELL_KNOWN_TOKEN_COUNT
    }

    /// Total classification: the well-known endpoint this identifier
    /// names, or `None` for an ephemeral endpoint.
    pub open spec fn spec_well_known(self) -> Option<WLTOKEN> {
        if self.spec_is_well_known() {
            Some(wltoken_of_index(self.second))
        } else {
            None
        }
    }

    /// Classify this identifier as a well-known endpoint or an
    /// ephemeral one.
    pub fn get_well_known_endpoint(&self) -> (r: Option<WLTOKEN>)
        ensures
            r == self.spec_well_known(),
    {
        if self.first != WELL_KNOWN_FIRST_WORD || self.second >= WELL_KNOWN_TOKEN_COUNT {
            None
        } else if self.second == 0 {
            Some(WLTOKEN::EndpointNotFound)
        } else if self.second == 1 {
            Some(WLTOKEN::PingPacket)
        } else if self.second == 2 {
            Some(WLTOKEN::AuthTenant)
        } else if self.second == 3 {
            Some(WLTOKEN::UnauthorizedEndpoint)
        } else if self.second == 4 {
            Some(WLTOKEN::NetworkTest)
        } else {
            Some(WLTOKEN::ReservedForTesting)
        }
    }

    /// The reserved identifier of a well-known endpoint; the inverse of
    /// classification on the reserved range.
    pub fn well_known_token(w: WLTOKEN) -> (r: UID)
        ensures
            r.spec_well_known() == Some(w),
            r.second == wltoken_index(w),
    {
        let second: u64 = match w {
            WLTOKEN::EndpointNotFound => 0,
            WLTOKEN::PingPacket => 1,
            WLTOKEN::AuthTenant => 2,
            WLTOKEN::UnauthorizedEndpoint => 3,
            WLTOKEN::NetworkTest => 4,
            WLTOKEN::ReservedForTesting => 5,
        };
        UID { first: WELL_KNOWN_FIRST_WORD, second }
    }

    /// The identifier as one 128-bit number, first word in the high
    /// half.
    pub open spec fn spec_u128(self) -> u128 {
        ((self.first as int) * 0x1_0000_0000_0000_0000 + (self.second as int)) as u128
    }

    /// Pack the two words into one 128-bit number.
    pub fn to_u128(&self) -> (r: u128)
        ensures
            r == self.spec_u128(),
    {
        proof {
            let f = self.first;
            let s = self.second;
            assert(((f as u128) << 64) | (s as u128) == (f as u128) * 0x1_0000_0000_0000_0000 + (
            s as u128)) by (bit_vector);
        }
        ((self.first as u128) << 64) | (self.second as u128)
    }
}

/// The byte is an ASCII hexadecimal digit, either case.
pub open spec fn is_hex_digit(b: u8) -> bool {
    (0x30 <= b && b <= 0x39) || (0x61 <= b && b <= 0x66) || (0x41 <= b && b <= 0x46)
}

/// The numeric value of a hexadecimal digit.
pub open spec fn hex_value(b: u8) -> u8 {
    if 0x30 <= b && b <= 0x39 {
        (b - 0x30) as u8
    } else if 0x61 <= b && b <= 0x66 {
        (b - 0x61 + 10) as u8
    } else if 0x41 <= b && b <= 0x46 {
        (b - 0x41 + 10) as u8
    } else {
        0
    }
}

/// The canonical (lower-case) digit of a value below sixteen.
pub open spec fn lower_hex_char(v: u8) -> u8 {
    if v < 10 {
        (0x30 + v) as u8
    } else {
        (0x57 + v) as u8
    }
}

/// Upper-case hexadecimal letters folded to lower case; every other
/// byte unchanged.
pub open spec fn to_lower_hex(b: u8) -> u8 {
    if 0x41 <= b && b <= 0x46 {
        (b + 0x20) as u8
    } else {
        b
    }
}

/// Sixteen to the `n`-th power.
pub open spec fn pow16(n: nat) -> int
    decreases n,
{
    if n == 0 {
        1
    } else {
        16 * pow16((n - 1) as nat)
    }
}

proof fn lemma_pow16_pos(n: nat)
    ensures
        pow16(n) >= 1,
    decreases n,
{
    if n > 0 {
        lemma_pow16_pos((n - 1) as nat);
    }
}

proof fn lemma_pow16_16()
    ensures
        pow16(16) == 0x1_0000_0000_0000_0000,
{
    reveal_with_fuel(pow16, 17);
}

proof fn lemma_pow16_le(a: nat, b: nat)
    requires
        a <= b,
    ensures
        pow16(a) <= pow16(b),
    decreases b,
{
    if a < b {
        lemma_pow16_le(a, (b - 1) as nat);
        lemma_pow16_pos((b - 1) as nat);
    }
}

/// The number written by a sequence of hexadecimal digits, most
/// significant first.
pub open spec fn spec_parse_digits(s: Seq<u8>) -> int
    decreases s.len(),
{
    if s.len() == 0 {
        0
    } else {
        spec_parse_digits(s.drop_last()) * 16 + hex_value(s.last())
    }
}

/// The `n` least significant hexadecimal digits of `x`, most
/// significant first, in canonical lower case.
pub open spec fn spec_word_hex(x: int, n: nat) -> Seq<u8>
    decreases n,
{
    if n == 0 {
        Seq::empty()
    } else {
        spec_word_hex(x / 16, (n - 1) as nat).push(lower_hex_char((x % 16) as u8))
    }
}

proof fn lemma_word_hex_len(x: int, n: nat)
    ensures
        spec_word_hex(x, n).len() == n,
    decreases n,
{
    if n > 0 {
        lemma_word_hex_len(x / 16, (n - 1) as nat);
    }
}

proof fn lemma_parse_digits_bound(s: Seq<u8>)
    requires
        forall|i: int| 0 <= i < s.len() ==> is_hex_digit(s[i]),
    ensures
        0 <= spec_parse_digits(s) < pow16(s.len()),
    decreases s.len(),
{
    if s.len() > 0 {
        assert(forall|i: int| 0 <= i < s.drop_last().len() ==> is_hex_digit(s.drop_last()[i]));
        lemma_parse_digits_bound(s.drop_last());
        assert(is_hex_digit(s.last()));
    }
}

proof fn lemma_word_hex_of_parse(s: Seq<u8>)
    requires
        forall|i: int| 0 <= i < s.len() ==> is_hex_digit(s[i]),
    ensures
        spec_word_hex(spec_parse_digits(s), s.len()) =~= s.map_values(|b: u8| to_lower_hex(b)),
    decreases s.len(),
{
    let f = |b: u8| to_lower_hex(b);
    if s.len() == 0 {
        assert(s.map_values(f) =~= Seq::<u8>::empty());
    } else {
        let b = s.drop_last();
        let c = s.last();
        assert(forall|i: int| 0 <= i < b.len() ==> is_hex_digit(b[i]));
        lemma_word_hex_of_parse(b);
        lemma_parse_digits_bound(b);
        let p = spec_parse_digits(s);
        let pb = spec_parse_digits(b);
        assert(p == pb * 16 + hex_value(c));
        lemma_fundamental_div_mod_converse(p, 16, pb, hex_value(c) as int);
        assert(lower_hex_char(hex_value(c)) == to_lower_hex(c));
        assert(spec_word_hex(p, s.len()) == spec_word_hex(pb, (s.len() - 1) as nat).push(
        to_lower_hex(c)));
        assert_seqs_equal!(s.map_values(f) == b.map_values(f).push(to_lower_hex(c)));
        assert(spec_word_hex(p, s.len()) =~= s.map_values(f));
    }
}

proof fn lemma_parse_of_word_hex(x: int, n: nat)
    requires
        0 <= x < pow16(n),
    ensures
        spec_word_hex(x, n).len() == n,
        forall|i: int| 0 <= i < n ==> is_hex_digit(spec_word_hex(x, n)[i]),
        spec_parse_digits(spec_word_hex(x, n)) == x,
    decreases n,
{
    lemma_word_hex_len(x, n);
    if n > 0 {
        assert(pow16(n) == 16 * pow16((n - 1) as nat));
        lemma_multiply_divide_lt(x, 16, pow16((n - 1) as nat));
        lemma_parse_of_word_hex(x / 16, (n - 1) as nat);
        let w = spec_word_hex(x, n);
        let wb = spec_word_hex(x / 16, (n - 1) as nat);
        let c = lower_hex_char((x % 16) as u8);
        assert(w == wb.push(c));
        assert(w.drop_last() =~= wb);
        assert(is_hex_digit(c));
        vstd::arithmetic::div_mod::lemma_fundamental_div_mod(x, 16);
        assert(hex_value(c) == x % 16);
        assert(spec_parse_digits(w) == spec_parse_digits(wb) * 16 + hex_value(c));
    }
}

/// A sequence of exactly 32 hexadecimal digits: the only strings that
/// parse as identifiers.
pub open spec fn spec_valid_hex(s: Seq<u8>) -> bool {
    s.len() == 32 && (forall|i: int| 0 <= i < 32 ==> is_hex_digit(s[i]))
}

impl UID {
    /// The canonical 32-character lower-case hexadecimal form.
    pub open spec fn spec_format(self) -> Seq<u8> {
        spec_word_hex(self.first as int, 16) + spec_word_hex(self.second as int, 16)
    }

    /// The identifier written by a valid hexadecimal string.
    pub open spec fn spec_parse(s: Seq<u8>) -> UID
        recommends
            spec_valid_hex(s),
    {
        UID {
            first: spec_parse_digits(s.subrange(0, 16)) as u64,
            second: spec_parse_digits(s.subrange(16, 32)) as u64,
        }
    }
}

/// Parsing a 32-digit hexadecimal string and formatting the result
/// yields the same string with its letters folded to lower case.
pub proof fn lemma_uid_parse_format(s: Seq<u8>)
    requires
        spec_valid_hex(s),
    ensures
        UID::spec_parse(s).spec_format() =~= s.map_values(|b: u8| to_lower_hex(b)),
{
    let f = |b: u8| to_lower_hex(b);
    let s0 = s.subrange(0, 16);
    let s1 = s.subrange(16, 32);
    assert(forall|i: int| 0 <= i < 16 ==> is_hex_digit(s0[i]));
    assert(forall|i: int| 0 <= i < 16 ==> is_hex_digit(s1[i]));
    lemma_parse_digits_bound(s0);
    lemma_parse_digits_bound(s1);
    lemma_pow16_16();
    lemma_word_hex_of_parse(s0);
    lemma_word_hex_of_parse(s1);
    let u = UID::spec_parse(s);
    assert(u.first as int == spec_parse_digits(s0));
    assert(u.second as int == spec_parse_digits(s1));
    assert(u.spec_format() =~= s0.map_values(f) + s1.map_values(f));
    assert_seqs_equal!(s0.map_values(f) + s1.map_values(f) == s.map_values(f));
}

/// On a string already in canonical lower-case form, the parse/format
/// round trip is the identity.
pub proof fn lemma_uid_parse_format_lower(s: Seq<u8>)
    requires
        spec_valid_hex(s),
        forall|i: int| 0 <= i < 32 ==> !(0x41 <= s[i] && s[i] <= 0x46),
    ensures
        UID::spec_parse(s).spec_format() =~= s,
{
    lemma_uid_parse_format(s);
    assert_seqs_equal!(s.map_values(|b: u8| to_lower_hex(b)) == s);
}

/// Every identifier formats to a valid hexadecimal string, and parsing
/// that string gives the identifier back.
pub proof fn lemma_uid_format_parse(u: UID)
    ensures
        spec_valid_hex(u.spec_format()),
        UID::spec_parse(u.spec_format()) == u,
{
    lemma_pow16_16();
    lemma_parse_of_word_hex(u.first as int, 16);
    lemma_parse_of_word_hex(u.second as int, 16);
    let w0 = spec_word_hex(u.first as int, 16);
    let w1 = spec_word_hex(u.second as int, 16);
    let s = u.spec_format();
    assert(s.subrange(0, 16) =~= w0);
    assert(s.subrange(16, 32) =~= w1);
    assert(UID::spec_parse(s) == u);
}

fn hex_value_of(b: u8) -> (r: Option<u8>)
    ensures
        r is Some <==> is_hex_digit(b),
        r matches Some(v) ==> v == hex_value(b),
{
    if 0x30 <= b && b <= 0x39 {
        Some(b - 0x30)
    } else if 0x61 <= b && b <= 0x66 {
        Some(b - 0x61 + 10)
    } else if 0x41 <= b && b <= 0x46 {
        Some(b - 0x41 + 10)
    } else {
        None
    }
}

fn hex_char_of(v: u8) -> (r: u8)
    requires
        v < 16,
    ensures
        r == lower_hex_char(v),
{
    if v < 10 {
        0x30 + v
    } else {
        0x57 + v
    }
}

fn parse_word(s: &[u8], start: usize) -> (r: Result<u64, FlowError>)
    requires
        start + 16 <= s@.len(),
    ensures
        r is Ok <==> (forall|k: int| start <= k < start + 16 ==> is_hex_digit(s@[k])),
        r matches Ok(w) ==> w as int == spec_parse_digits(
            s@.subrange(start as int, start as int + 16),
        ),
        r is Err ==> r == Err::<u64, FlowError>(FlowError::UidParse),
{
    let n: usize = s.len();
    let mut acc: u64 = 0;
    let mut i: usize = 0;
    while i < 16
        invariant
            i <= 16,
            n == s@.len(),
            start + 16 <= s@.len(),
            forall|k: int| start <= k < start + i ==> is_hex_digit(s@[k]),
            acc as int == spec_parse_digits(s@.subrange(start as int, start as int + i as int)),
            (acc as int) < pow16(i as nat),
        decreases 16 - i,
    {
        let b = s[start + i];
        match hex_value_of(b) {
            None => {
                return Err(FlowError::UidParse);
            },
            Some(v) => {
                proof {
                    assert(pow16((i + 1) as nat) == 16 * pow16(i as nat));
                    lemma_pow16_le((i + 1) as nat, 16);
                    lemma_pow16_16();
                }
                acc = acc * 16 + (v as u64);
                proof {
                    let sub1 = s@.subrange(start as int, start as int + i as int + 1);
                    assert(sub1.drop_last() =~= s@.subrange(start as int, start as int + i as int));
                    assert(sub1.last() == s@[start as int + i as int]);
                }
                i += 1;
            },
        }
    }
    Ok(acc)
}

fn push_word_hex(out: &mut Vec<u8>, x: u64)
    ensures
        final(out)@ == old(out)@ + spec_word_hex(x as int, 16),
{
    let ghost target = spec_word_hex(x as int, 16);
    proof {
        lemma_word_hex_len(x as int, 16);
    }
    let mut tmp: Vec<u8> = Vec::new();
    let mut v: u64 = x;
    let mut i: usize = 0;
    while i < 16
        invariant
            i <= 16,
            tmp@.len() == i,
            target == spec_word_hex(x as int, 16),
            target =~= spec_word_hex(v as int, (16 - i) as nat) + Seq::new(
                i as nat,
                |k: int| tmp@[i as int - 1 - k],
            ),
        decreases 16 - i,
    {
        let ghost tmp0 = tmp@;
        let ghost m = (16 - i) as nat;
        let d: u8 = (v % 16) as u8;
        let c: u8 = hex_char_of(d);
        proof {
            assert(spec_word_hex(v as int, m) == spec_word_hex(v as int / 16, (m - 1) as nat).push(
            lower_hex_char((v as int % 16) as u8)));
            assert(v as int % 16 == (v % 16) as int);
            assert(v as int / 16 == (v / 16) as int);
            lemma_word_hex_len(v as int / 16, (m - 1) as nat);
        }
        tmp.push(c);
        v = v / 16;
        i += 1;
        proof {
            assert_seqs_equal!(
                Seq::new(i as nat, |k: int| tmp@[i as int - 1 - k])
                    == seq![c] + Seq::new((i - 1) as nat, |k: int| tmp0[i as int - 2 - k]),
                k => {
                    if k == 0 {
                        assert(tmp@[i as int - 1] == c);
                    } else {
                        assert(tmp@[i as int - 1 - k] == tmp0[i as int - 1 - k]);
                    }
                }
            );
            assert(target =~= spec_word_hex(v as int, (16 - i) as nat) + Seq::new(
                i as nat,
                |k: int| tmp@[i as int - 1 - k],
            ));
        }
    }
    proof {
        assert(target =~= Seq::new(16, |k: int| tmp@[15 - k]));
    }
    let mut j: usize = 0;
    while j < 16
        invariant
            j <= 16,
            tmp@.len() == 16,
            target == spec_word_hex(x as int, 16),
            target =~= Seq::new(16, |k: int| tmp@[15 - k]),
            out@ =~= old(out)@ + target.subrange(0, j as int),
        decreases 16 - j,
    {
        out.push(tmp[15 - j]);
        proof {
            assert(target.len() == 16);
            assert(target[j as int] == tmp@[15 - j as int]);
            assert_seqs_equal!(
                old(out)@ + target.subrange(0, j as int + 1)
                    == (old(out)@ + target.subrange(0, j as int)).push(target[j as int])
            );
        }
        j += 1;
    }
    proof {
        assert(target.subrange(0, 16) =~= target);
        assert(out@ =~= old(out)@ + target);
    }
}

impl UID {
    /// Parse 32 hexadecimal characters, either case, into an
    /// identifier. Anything else is a parse error.
    pub fn parse_hex(s: &[u8]) -> (r: Result<UID, FlowError>)
        ensures
            r is Ok <==> spec_valid_hex(s@),
            r matches Ok(u) ==> u == UID::spec_parse(s@),
            r is Err ==> r == Err::<UID, FlowError>(FlowError::UidParse),
    {
        if s.len() != 32 {
            return Err(FlowError::UidParse);
        }
        let first = match parse_word(s, 0) {
            Ok(w) => w,
            Err(e) => {
                return Err(e);
            },
        };
        let second = match parse_word(s, 16) {
            Ok(w) => w,
            Err(e) => {
                return Err(e);
            },
        };
        Ok(UID { first, second })
    }

    /// Format the identifier as its canonical 32-character lower-case
    /// hexadecimal form.
    pub fn format_hex(&self) -> (r: Vec<u8>)
        ensures
            r@ == self.spec_format(),
            r@.len() == 32,
    {
        proof {
            lemma_word_hex_len(self.first as int, 16);
            lemma_word_hex_len(self.second as int, 16);
        }
        let mut out: Vec<u8> = Vec::new();
        push_word_hex(&mut out, self.first);
        push_word_hex(&mut out, self.second);
        proof {
            assert(out@ =~= self.spec_format());
        }
        out
    }
}

/// Relies on `String::from_utf8`: a sequence of bytes below 0x80 is
/// valid UTF-8 and decodes to one character per byte, each character
/// carrying that byte's code point.
#[verifier::external_body]
fn ascii_string_of(bytes: Vec<u8>) -> (r: String)
    requires
        forall|i: int| 0 <= i < bytes@.len() ==> bytes@[i] < 0x80,
    ensures
        r@ == bytes@.map_values(|b: u8| b as char),
{
    String::from_utf8(bytes).unwrap_or_default()
}

impl UID {
    /// Parse an identifier from its textual form: 32 hexadecimal
    /// characters, either case accepted.
    pub fn from_string(s: &str) -> (r: Result<UID, FlowError>)
        ensures
            r is Ok <==> spec_valid_hex(s.spec_bytes()),
            r matches Ok(u) ==> u == UID::spec_parse(s.spec_bytes()),
            r is Err ==> r == Err::<UID, FlowError>(FlowError::UidParse),
    {
        UID::parse_hex(s.as_bytes())
    }

    /// The canonical textual form: the characters of `spec_format`.
    pub fn to_string(&self) -> (r: String)
        ensures
            r@ == self.spec_format().map_values(|b: u8| b as char),
            r@.len() == 32,
    {
        proof {
            lemma_uid_format_parse(*self);
        }
        let bytes = self.format_hex();
        ascii_string_of(bytes)
    }
}

} // verus!

