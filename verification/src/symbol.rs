//! The packed `Symbol` value: short identifiers over the 63-character
//! repertoire `[a-zA-Z0-9_]`. Identifiers of up to nine characters are
//! bit-packed as nine 6-bit codes into the low 54 bits of a word (the
//! "small" form, first character in the highest-order occupied slot, zero
//! padding in the high-order bits); longer identifiers live in the host
//! object table and are referenced by handle (the "object" form).
//!
//! The 6-bit code assignment (`_` -> 1, `0`..`9` -> 2..11, `A`..`Z` ->
//! 12..37, `a`..`z` -> 38..63, 0 marking absence) is part of the chain
//! consensus surface and must never change. Because that assignment is not
//! character-order-preserving, ordering compares decoded characters, never
//! raw bodies.

use vstd::prelude::*;

use vstd::string::StringSliceAdditionalSpecFns;

use vstd::arithmetic::div_mod::{
    lemma_basic_div, lemma_div_multiples_vanish_fancy, lemma_mod_multiples_vanish,
    lemma_small_mod,
};

verus! {

/// The longest identifier the small form can hold.
pub const MAX_SMALL_CHARS: usize = 9;

/// The number of bits of one character code.
pub const CODE_BITS: usize = 6;

/// The number of code values: each packed slot holds one value below this.
pub const CODE_MULT: u64 = 64;

/// The byte capacity of a symbol held in the host object table, and of the
/// expanded [`SymbolStr`] form.
pub const SCSYMBOL_LIMIT: u32 = 32;

/// Errors from forming symbols.
#[derive(Clone, Copy, Debug, PartialEq, Eq, Structural)]
pub enum SymbolError {
    /// The input has more than [`MAX_SMALL_CHARS`] characters; carries the
    /// input's length.
    TooLong(usize),
    /// The input holds a character outside `[a-zA-Z0-9_]`; carries that
    /// character.
    BadChar(char),
}

/// `64^k`, the place value of the `k`-th slot from the low end.
pub open spec fn p64(k: nat) -> int
    decreases k,
{
    if k == 0 {
        1
    } else {
        64 * p64((k - 1) as nat)
    }
}

/// The consensus 6-bit code of a byte; 0 marks a byte outside the
/// repertoire.
pub open spec fn char_code(c: u8) -> u64 {
    if c == 95u8 {
        1
    } else if 48u8 <= c <= 57u8 {
        (2 + (c - 48u8)) as u64
    } else if 65u8 <= c <= 90u8 {
        (12 + (c - 65u8)) as u64
    } else if 97u8 <= c <= 122u8 {
        (38 + (c - 97u8)) as u64
    } else {
        0
    }
}

/// Whether a byte belongs to the symbol repertoire `[a-zA-Z0-9_]`.
pub open spec fn is_symbol_char(c: u8) -> bool {
    char_code(c) != 0
}

/// The byte a 6-bit code decodes to; 0 for the absent code.
pub open spec fn code_char(v: int) -> u8 {
    if v == 1 {
        95u8
    } else if 2 <= v <= 11 {
        (48u8 + (v - 2)) as u8
    } else if 12 <= v <= 37 {
        (65u8 + (v - 12)) as u8
    } else if 38 <= v <= 63 {
        (97u8 + (v - 38)) as u8
    } else {
        0
    }
}

/// The body obtained by packing the bytes of `s`, first byte in the highest
/// occupied slot: a left fold `body = body * 64 + code`.
pub open spec fn encode_bytes(s: Seq<u8>) -> int
    decreases s.len(),
{
    if s.len() == 0 {
        0
    } else {
        64 * encode_bytes(s.drop_last()) + char_code(s.last())
    }
}

/// The bytes decoded from the low `k` slots of `b`: the top remaining slot
/// is emitted unless it is the absent code, which is skipped.
pub open spec fn decode_body(b: int, k: nat) -> Seq<u8>
    decreases k,
{
    if k == 0 {
        Seq::empty()
    } else {
        let top = b / p64((k - 1) as nat);
        let rest = decode_body(b % p64((k - 1) as nat), (k - 1) as nat);
        if top == 0 {
            rest
        } else {
            seq![code_char(top)] + rest
        }
    }
}

/// Byte-wise lexicographic comparison of two byte sequences.
pub open spec fn lex_cmp(a: Seq<u8>, b: Seq<u8>) -> core::cmp::Ordering
    decreases a.len(),
{
    if a.len() == 0 && b.len() == 0 {
        core::cmp::Ordering::Equal
    } else if a.len() == 0 {
        core::cmp::Ordering::Less
    } else if b.len() == 0 {
        core::cmp::Ordering::Greater
    } else if a[0] < b[0] {
        core::cmp::Ordering::Less
    } else if a[0] > b[0] {
        core::cmp::Ordering::Greater
    } else {
        lex_cmp(a.drop_first(), b.drop_first())
    }
}

/// Slot place values are positive.
pub proof fn lemma_p64_pos(k: nat)
    ensures
        p64(k) >= 1,
    decreases k,
{
    if k > 0 {
        lemma_p64_pos((k - 1) as nat);
    }
}

/// Slot place values grow with the slot index.
pub proof fn lemma_p64_mono(a: nat, b: nat)
    requires
        a <= b,
    ensures
        p64(a) <= p64(b),
    decreases b,
{
    if a < b {
        lemma_p64_mono(a, (b - 1) as nat);
        lemma_p64_pos((b - 1) as nat);
    }
}

/// The concrete place values, `64^0` through `64^9`.
pub proof fn lemma_p64_values()
    ensures
        p64(0) == 1,
        p64(1) == 64,
        p64(2) == 0x1000,
        p64(3) == 0x40000,
        p64(4) == 0x1000000,
        p64(5) == 0x40000000,
        p64(6) == 0x1000000000,
        p64(7) == 0x40000000000,
        p64(8) == 0x1000000000000,
        p64(9) == 0x40000000000000,
{
    reveal_with_fuel(p64, 11);
}

/// Codes are always below 64.
pub proof fn lemma_char_code_bound(c: u8)
    ensures
        0 <= char_code(c) < 64,
{
}

/// Decoding inverts the code of any repertoire byte, and such codes are
/// never the absent code.
pub proof fn lemma_code_char_inverse(c: u8)
    requires
        is_symbol_char(c),
    ensures
        1 <= char_code(c) <= 63,
        code_char(char_code(c) as int) == c,
{
}

/// A packed body is bounded by the place value one past its last character:
/// `encode_bytes(s) < 64^len`.
pub proof fn lemma_encode_bound(s: Seq<u8>)
    ensures
        0 <= encode_bytes(s) < p64(s.len()),
    decreases s.len(),
{
    if s.len() > 0 {
        lemma_encode_bound(s.drop_last());
        lemma_char_code_bound(s.last());
    }
}

/// Front decomposition of the packed body: the first byte sits in the
/// highest occupied slot.
pub proof fn lemma_encode_front(s: Seq<u8>)
    requires
        s.len() >= 1,
    ensures
        encode_bytes(s) == char_code(s[0]) * p64((s.len() - 1) as nat) + encode_bytes(
            s.drop_first(),
        ),
    decreases s.len(),
{
    if s.len() == 1 {
        assert(s.drop_last() =~= Seq::<u8>::empty());
        assert(s.drop_first() =~= Seq::<u8>::empty());
        assert(s.last() == s[0]);
    } else {
        let s1 = s.drop_last();
        let c = s.last();
        lemma_encode_front(s1);
        assert(s1[0] == s[0]);
        assert(s.drop_first().drop_last() =~= s1.drop_first());
        assert(s.drop_first().last() == c);
        assert(s.drop_first().len() == s.len() - 1);
        // encode(s) = 64 * encode(s1) + code(c)
        //           = 64 * (code(s[0]) * p64(n-2) + encode(s1.drop_first())) + code(c)
        let n = s.len();
        let c0 = char_code(s[0]);
        let e1f = encode_bytes(s1.drop_first());
        assert(64 * (c0 * p64((n - 2) as nat) + e1f) == c0 * (64 * p64((n - 2) as nat)) + 64 * e1f)
            by (nonlinear_arith);
        assert(p64((n - 1) as nat) == 64 * p64((n - 2) as nat));
        assert(encode_bytes(s.drop_first()) == 64 * e1f + char_code(c));
    }
}

/// Decoding ignores slots above the value: if `b` fits in `n` slots, the
/// higher slots are absent and are skipped.
pub proof fn lemma_decode_skip(b: int, k: nat, n: nat)
    requires
        n <= k,
        0 <= b < p64(n),
    ensures
        decode_body(b, k) == decode_body(b, n),
    decreases k - n,
{
    if k > n {
        lemma_p64_mono(n, (k - 1) as nat);
        lemma_p64_pos((k - 1) as nat);
        lemma_basic_div(b, p64((k - 1) as nat));
        lemma_small_mod(b as nat, p64((k - 1) as nat) as nat);
        lemma_decode_skip(b, (k - 1) as nat, n);
    }
}

/// Decoding exactly `len` slots of a packed valid byte sequence yields the
/// sequence back.
pub proof fn lemma_decode_encode(s: Seq<u8>)
    requires
        s.len() <= MAX_SMALL_CHARS,
        forall|i: int| 0 <= i < s.len() ==> is_symbol_char(#[trigger] s[i]),
    ensures
        decode_body(encode_bytes(s), s.len()) == s,
    decreases s.len(),
{
    if s.len() == 0 {
        assert(decode_body(encode_bytes(s), 0) =~= s);
    } else {
        let n = s.len();
        let e = encode_bytes(s);
        let c0 = char_code(s[0]);
        let rest = encode_bytes(s.drop_first());
        let m = p64((n - 1) as nat);
        lemma_encode_front(s);
        lemma_encode_bound(s.drop_first());
        lemma_code_char_inverse(s[0]);
        lemma_p64_pos((n - 1) as nat);
        // e == c0 * m + rest with 0 <= rest < m, so the top slot is c0 and
        // the remainder is rest.
        assert(c0 * m == m * c0) by (nonlinear_arith);
        lemma_div_multiples_vanish_fancy(c0 as int, rest, m);
        assert(e / m == c0);
        lemma_mod_multiples_vanish(c0 as int, rest, m);
        lemma_small_mod(rest as nat, m as nat);
        assert(e % m == rest);
        lemma_decode_encode(s.drop_first());
        assert(decode_body(e, n) =~= seq![code_char(c0 as int)] + s.drop_first());
        assert(seq![code_char(c0 as int)] + s.drop_first() =~= s);
    }
}

/// Symbol round-trip at the specification level: packing any sequence of at
/// most nine repertoire bytes and decoding all nine slots yields the
/// sequence back, byte for byte.
pub proof fn lemma_symbol_roundtrip(s: Seq<u8>)
    requires
        s.len() <= MAX_SMALL_CHARS,
        forall|i: int| 0 <= i < s.len() ==> is_symbol_char(#[trigger] s[i]),
    ensures
        decode_body(encode_bytes(s), MAX_SMALL_CHARS as nat) == s,
{
    lemma_encode_bound(s);
    lemma_decode_skip(encode_bytes(s), MAX_SMALL_CHARS as nat, s.len());
    lemma_decode_encode(s);
}

/// Every decoded byte is in the repertoire (never zero, always ASCII), and
/// no more bytes are decoded than slots read.
pub proof fn lemma_decode_chars(b: int, k: nat)
    requires
        0 <= b < p64(k),
    ensures
        decode_body(b, k).len() <= k,
        forall|i: int|
            0 <= i < decode_body(b, k).len() ==> is_symbol_char(#[trigger] decode_body(b, k)[i])
                && decode_body(b, k)[i] < 128,
    decreases k,
{
    if k > 0 {
        let m = p64((k - 1) as nat);
        lemma_p64_pos((k - 1) as nat);
        let top = b / m;
        assert(0 <= top < 64) by {
            assert(64 * m == p64(k));
            assert(b / m < 64) by (nonlinear_arith)
                requires
                    m >= 1,
                    0 <= b,
                    b < 64 * m,
            ;
            assert(b / m >= 0) by (nonlinear_arith)
                requires
                    m >= 1,
                    b >= 0,
            ;
        }
        assert(0 <= b % m < m) by (nonlinear_arith)
            requires
                m >= 1,
                b >= 0,
        ;
        lemma_decode_chars(b % m, (k - 1) as nat);
    }
}

/// Ordering two symbols by decoded characters coincides with byte-wise
/// lexicographic ordering of the identifiers they were packed from.
pub proof fn lemma_symbol_ordering(a: Seq<u8>, b: Seq<u8>)
    requires
        a.len() <= MAX_SMALL_CHARS,
        b.len() <= MAX_SMALL_CHARS,
        forall|i: int| 0 <= i < a.len() ==> is_symbol_char(#[trigger] a[i]),
        forall|i: int| 0 <= i < b.len() ==> is_symbol_char(#[trigger] b[i]),
    ensures
        lex_cmp(
            decode_body(encode_bytes(a), MAX_SMALL_CHARS as nat),
            decode_body(encode_bytes(b), MAX_SMALL_CHARS as nat),
        ) == lex_cmp(a, b),
{
    lemma_symbol_roundtrip(a);
    lemma_symbol_roundtrip(b);
}

} // verus!

verus! {

/// The code of a character, extended to all of `char`: characters outside
/// the repertoire (including everything non-ASCII) have the absent code.
pub open spec fn code_of_char(c: char) -> u64 {
    let v = c as int;
    if v == 95 {
        1
    } else if 48 <= v <= 57 {
        (v - 46) as u64
    } else if 65 <= v <= 90 {
        (v - 53) as u64
    } else if 97 <= v <= 122 {
        (v - 59) as u64
    } else {
        0
    }
}

/// On characters that come from bytes, the two code functions agree.
pub proof fn lemma_code_of_byte_char(b: u8)
    ensures
        code_of_char(b as char) == char_code(b),
{
}

/// A small symbol: up to nine 6-bit character codes packed into the low 54
/// bits of a word, first character in the highest occupied slot.
#[derive(Clone, Copy, Debug, PartialEq, Eq, Structural)]
pub struct SymbolSmall(u64);

/// An opaque handle into the host object table, holding the bytes of a
/// symbol too long for the small form.
#[derive(Clone, Copy, Debug, PartialEq, Eq, Structural)]
pub struct SymbolObject(pub u32);

/// A symbol value: a packed small form, or a handle into the host object
/// table. Comparison orders all small symbols before all object symbols,
/// mirroring the tag order of the underlying tagged word.
#[derive(Clone, Copy, Debug, PartialEq, Eq, Structural)]
pub enum Symbol {
    Small(SymbolSmall),
    Object(SymbolObject),
}

impl SymbolSmall {
    /// The body stays within its nine 6-bit slots.
    #[verifier::type_invariant]
    pub closed spec fn inv(self) -> bool {
        (self.0 as int) < p64(MAX_SMALL_CHARS as nat)
    }

    /// The packed 54-bit body.
    pub closed spec fn body_spec(&self) -> u64 {
        self.0
    }
}

impl View for SymbolSmall {
    type V = Seq<u8>;

    /// The decoded identifier bytes.
    open spec fn view(&self) -> Seq<u8> {
        decode_body(self.body_spec() as int, MAX_SMALL_CHARS as nat)
    }
}

impl SymbolSmall {
    /// Checks that a character belongs to the symbol repertoire.
    pub fn validate_char(ch: char) -> (r: Result<(), SymbolError>)
        ensures
            r == if code_of_char(ch) != 0 {
                Ok::<(), SymbolError>(())
            } else {
                Err::<(), SymbolError>(SymbolError::BadChar(ch))
            },
    {
        match SymbolSmall::encode_char(ch) {
            Ok(_) => Ok(()),
            Err(e) => Err(e),
        }
    }

    /// The 6-bit code of a character, or `BadChar` outside the repertoire.
    pub fn encode_char(ch: char) -> (r: Result<u64, SymbolError>)
        ensures
            r == if code_of_char(ch) != 0 {
                Ok::<u64, SymbolError>(code_of_char(ch))
            } else {
                Err::<u64, SymbolError>(SymbolError::BadChar(ch))
            },
    {
        let c = ch as u32;
        let v: u64 = if c == 95 {
            1
        } else if 48 <= c && c <= 57 {
            2 + (c as u64 - 48)
        } else if 65 <= c && c <= 90 {
            12 + (c as u64 - 65)
        } else if 97 <= c && c <= 122 {
            38 + (c as u64 - 97)
        } else {
            return Err(SymbolError::BadChar(ch));
        };
        Ok(v)
    }

    /// Packs a byte string into a small symbol. Bytes are checked against
    /// the repertoire in order; once nine bytes are packed, a tenth byte
    /// fails with `TooLong` carrying the input length. An empty input packs
    /// to the zero body.
    pub fn try_from_bytes(b: &[u8]) -> (r: Result<SymbolSmall, SymbolError>)
        ensures
            (b@.len() <= MAX_SMALL_CHARS && (forall|j: int|
                0 <= j < b@.len() ==> is_symbol_char(#[trigger] b@[j]))) ==> (r matches Ok(sym)
                && sym.body_spec() == encode_bytes(b@)),
            forall|j: int|
                (0 <= j < b@.len() && j < MAX_SMALL_CHARS && !is_symbol_char(#[trigger] b@[j]) && (
                forall|k: int| 0 <= k < j ==> is_symbol_char(#[trigger] b@[k]))) ==> r == Err::<
                    SymbolSmall,
                    SymbolError,
                >(SymbolError::BadChar(b@[j] as char)),
            (b@.len() > MAX_SMALL_CHARS && (forall|k: int|
                0 <= k < MAX_SMALL_CHARS ==> is_symbol_char(#[trigger] b@[k]))) ==> r == Err::<
                SymbolSmall,
                SymbolError,
            >(SymbolError::TooLong(b@.len() as usize)),
    {
        let len = b.len();
        let mut n: usize = 0;
        let mut accum: u64 = 0;
        while n < len
            invariant
                len == b@.len(),
                n <= len,
                n <= MAX_SMALL_CHARS,
                forall|k: int| 0 <= k < n ==> is_symbol_char(#[trigger] b@[k]),
                accum as int == encode_bytes(b@.subrange(0, n as int)),
                (accum as int) < p64(n as nat),
            decreases len - n,
        {
            let ch = b[n] as char;
            if n >= MAX_SMALL_CHARS {
                return Err(SymbolError::TooLong(len));
            }
            let v = match SymbolSmall::encode_char(ch) {
                Ok(v) => v,
                Err(e) => {
                    proof {
                        lemma_code_of_byte_char(b@[n as int]);
                    }
                    return Err(e);
                },
            };
            proof {
                lemma_code_of_byte_char(b@[n as int]);
                lemma_p64_values();
                lemma_p64_mono(n as nat, 8);
                assert(b@.subrange(0, n as int + 1).drop_last() =~= b@.subrange(0, n as int));
                assert(b@.subrange(0, n as int + 1).last() == b@[n as int]);
            }
            accum = accum * 64 + v;
            n += 1;
        }
        proof {
            assert(b@.subrange(0, n as int) =~= b@);
            lemma_p64_mono(n as nat, MAX_SMALL_CHARS as nat);
        }
        Ok(SymbolSmall(accum))
    }

    /// Packs a string slice: its UTF-8 bytes are checked against the
    /// repertoire, which also rejects every non-ASCII character.
    pub fn try_from_str(s: &str) -> (r: Result<SymbolSmall, SymbolError>)
        ensures
            (s.spec_bytes().len() <= MAX_SMALL_CHARS && (forall|j: int|
                0 <= j < s.spec_bytes().len() ==> is_symbol_char(#[trigger] s.spec_bytes()[j])))
                ==> (r matches Ok(sym) && sym.body_spec() == encode_bytes(s.spec_bytes())),
            forall|j: int|
                (0 <= j < s.spec_bytes().len() && j < MAX_SMALL_CHARS && !is_symbol_char(
                    #[trigger] s.spec_bytes()[j],
                ) && (forall|k: int| 0 <= k < j ==> is_symbol_char(#[trigger] s.spec_bytes()[k])))
                    ==> r == Err::<SymbolSmall, SymbolError>(
                    SymbolError::BadChar(s.spec_bytes()[j] as char),
                ),
            (s.spec_bytes().len() > MAX_SMALL_CHARS && (forall|k: int|
                0 <= k < MAX_SMALL_CHARS ==> is_symbol_char(#[trigger] s.spec_bytes()[k]))) ==> r
                == Err::<SymbolSmall, SymbolError>(
                SymbolError::TooLong(s.spec_bytes().len() as usize),
            ),
    {
        SymbolSmall::try_from_bytes(s.as_bytes())
    }

    /// Packs a string that is known to be a well-formed small identifier.
    pub fn from_str(s: &str) -> (r: SymbolSmall)
        requires
            s.spec_bytes().len() <= MAX_SMALL_CHARS,
            forall|j: int| 0 <= j < s.spec_bytes().len() ==> is_symbol_char(#[trigger] s.spec_bytes()[j]),
        ensures
            r.body_spec() == encode_bytes(s.spec_bytes()),
    {
        match SymbolSmall::try_from_str(s) {
            Ok(sym) => sym,
            Err(_) => vstd::pervasive::unreached(),
        }
    }

    /// The packed body bits.
    pub fn get_body(&self) -> (r: u64)
        ensures
            r == self.body_spec(),
            (r as int) < p64(MAX_SMALL_CHARS as nat),
    {
        proof {
            use_type_invariant(self);
        }
        self.0
    }

    /// An iterator over the decoded characters.
    pub fn into_iter(self) -> (r: SymbolSmallIter)
        ensures
            r@ == self@,
    {
        proof {
            use_type_invariant(self);
        }
        SymbolSmallIter { body: self.0, slots: MAX_SMALL_CHARS as u8 }
    }

    /// Compares two small symbols lexicographically over their decoded
    /// characters. This is *not* the numeric order of the bodies: the 6-bit
    /// code assignment is not character-order-preserving.
    pub fn cmp(&self, other: &SymbolSmall) -> (r: core::cmp::Ordering)
        ensures
            r == lex_cmp(self@, other@),
    {
        let mut ia = self.into_iter();
        let mut ib = other.into_iter();
        loop
            invariant
                lex_cmp(self@, other@) == lex_cmp(ia@, ib@),
            decreases ia.slots_spec() + ib.slots_spec(),
        {
            let ca = ia.next_byte();
            let cb = ib.next_byte();
            match (ca, cb) {
                (None, None) => {
                    return core::cmp::Ordering::Equal;
                },
                (None, Some(_)) => {
                    return core::cmp::Ordering::Less;
                },
                (Some(_), None) => {
                    return core::cmp::Ordering::Greater;
                },
                (Some(x), Some(y)) => {
                    if x < y {
                        return core::cmp::Ordering::Less;
                    } else if x > y {
                        return core::cmp::Ordering::Greater;
                    }
                },
            }
        }
    }
}

/// An iterator decoding the packed characters of a small symbol one at a
/// time, skipping absent codes.
pub struct SymbolSmallIter {
    body: u64,
    slots: u8,
}

impl SymbolSmallIter {
    /// The body stays within the remaining slots.
    #[verifier::type_invariant]
    pub closed spec fn inv(self) -> bool {
        self.slots <= MAX_SMALL_CHARS && (self.body as int) < p64(self.slots as nat)
    }

    /// How many slots are still unread; decoding consumes at least one slot
    /// per yielded character.
    pub closed spec fn slots_spec(&self) -> u8 {
        self.slots
    }

    /// The not-yet-consumed body bits.
    pub closed spec fn body_spec(&self) -> u64 {
        self.body
    }
}

impl View for SymbolSmallIter {
    type V = Seq<u8>;

    /// The bytes not yet yielded.
    open spec fn view(&self) -> Seq<u8> {
        decode_body(self.body_spec() as int, self.slots_spec() as nat)
    }
}

impl Clone for SymbolSmallIter {
    fn clone(&self) -> (r: SymbolSmallIter)
        ensures
            r == *self,
    {
        proof {
            use_type_invariant(self);
        }
        SymbolSmallIter { body: self.body, slots: self.slots }
    }
}

/// The place value of slot `k`, as a machine word.
fn p64_exec(k: usize) -> (r: u64)
    requires
        k <= 9,
    ensures
        r as int == p64(k as nat),
{
    proof {
        lemma_p64_values();
    }
    match k {
        0 => 1,
        1 => 64,
        2 => 0x1000,
        3 => 0x40000,
        4 => 0x1000000,
        5 => 0x40000000,
        6 => 0x1000000000,
        7 => 0x40000000000,
        8 => 0x1000000000000,
        _ => 0x40000000000000,
    }
}

/// The byte a 6-bit code decodes to.
fn code_char_exec(v: u64) -> (r: u8)
    requires
        v < 64,
    ensures
        r == code_char(v as int),
{
    if v == 1 {
        95
    } else if 2 <= v && v <= 11 {
        48 + (v as u8 - 2)
    } else if 12 <= v && v <= 37 {
        65 + (v as u8 - 12)
    } else if 38 <= v && v <= 63 {
        97 + (v as u8 - 38)
    } else {
        0
    }
}

impl SymbolSmallIter {
    /// The next decoded character as a raw byte.
    pub fn next_byte(&mut self) -> (r: Option<u8>)
        ensures
            old(self)@.len() == 0 ==> r is None && final(self)@.len() == 0,
            old(self)@.len() > 0 ==> r == Some::<u8>(old(self)@[0]) && final(self)@ == old(
                self,
            )@.drop_first() && final(self).slots_spec() < old(self).slots_spec(),
    {
        proof {
            use_type_invariant(&*self);
        }
        while self.slots > 0
            invariant
                self.inv(),
                self.slots <= old(self).slots_spec(),
                decode_body(self.body as int, self.slots as nat) == old(self)@,
            decreases self.slots,
        {
            proof {
                lemma_p64_pos((self.slots - 1) as nat);
            }
            let ghost prev = *self;
            let k = self.slots - 1;
            let d = p64_exec(k as usize);
            let top = self.body / d;
            let rest = self.body % d;
            proof {
                assert(top < 64) by (nonlinear_arith)
                    requires
                        d >= 1,
                        (self.body as int) < 64 * (d as int),
                        top == self.body / d,
                ;
            }
            *self = SymbolSmallIter { body: rest, slots: k };
            if top != 0 {
                let ch = code_char_exec(top);
                proof {
                    let restv = decode_body(rest as int, k as nat);
                    assert(decode_body(prev.body_spec() as int, prev.slots_spec() as nat)
                        == seq![code_char(top as int)] + restv);
                    assert((seq![code_char(top as int)] + restv)[0] == code_char(top as int));
                    assert((seq![code_char(top as int)] + restv).drop_first() =~= restv);
                }
                return Some(ch);
            }
        }
        None
    }

    /// The next decoded character.
    pub fn next(&mut self) -> (r: Option<char>)
        ensures
            old(self)@.len() == 0 ==> r is None && final(self)@.len() == 0,
            old(self)@.len() > 0 ==> r == Some::<char>(old(self)@[0] as char) && final(self)@
                == old(self)@.drop_first() && final(self).slots_spec() < old(self).slots_spec(),
    {
        match self.next_byte() {
            Some(b) => Some(b as char),
            None => None,
        }
    }
}

} // verus!

verus! {

/// The number of leading non-zero bytes: the length of a zero-terminated
/// buffer's content.
pub open spec fn zero_term_len(s: Seq<u8>) -> int
    decreases s.len(),
{
    if s.len() == 0 {
        0
    } else if s[0] == 0 {
        0
    } else {
        1 + zero_term_len(s.drop_first())
    }
}

/// Content length is always between zero and the buffer length.
pub proof fn lemma_zero_term_nonneg(s: Seq<u8>)
    ensures
        0 <= zero_term_len(s) <= s.len(),
    decreases s.len(),
{
    if s.len() > 0 && s[0] != 0 {
        lemma_zero_term_nonneg(s.drop_first());
    }
}

/// A buffer whose first `i` bytes are non-zero and whose `i`-th byte (if
/// any) is zero has content length `i`.
pub proof fn lemma_zero_term_len(s: Seq<u8>, i: int)
    requires
        0 <= i <= s.len(),
        forall|j: int| 0 <= j < i ==> s[j] != 0,
        i == s.len() || s[i] == 0,
    ensures
        zero_term_len(s) == i,
    decreases i,
{
    if i > 0 {
        lemma_zero_term_len(s.drop_first(), i - 1);
    }
}

/// An expanded symbol: its characters as ASCII bytes in a fixed-size
/// zero-padded array of [`SCSYMBOL_LIMIT`] bytes, the capacity of the
/// largest symbol object. The content length is determined by scanning for
/// the first zero byte.
#[derive(Clone, Copy, PartialEq, Eq, Hash)]
pub struct SymbolStr([u8; 32]);

impl View for SymbolStr {
    type V = Seq<u8>;

    /// All 32 stored bytes, padding included.
    closed spec fn view(&self) -> Seq<u8> {
        self.0@
    }
}

impl SymbolStr {
    /// The bytes before the zero padding: the symbol's characters.
    pub open spec fn chars_spec(&self) -> Seq<u8> {
        self@.subrange(0, zero_term_len(self@))
    }

    /// Builds the expanded form directly from a byte buffer.
    pub fn from_bytes(bytes: [u8; 32]) -> (r: SymbolStr)
        ensures
            r@ == bytes@,
    {
        SymbolStr(bytes)
    }

    pub fn is_empty(&self) -> (r: bool)
        ensures
            r == (zero_term_len(self@) == 0),
    {
        proof {
            lemma_zero_term_nonneg(self@.drop_first());
        }
        self.0[0] == 0
    }

    /// The content length: the index of the first zero byte, or the full
    /// capacity when no byte is zero.
    pub fn len(&self) -> (r: usize)
        ensures
            r == zero_term_len(self@),
    {
        let mut i: usize = 0;
        while i < 32
            invariant
                i <= 32,
                self@.len() == 32,
                forall|j: int| 0 <= j < i ==> self@[j] != 0,
            decreases 32 - i,
        {
            if self.0[i] == 0 {
                proof {
                    lemma_zero_term_len(self@, i as int);
                }
                return i;
            }
            i += 1;
        }
        proof {
            lemma_zero_term_len(self@, 32);
        }
        32
    }

    /// The content as a `String`.
    pub fn to_string(&self) -> (r: String)
        requires
            forall|j: int| 0 <= j < zero_term_len(self@) ==> self@[j] < 128,
        ensures
            r@.len() == zero_term_len(self@),
            forall|j: int| 0 <= j < r@.len() ==> r@[j] == self@[j] as char,
    {
        proof {
            lemma_zero_term_nonneg(self@);
        }
        let n = self.len();
        let mut bytes: Vec<u8> = Vec::new();
        let mut i: usize = 0;
        while i < n
            invariant
                i <= n,
                n == zero_term_len(self@),
                0 <= n <= 32,
                self@.len() == 32,
                forall|j: int| 0 <= j < n ==> self@[j] < 128,
                bytes@.len() == i,
                forall|j: int| 0 <= j < i ==> bytes@[j] == self@[j],
            decreases n - i,
        {
            bytes.push(self.0[i]);
            i += 1;
        }
        string_from_ascii_bytes(bytes)
    }
}

/// Builds a `String` from ASCII bytes. Relies on `String::from_utf8`:
/// ASCII-only byte sequences are valid UTF-8 and decode to the characters
/// with the same scalar values (the error arm is unreachable under the
/// precondition).
#[verifier::external_body]
fn string_from_ascii_bytes(v: Vec<u8>) -> (r: String)
    requires
        forall|i: int| 0 <= i < v@.len() ==> v@[i] < 128,
    ensures
        r@.len() == v@.len(),
        forall|i: int| 0 <= i < v@.len() ==> r@[i] == v@[i] as char,
{
    match String::from_utf8(v) {
        Ok(s) => s,
        Err(_) => String::new(),
    }
}

impl SymbolSmall {
    /// Renders the decoded characters into the expanded zero-padded form.
    pub fn to_str(&self) -> (r: SymbolStr)
        ensures
            r@.len() == 32,
            r@.subrange(0, self@.len() as int) == self@,
            forall|j: int| self@.len() <= j < 32 ==> r@[j] == 0,
            zero_term_len(r@) == self@.len(),
    {
        proof {
            use_type_invariant(self);
            lemma_decode_chars(self.body_spec() as int, MAX_SMALL_CHARS as nat);
        }
        let mut chars: [u8; 32] = [0; 32];
        let mut iter = self.into_iter();
        let mut i: usize = 0;
        loop
            invariant
                chars@.len() == 32,
                i <= self@.len(),
                self@.len() <= MAX_SMALL_CHARS,
                forall|j: int| 0 <= j < i ==> chars@[j] == self@[j],
                forall|j: int| i <= j < 32 ==> chars@[j] == 0,
                iter@ == self@.skip(i as int),
            ensures
                i == self@.len(),
                forall|j: int| 0 <= j < i ==> chars@[j] == self@[j],
                forall|j: int| i <= j < 32 ==> chars@[j] == 0,
            decreases iter.slots_spec(),
        {
            match iter.next_byte() {
                Some(c) => {
                    proof {
                        assert(self@.skip(i as int)[0] == self@[i as int]);
                        assert(self@.skip(i as int).drop_first() =~= self@.skip(i as int + 1));
                    }
                    chars[i] = c;
                    i += 1;
                },
                None => {
                    proof {
                        assert(self@.skip(i as int).len() == 0);
                    }
                    break ;
                },
            }
        }
        let r = SymbolStr(chars);
        proof {
            assert(r@.subrange(0, self@.len() as int) =~= self@);
            assert forall|j: int| 0 <= j < self@.len() implies r@[j] != 0 by {
                assert(is_symbol_char(self@[j]));
            }
            lemma_zero_term_len(r@, self@.len() as int);
        }
        r
    }

    /// The decoded identifier as a `String`.
    pub fn to_string(&self) -> (r: String)
        ensures
            r@.len() == self@.len(),
            forall|j: int| 0 <= j < r@.len() ==> r@[j] == self@[j] as char,
    {
        proof {
            use_type_invariant(self);
            lemma_decode_chars(self.body_spec() as int, MAX_SMALL_CHARS as nat);
        }
        let s = self.to_str();
        proof {
            assert forall|j: int| 0 <= j < zero_term_len(s@) implies s@[j] < 128 by {
                assert(s@[j] == self@[j]);
            }
            assert forall|j: int| 0 <= j < self@.len() implies s@[j] == self@[j] by {}
        }
        let r = s.to_string();
        proof {
            assert forall|j: int| 0 <= j < r@.len() implies r@[j] == self@[j] as char by {
                assert(s@[j] == self@[j]);
            }
        }
        r
    }
}

impl From<SymbolSmall> for SymbolStr {
    /// The expanded form of a small symbol.
    fn from(s: SymbolSmall) -> (r: SymbolStr)
        ensures
            r@.subrange(0, s@.len() as int) == s@,
            zero_term_len(r@) == s@.len(),
    {
        s.to_str()
    }
}

impl vstd::std_specs::convert::FromSpecImpl<SymbolSmall> for SymbolStr {
    open spec fn obeys_from_spec() -> bool {
        false
    }

    open spec fn from_spec(s: SymbolSmall) -> SymbolStr {
        arbitrary()
    }
}

impl<'a> From<&'a SymbolSmall> for SymbolStr {
    /// The expanded form of a small symbol.
    fn from(s: &'a SymbolSmall) -> (r: SymbolStr)
        ensures
            r@.subrange(0, s@.len() as int) == s@,
            zero_term_len(r@) == s@.len(),
    {
        s.to_str()
    }
}

impl<'a> vstd::std_specs::convert::FromSpecImpl<&'a SymbolSmall> for SymbolStr {
    open spec fn obeys_from_spec() -> bool {
        false
    }

    open spec fn from_spec(s: &'a SymbolSmall) -> SymbolStr {
        arbitrary()
    }
}

impl Symbol {
    /// Wraps a raw 54-bit body as a small symbol: every such bit pattern is
    /// a valid (if odd-looking) small symbol.
    pub fn from_small_body(body: u64) -> (r: Symbol)
        requires
            (body as int) < p64(MAX_SMALL_CHARS as nat),
        ensures
            r matches Symbol::Small(ss) && ss.body_spec() == body,
    {
        Symbol::Small(SymbolSmall(body))
    }

    /// Packs a string into the small form, or reports why it does not fit.
    pub fn try_from_small_str(s: &str) -> (r: Result<Symbol, SymbolError>)
        ensures
            (s.spec_bytes().len() <= MAX_SMALL_CHARS && (forall|j: int|
                0 <= j < s.spec_bytes().len() ==> is_symbol_char(#[trigger] s.spec_bytes()[j])))
                ==> (r matches Ok(sym) && sym matches Symbol::Small(ss) && ss.body_spec()
                == encode_bytes(s.spec_bytes())),
            forall|j: int|
                (0 <= j < s.spec_bytes().len() && j < MAX_SMALL_CHARS && !is_symbol_char(
                    #[trigger] s.spec_bytes()[j],
                ) && (forall|k: int| 0 <= k < j ==> is_symbol_char(#[trigger] s.spec_bytes()[k])))
                    ==> r == Err::<Symbol, SymbolError>(
                    SymbolError::BadChar(s.spec_bytes()[j] as char),
                ),
            (s.spec_bytes().len() > MAX_SMALL_CHARS && (forall|k: int|
                0 <= k < MAX_SMALL_CHARS ==> is_symbol_char(#[trigger] s.spec_bytes()[k]))) ==> r
                == Err::<Symbol, SymbolError>(SymbolError::TooLong(s.spec_bytes().len() as usize)),
    {
        match SymbolSmall::try_from_str(s) {
            Ok(ss) => Ok(Symbol::Small(ss)),
            Err(e) => Err(e),
        }
    }

    /// Packs a string that is known to be a well-formed small identifier.
    pub fn from_small_str(s: &str) -> (r: Symbol)
        requires
            s.spec_bytes().len() <= MAX_SMALL_CHARS,
            forall|j: int| 0 <= j < s.spec_bytes().len() ==> is_symbol_char(#[trigger] s.spec_bytes()[j]),
        ensures
            r matches Symbol::Small(ss) && ss.body_spec() == encode_bytes(s.spec_bytes()),
    {
        Symbol::Small(SymbolSmall::from_str(s))
    }
}

} // verus!
