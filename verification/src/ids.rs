//! Identifiers of media items and the texts that name them.

use vstd::arithmetic::div_mod::lemma_basic_div;
use vstd::arithmetic::div_mod::lemma_div_denominator;
use vstd::arithmetic::power::lemma_pow1;
use vstd::arithmetic::power::lemma_pow_adds;
use vstd::arithmetic::power::lemma_pow_positive;
use vstd::arithmetic::power::pow;
use vstd::prelude::*;

verus! {

/// A UUID, by its 128 bits.
#[derive(Clone, Copy, Debug, PartialEq, Eq, Structural, Hash)]
pub struct MediaId {
    pub bits: u128,
}

/// The hexadecimal digit of `bits` at position `k` of 32, most significant first.
pub open spec fn nibble(bits: u128, k: int) -> int {
    (bits as int / pow(16, (31 - k) as nat)) % 16
}

/// A hexadecimal digit in lower case.
pub open spec fn hex_char(n: int) -> char {
    if n < 10 {
        (48 + n) as u8 as char
    } else {
        (87 + n) as u8 as char
    }
}

impl MediaId {
    /// The 32 hexadecimal digits, in lower case.
    pub open spec fn simple(self) -> Seq<char> {
        Seq::new(32, |k: int| hex_char(nibble(self.bits, k)))
    }

    /// The 32 hexadecimal digits in groups of 8, 4, 4, 4 and 12, joined by hyphens.
    pub open spec fn hyphenated(self) -> Seq<char> {
        let s = self.simple();
        s.subrange(0, 8) + seq!['-'] + s.subrange(8, 12) + seq!['-'] + s.subrange(12, 16) + seq![
            '-',
        ] + s.subrange(16, 20) + seq!['-'] + s.subrange(20, 32)
    }

    /// The hyphenated text of the identifier.
    pub fn to_text(&self) -> (s: String)
        ensures
            s@ == self.hyphenated(),
    {
        hyphenated_text(self.bits)
    }

    /// The text of the identifier without hyphens.
    pub fn to_simple_text(&self) -> (s: String)
        ensures
            s@ == self.simple(),
    {
        simple_text(self.bits)
    }
}

/// `uuid::Uuid::to_string` (its `Display`) writes the 32 hexadecimal digits of
/// the value in lower case, most significant first, with a hyphen before the
/// 9th, 13th, 17th and 21st.
#[verifier::external_body]
fn hyphenated_text(bits: u128) -> (s: String)
    ensures
        s@ == (MediaId { bits }).hyphenated(),
{
    uuid::Uuid::from_u128(bits).to_string()
}

/// `uuid::Uuid::as_simple`, whose `Display` writes the 32 hexadecimal digits of
/// the value in lower case, most significant first, and nothing else.
#[verifier::external_body]
fn simple_text(bits: u128) -> (s: String)
    ensures
        s@ == (MediaId { bits }).simple(),
{
    uuid::Uuid::from_u128(bits).as_simple().to_string()
}

/// Identifiers with the same text are the same identifier.
pub proof fn ids_have_distinct_texts(a: MediaId, b: MediaId)
    ensures
        a.simple() == b.simple() ==> a == b,
        a.hyphenated() == b.hyphenated() ==> a == b,
{
    if a.hyphenated() == b.hyphenated() {
        let x = a.simple();
        let y = b.simple();
        let g = a.hyphenated();
        let h = b.hyphenated();
        assert forall|k: int| 0 <= k < 32 implies x[k] == y[k] by {
            let p = if k < 8 {
                k
            } else if k < 12 {
                k + 1
            } else if k < 16 {
                k + 2
            } else if k < 20 {
                k + 3
            } else {
                k + 4
            };
            assert(g[p] == x[k]);
            assert(h[p] == y[k]);
        }
        assert(x =~= y);
    }
    if a.simple() == b.simple() {
        assert forall|k: int| 0 <= k < 32 implies nibble(a.bits, k) == nibble(b.bits, k) by {
            assert(a.simple()[k] == hex_char(nibble(a.bits, k)));
            assert(b.simple()[k] == hex_char(nibble(b.bits, k)));
        }
        lemma_same_digits(a.bits, b.bits, 0);
        lemma_basic_div_by_one(a.bits as int);
        lemma_basic_div_by_one(b.bits as int);
    }
}

proof fn lemma_basic_div_by_one(x: int)
    requires
        x >= 0,
    ensures
        x / pow(16, 0) == x,
{
    vstd::arithmetic::power::lemma_pow0(16);
}

/// Numbers of 128 bits that agree in their digits from place `j` up agree when
/// the places below are cut off.
proof fn lemma_same_digits(a: u128, b: u128, j: nat)
    requires
        j <= 32,
        forall|k: int| 0 <= k < 32 ==> #[trigger] nibble(a, k) == nibble(b, k),
    ensures
        a as int / pow(16, j) == b as int / pow(16, j),
    decreases 32 - j,
{
    if j == 32 {
        assert(pow(16, 32) > u128::MAX) by {
            lemma_pow1(16);
            lemma_pow_adds(16, 1, 1);
            assert(pow(16, 2) == 0x100);
            lemma_pow_adds(16, 2, 2);
            assert(pow(16, 4) == 0x1_0000);
            lemma_pow_adds(16, 4, 4);
            assert(pow(16, 8) == 0x1_0000_0000);
            lemma_pow_adds(16, 8, 8);
            assert(pow(16, 16) == 0x1_0000_0000_0000_0000);
            lemma_pow_adds(16, 16, 16);
        }
        lemma_basic_div(a as int, pow(16, 32));
        lemma_basic_div(b as int, pow(16, 32));
    } else {
        lemma_same_digits(a, b, j + 1);
        lemma_pow_positive(16, j);
        lemma_pow_adds(16, j, 1);
        lemma_pow1(16);
        lemma_div_denominator(a as int, pow(16, j), 16);
        lemma_div_denominator(b as int, pow(16, j), 16);
        let k = 31 - j;
        assert(nibble(a, k) == nibble(b, k));
        assert((31 - k) as nat == j);
    }
}

/// An identifier is written alike with and without hyphens: the hyphens stand at
/// four fixed places, and the 32 digits between them are the same, all of them
/// hexadecimal digits in lower case.
pub proof fn hyphens_are_all_that_differs(id: &MediaId, with: String, without: String)
    requires
        call_ensures(MediaId::to_text, (id,), with),
        call_ensures(MediaId::to_simple_text, (id,), without),
    ensures
        with@.len() == 36,
        without@.len() == 32,
        with@[8] == '-' && with@[13] == '-' && with@[18] == '-' && with@[23] == '-',
        without@ == with@.subrange(0, 8) + with@.subrange(9, 13) + with@.subrange(14, 18)
            + with@.subrange(19, 23) + with@.subrange(24, 36),
        forall|k: int|
            0 <= k < 32 ==> ('0' <= #[trigger] without@[k] <= '9') || ('a' <= without@[k] <= 'f'),
{
    assert(without@ =~= with@.subrange(0, 8) + with@.subrange(9, 13) + with@.subrange(14, 18)
        + with@.subrange(19, 23) + with@.subrange(24, 36));
    assert forall|k: int| 0 <= k < 32 implies ('0' <= #[trigger] without@[k] <= '9') || ('a'
        <= without@[k] <= 'f') by {
        assert(0 <= nibble(id.bits, k) < 16);
    }
}

} // verus!
