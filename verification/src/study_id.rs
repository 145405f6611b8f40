//! Generation of replacement study identifiers.
//!
//! A study identifier is a freshly drawn non-negative integer below
//! [`STUDY_NUMBER_BOUND`], rendered as a sixteen-character, zero-padded
//! decimal string.

use vstd::prelude::*;
use vstd::arithmetic::power::{pow, lemma_pow_adds, lemma_pow1, lemma_pow_positive};
use vstd::arithmetic::div_mod::{
    lemma_basic_div, lemma_div_denominator, lemma_div_multiples_vanish,
    lemma_fundamental_div_mod,
};

verus! {

/// Exclusive upper bound on freshly drawn study numbers.
pub const STUDY_NUMBER_BOUND: u64 = 100_000_000_000;

pub open spec fn pow10(k: nat) -> int {
    pow(10, k)
}

/// The character for one decimal digit.
pub open spec fn digit_char(d: int) -> char {
    "0123456789"@[d]
}

/// Whether a character is a decimal digit.
pub open spec fn is_decimal_digit(c: char) -> bool {
    c == '0' || c == '1' || c == '2' || c == '3' || c == '4' || c == '5' || c == '6' || c == '7'
        || c == '8' || c == '9'
}

/// The numeric value of a decimal digit character.
pub open spec fn digit_value(c: char) -> int {
    if c == '0' {
        0
    } else if c == '1' {
        1
    } else if c == '2' {
        2
    } else if c == '3' {
        3
    } else if c == '4' {
        4
    } else if c == '5' {
        5
    } else if c == '6' {
        6
    } else if c == '7' {
        7
    } else if c == '8' {
        8
    } else {
        9
    }
}

/// The sixteen-character, zero-padded decimal rendering of `n`.
pub open spec fn study_id_chars(n: nat) -> Seq<char> {
    Seq::new(16, |i: int| digit_char((n as int / pow10((15 - i) as nat)) % 10))
}

/// The numeric value of a string of decimal digits.
pub open spec fn decimal_value(s: Seq<char>) -> int
    decreases s.len(),
{
    if s.len() == 0 {
        0
    } else {
        decimal_value(s.drop_last()) * 10 + digit_value(s.last())
    }
}

/// Each decimal digit renders as the matching digit character, and back.
pub proof fn lemma_digit_char_facts()
    ensures
        forall|d: int|
            0 <= d < 10 ==> is_decimal_digit(#[trigger] digit_char(d)) && digit_value(
                digit_char(d),
            ) == d,
{
    reveal_strlit("0123456789");
    assert forall|d: int| 0 <= d < 10 implies is_decimal_digit(#[trigger] digit_char(d))
        && digit_value(digit_char(d)) == d by {
        if d == 0 {
            assert(digit_char(0) == '0');
        } else if d == 1 {
            assert(digit_char(1) == '1');
        } else if d == 2 {
            assert(digit_char(2) == '2');
        } else if d == 3 {
            assert(digit_char(3) == '3');
        } else if d == 4 {
            assert(digit_char(4) == '4');
        } else if d == 5 {
            assert(digit_char(5) == '5');
        } else if d == 6 {
            assert(digit_char(6) == '6');
        } else if d == 7 {
            assert(digit_char(7) == '7');
        } else if d == 8 {
            assert(digit_char(8) == '8');
        } else {
            assert(digit_char(9) == '9');
        }
    }
}

/// Concrete powers of ten used by the rendering proofs.
proof fn lemma_pow10_concrete()
    ensures
        pow10(0) == 1,
        pow10(15) == 1_000_000_000_000_000,
        pow10(16) == 10_000_000_000_000_000,
{
    reveal_with_fuel(pow, 17);
}

proof fn lemma_study_id_prefix_value(n: nat, k: int)
    requires
        n < pow10(16),
        0 <= k <= 16,
    ensures
        decimal_value(study_id_chars(n).take(k)) == n as int / pow10((16 - k) as nat),
    decreases k,
{
    lemma_pow_positive(10, (16 - k) as nat);
    if k == 0 {
        assert(study_id_chars(n).take(0) =~= Seq::<char>::empty());
        lemma_basic_div(n as int, pow10(16 as nat));
    } else {
        lemma_study_id_prefix_value(n, k - 1);
        lemma_digit_char_facts();
        let s = study_id_chars(n).take(k);
        assert(s.drop_last() =~= study_id_chars(n).take(k - 1));
        let p = pow10((16 - k) as nat);
        let m = n as int / p;
        assert(s.last() == digit_char(m % 10));
        assert(pow10((17 - k) as nat) == p * 10) by {
            lemma_pow_adds(10, (16 - k) as nat, 1);
            lemma_pow1(10);
        }
        lemma_pow_positive(10, (17 - k) as nat);
        lemma_div_denominator(n as int, p, 10);
        lemma_fundamental_div_mod(m, 10);
        assert(m >= 0);
        assert(0 <= m % 10 < 10);
        assert(digit_value(s.last()) == m % 10);
        assert(decimal_value(s) == (m / 10) * 10 + m % 10);
    }
}

/// Form of a rendered study identifier: sixteen characters, all decimal
/// digits, whose numeric value is exactly the rendered number.
pub proof fn lemma_study_id_value(n: nat)
    requires
        n < STUDY_NUMBER_BOUND,
    ensures
        study_id_chars(n).len() == 16,
        forall|i: int| 0 <= i < 16 ==> is_decimal_digit(#[trigger] study_id_chars(n)[i]),
        decimal_value(study_id_chars(n)) == n,
{
    lemma_digit_char_facts();
    lemma_pow10_concrete();
    lemma_study_id_prefix_value(n, 16);
    assert(study_id_chars(n).take(16) =~= study_id_chars(n));
    assert forall|i: int| 0 <= i < 16 implies is_decimal_digit(
        #[trigger] study_id_chars(n)[i],
    ) by {
        lemma_pow_positive(10, (15 - i) as nat);
        let m = n as int / pow10((15 - i) as nat);
        assert(m >= 0);
        assert(0 <= m % 10 < 10);
    }
}

/// Distinct study numbers render as distinct identifier strings.
pub proof fn lemma_study_id_injective(n1: nat, n2: nat)
    requires
        n1 < STUDY_NUMBER_BOUND,
        n2 < STUDY_NUMBER_BOUND,
        study_id_chars(n1) == study_id_chars(n2),
    ensures
        n1 == n2,
{
    lemma_study_id_value(n1);
    lemma_study_id_value(n2);
}

/// Renders `n` as its sixteen-character, zero-padded decimal string.
pub fn study_id_from(n: u64) -> (r: String)
    requires
        n < STUDY_NUMBER_BOUND,
    ensures
        r@ == study_id_chars(n as nat),
{
    let digits = "0123456789";
    proof {
        reveal_strlit("0123456789");
        lemma_pow10_concrete();
    }
    let mut r = String::new();
    let mut p: u64 = 1_000_000_000_000_000;
    let mut i: usize = 0;
    while i < 16
        invariant
            i <= 16,
            n < STUDY_NUMBER_BOUND,
            digits@ == "0123456789"@,
            digits@.len() == 10,
            i < 16 ==> p as int == pow10((15 - i) as nat),
            r@ == study_id_chars(n as nat).take(i as int),
        decreases 16 - i,
    {
        proof {
            lemma_pow_positive(10, (15 - i) as nat);
        }
        let d = ((n / p) % 10) as usize;
        proof {
            assert(d < 10);
        }
        let piece = digits.substring_char(d, d + 1);
        proof {
            assert(piece@ =~= seq![digits@[d as int]]);
            assert(study_id_chars(n as nat)[i as int] == digit_char(
                (n as int / pow10((15 - i) as nat)) % 10,
            ));
            assert(study_id_chars(n as nat).take(i as int + 1) =~= study_id_chars(
                n as nat,
            ).take(i as int).push(study_id_chars(n as nat)[i as int]));
        }
        r.append(piece);
        if i < 15 {
            proof {
                assert(pow10((15 - i) as nat) == 10 * pow10((14 - i) as nat)) by {
                    lemma_pow_adds(10, 1 as nat, (14 - i) as nat);
                    lemma_pow1(10);
                }
                lemma_pow_positive(10, (14 - i) as nat);
                lemma_div_multiples_vanish(pow10((14 - i) as nat), 10);
            }
            p = p / 10;
        }
        i = i + 1;
    }
    proof {
        assert(study_id_chars(n as nat).take(16) =~= study_id_chars(n as nat));
    }
    r
}

/// The source of fresh study numbers: one pseudo-random generator, seeded
/// once and advanced once per generated identifier.
pub struct StudyIdSource {
    rng: rand::rngs::StdRng,
}

#[verifier::external_type_specification]
#[verifier::external_body]
pub struct ExStdRng(rand::rngs::StdRng);

impl StudyIdSource {
    /// Relies on rand's `SeedableRng::from_entropy`: a generator freshly
    /// seeded from the operating system's entropy source.
    #[verifier::external_body]
    pub fn from_entropy() -> (s: Self) {
        StudyIdSource { rng: <rand::rngs::StdRng as rand::SeedableRng>::from_entropy() }
    }

    /// Relies on rand's `SeedableRng::seed_from_u64`: a generator seeded
    /// from the given word, for reproducible runs.
    #[verifier::external_body]
    pub fn from_seed(seed: u64) -> (s: Self) {
        StudyIdSource { rng: <rand::rngs::StdRng as rand::SeedableRng>::seed_from_u64(seed) }
    }

    /// Relies on rand's `Rng::gen_range`: a value drawn from the given
    /// half-open range, which here is never empty.
    #[verifier::external_body]
    pub(crate) fn draw(&mut self) -> (n: u64)
        ensures
            n < STUDY_NUMBER_BOUND,
    {
        rand::Rng::gen_range(&mut self.rng, 0..STUDY_NUMBER_BOUND)
    }

    /// Draws a fresh study number and renders it as a study identifier.
    pub fn next_study_id(&mut self) -> (r: String)
        ensures
            exists|n: nat| n < STUDY_NUMBER_BOUND && r@ == study_id_chars(n),
    {
        let n = self.draw();
        let r = study_id_from(n);
        proof {
            assert((n as nat) < STUDY_NUMBER_BOUND && r@ == study_id_chars(n as nat));
        }
        r
    }
}

} // verus!
