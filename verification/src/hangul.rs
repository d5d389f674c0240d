//! Decomposition of precomposed Hangul syllables into their three jamo
//! components: initial consonant (onset), medial vowel, final consonant (coda).

use vstd::prelude::*;

verus! {

/// First scalar of the precomposed Hangul syllable block (U+AC00).
pub const HANGUL_START: u32 = 0xAC00;

/// Last scalar of the precomposed Hangul syllable block (U+D7A3).
pub const HANGUL_END: u32 = 0xD7A3;

/// Number of syllables sharing one onset: 21 vowels times 28 codas.
pub const HANGUL_ONSET_MULT: u32 = 588;

/// Number of syllables sharing one onset and vowel: 28 codas.
pub const HANGUL_VOWEL_MULT: u32 = 28;

/// Initial consonant of a Hangul syllable, in code-point order.
#[derive(Debug, Clone, Copy, PartialEq, Eq, Structural)]
pub enum HangulOnset {
    Giyeok,
    SsangGiyeok,
    Nieun,
    Digeut,
    SsangDigeut,
    Rieul,
    Mieum,
    Bieup,
    SsangBieup,
    Siot,
    SsangSiot,
    Ieung,
    Jieut,
    SsangJieut,
    Chieut,
    Kieuk,
    Tigeut,
    Pieup,
    Hieut,
}

/// Medial vowel of a Hangul syllable, in code-point order.
#[derive(Debug, Clone, Copy, PartialEq, Eq, Structural)]
pub enum HangulVowel {
    A,
    Ae,
    Ya,
    Yae,
    Eo,
    E,
    Yeo,
    Ye,
    O,
    Wa,
    Wae,
    Oe,
    Yo,
    U,
    Wo,
    We,
    Wi,
    Yu,
    Eu,
    Ui,
    I,
}

/// Final consonant of a Hangul syllable (possibly absent), in code-point order.
#[derive(Debug, Clone, Copy, PartialEq, Eq, Structural)]
pub enum HangulCoda {
    Null,
    Giyeok,
    SsangGiyeok,
    GiyeokSiot,
    Nieun,
    NieunJieut,
    NieunHieut,
    Digeut,
    Rieul,
    RieulGiyeok,
    RieulMieum,
    RieulBieup,
    RieulSiot,
    RieulTigeut,
    RieulPieup,
    RieulHieut,
    Mieum,
    Bieup,
    BieupSiot,
    Siot,
    SsangSiot,
    Ieung,
    Jieut,
    Chieut,
    Kieuk,
    Tigeut,
    Pieup,
    Hieut,
}

/// Position of an onset within the 19 initial consonants.
pub open spec fn onset_index(o: HangulOnset) -> int {
    match o {
        HangulOnset::Giyeok => 0,
        HangulOnset::SsangGiyeok => 1,
        HangulOnset::Nieun => 2,
        HangulOnset::Digeut => 3,
        HangulOnset::SsangDigeut => 4,
        HangulOnset::Rieul => 5,
        HangulOnset::Mieum => 6,
        HangulOnset::Bieup => 7,
        HangulOnset::SsangBieup => 8,
        HangulOnset::Siot => 9,
        HangulOnset::SsangSiot => 10,
        HangulOnset::Ieung => 11,
        HangulOnset::Jieut => 12,
        HangulOnset::SsangJieut => 13,
        HangulOnset::Chieut => 14,
        HangulOnset::Kieuk => 15,
        HangulOnset::Tigeut => 16,
        HangulOnset::Pieup => 17,
        HangulOnset::Hieut => 18,
    }
}

/// Position of a vowel within the 21 medial vowels.
pub open spec fn vowel_index(v: HangulVowel) -> int {
    match v {
        HangulVowel::A => 0,
        HangulVowel::Ae => 1,
        HangulVowel::Ya => 2,
        HangulVowel::Yae => 3,
        HangulVowel::Eo => 4,
        HangulVowel::E => 5,
        HangulVowel::Yeo => 6,
        HangulVowel::Ye => 7,
        HangulVowel::O => 8,
        HangulVowel::Wa => 9,
        HangulVowel::Wae => 10,
        HangulVowel::Oe => 11,
        HangulVowel::Yo => 12,
        HangulVowel::U => 13,
        HangulVowel::Wo => 14,
        HangulVowel::We => 15,
        HangulVowel::Wi => 16,
        HangulVowel::Yu => 17,
        HangulVowel::Eu => 18,
        HangulVowel::Ui => 19,
        HangulVowel::I => 20,
    }
}

/// Position of a coda within the 28 final consonants (0 is the empty coda).
pub open spec fn coda_index(c: HangulCoda) -> int {
    match c {
        HangulCoda::Null => 0,
        HangulCoda::Giyeok => 1,
        HangulCoda::SsangGiyeok => 2,
        HangulCoda::GiyeokSiot => 3,
        HangulCoda::Nieun => 4,
        HangulCoda::NieunJieut => 5,
        HangulCoda::NieunHieut => 6,
        HangulCoda::Digeut => 7,
        HangulCoda::Rieul => 8,
        HangulCoda::RieulGiyeok => 9,
        HangulCoda::RieulMieum => 10,
        HangulCoda::RieulBieup => 11,
        HangulCoda::RieulSiot => 12,
        HangulCoda::RieulTigeut => 13,
        HangulCoda::RieulPieup => 14,
        HangulCoda::RieulHieut => 15,
        HangulCoda::Mieum => 16,
        HangulCoda::Bieup => 17,
        HangulCoda::BieupSiot => 18,
        HangulCoda::Siot => 19,
        HangulCoda::SsangSiot => 20,
        HangulCoda::Ieung => 21,
        HangulCoda::Jieut => 22,
        HangulCoda::Chieut => 23,
        HangulCoda::Kieuk => 24,
        HangulCoda::Tigeut => 25,
        HangulCoda::Pieup => 26,
        HangulCoda::Hieut => 27,
    }
}

/// A Hangul syllable decomposed into its three jamo components.
#[derive(Debug, Clone, Copy, PartialEq, Eq, Structural)]
pub struct HangulSyllable {
    pub onset: HangulOnset,
    pub vowel: HangulVowel,
    pub coda: HangulCoda,
}

/// The Unicode scalar that a decomposed syllable recomposes to.
pub open spec fn syllable_code(s: HangulSyllable) -> int {
    0xAC00 + 588 * onset_index(s.onset) + 28 * vowel_index(s.vowel) + coda_index(s.coda)
}

/// Whether a scalar value lies in the precomposed Hangul syllable block.
pub open spec fn is_syllable_code(u: int) -> bool {
    0xAC00 <= u <= 0xD7A3
}

fn onset_from_index(i: u32) -> (r: HangulOnset)
    requires
        i < 19,
    ensures
        onset_index(r) == i as int,
{
    match i {
        0 => HangulOnset::Giyeok,
        1 => HangulOnset::SsangGiyeok,
        2 => HangulOnset::Nieun,
        3 => HangulOnset::Digeut,
        4 => HangulOnset::SsangDigeut,
        5 => HangulOnset::Rieul,
        6 => HangulOnset::Mieum,
        7 => HangulOnset::Bieup,
        8 => HangulOnset::SsangBieup,
        9 => HangulOnset::Siot,
        10 => HangulOnset::SsangSiot,
        11 => HangulOnset::Ieung,
        12 => HangulOnset::Jieut,
        13 => HangulOnset::SsangJieut,
        14 => HangulOnset::Chieut,
        15 => HangulOnset::Kieuk,
        16 => HangulOnset::Tigeut,
        17 => HangulOnset::Pieup,
        _ => HangulOnset::Hieut,
    }
}

fn vowel_from_index(i: u32) -> (r: HangulVowel)
    requires
        i < 21,
    ensures
        vowel_index(r) == i as int,
{
    match i {
        0 => HangulVowel::A,
        1 => HangulVowel::Ae,
        2 => HangulVowel::Ya,
        3 => HangulVowel::Yae,
        4 => HangulVowel::Eo,
        5 => HangulVowel::E,
        6 => HangulVowel::Yeo,
        7 => HangulVowel::Ye,
        8 => HangulVowel::O,
        9 => HangulVowel::Wa,
        10 => HangulVowel::Wae,
        11 => HangulVowel::Oe,
        12 => HangulVowel::Yo,
        13 => HangulVowel::U,
        14 => HangulVowel::Wo,
        15 => HangulVowel::We,
        16 => HangulVowel::Wi,
        17 => HangulVowel::Yu,
        18 => HangulVowel::Eu,
        19 => HangulVowel::Ui,
        _ => HangulVowel::I,
    }
}

fn coda_from_index(i: u32) -> (r: HangulCoda)
    requires
        i < 28,
    ensures
        coda_index(r) == i as int,
{
    match i {
        0 => HangulCoda::Null,
        1 => HangulCoda::Giyeok,
        2 => HangulCoda::SsangGiyeok,
        3 => HangulCoda::GiyeokSiot,
        4 => HangulCoda::Nieun,
        5 => HangulCoda::NieunJieut,
        6 => HangulCoda::NieunHieut,
        7 => HangulCoda::Digeut,
        8 => HangulCoda::Rieul,
        9 => HangulCoda::RieulGiyeok,
        10 => HangulCoda::RieulMieum,
        11 => HangulCoda::RieulBieup,
        12 => HangulCoda::RieulSiot,
        13 => HangulCoda::RieulTigeut,
        14 => HangulCoda::RieulPieup,
        15 => HangulCoda::RieulHieut,
        16 => HangulCoda::Mieum,
        17 => HangulCoda::Bieup,
        18 => HangulCoda::BieupSiot,
        19 => HangulCoda::Siot,
        20 => HangulCoda::SsangSiot,
        21 => HangulCoda::Ieung,
        22 => HangulCoda::Jieut,
        23 => HangulCoda::Chieut,
        24 => HangulCoda::Kieuk,
        25 => HangulCoda::Tigeut,
        26 => HangulCoda::Pieup,
        _ => HangulCoda::Hieut,
    }
}

impl HangulSyllable {
    /// Decomposes a character into its jamo components, or returns `None` for
    /// any character outside the precomposed Hangul syllable block.
    ///
    /// The returned components recompose to the original scalar under
    /// `0xAC00 + 588 * onset + 28 * vowel + coda`.
    pub fn from_char(hangul_char: char) -> (r: Option<Self>)
        ensures
            r.is_some() <==> is_syllable_code(hangul_char as int),
            r.is_some() ==> {
                let h = hangul_char as int - 0xAC00;
                &&& onset_index(r.unwrap().onset) == h / 588
                &&& vowel_index(r.unwrap().vowel) == (h % 588) / 28
                &&& coda_index(r.unwrap().coda) == h % 28
                &&& syllable_code(r.unwrap()) == hangul_char as int
            },
    {
        let uni = hangul_char as u32;
        if uni < HANGUL_START || uni > HANGUL_END {
            return None;
        }
        let han_offset = uni - HANGUL_START;
        let onset_num = han_offset / HANGUL_ONSET_MULT;
        let onset_rem = han_offset % HANGUL_ONSET_MULT;
        let vowel_num = onset_rem / HANGUL_VOWEL_MULT;
        let coda_num = onset_rem % HANGUL_VOWEL_MULT;
        let onset = onset_from_index(onset_num);
        let vowel = vowel_from_index(vowel_num);
        let coda = coda_from_index(coda_num);
        Some(Self { onset, vowel, coda })
    }
}

/// Recomposing the components of any syllable in the Hangul block yields the
/// scalar the syllable was decomposed from.
pub proof fn lemma_syllable_round_trip(s: HangulSyllable, u: int)
    requires
        is_syllable_code(u),
        onset_index(s.onset) == (u - 0xAC00) / 588,
        vowel_index(s.vowel) == ((u - 0xAC00) % 588) / 28,
        coda_index(s.coda) == (u - 0xAC00) % 28,
    ensures
        syllable_code(s) == u,
{
}

} // verus!
