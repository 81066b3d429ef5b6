//! Codepoint classes, and the arithmetic that links a precomposed syllable
//! to its jamo.

use vstd::prelude::*;

use crate::jamo_stream::{is_final, is_initial, is_vowel, ModernJamo};
use crate::text::{chars_of, push_char, string_of};

verus! {

/// The Unicode block, among those related to Hangul, that holds a character.
#[derive(Debug, Clone, Copy, PartialEq, Eq, Structural)]
pub enum HangulCharClass {
    CompatibilityJamo,
    JamoExtendedA,
    JamoExtendedB,
    Jamo,
    Syllables,
    /// Any character outside the Hangul blocks.
    Other,
}

/// First codepoint of the Hangul Syllables block.
pub const SYLLABLE_BASE: u32 = 0xac00;

/// First codepoint of the initial consonants in the Hangul Jamo block.
pub const INITIAL_BASE: u32 = 0x1100;

/// First codepoint of the vowels in the Hangul Jamo block.
pub const MEDIAL_BASE: u32 = 0x1161;

/// One before the first codepoint of the final consonants, so that index 0
/// stands for "no final consonant".
pub const FINAL_BASE: u32 = 0x11a7;

/// The class of a character, by the inclusive codepoint range that holds it.
pub open spec fn class_of(c: char) -> HangulCharClass {
    let u = c as u32;
    if 0xac00 <= u <= 0xd7af {
        HangulCharClass::Syllables
    } else if 0x1100 <= u <= 0x11ff {
        HangulCharClass::Jamo
    } else if 0x3130 <= u <= 0x318f {
        HangulCharClass::CompatibilityJamo
    } else if 0xa960 <= u <= 0xa97f {
        HangulCharClass::JamoExtendedA
    } else if 0xd7b0 <= u <= 0xd7ff {
        HangulCharClass::JamoExtendedB
    } else {
        HangulCharClass::Other
    }
}

/// Whether `u` is a Unicode scalar value, that is a valid `char`.
pub open spec fn is_scalar_value(u: u32) -> bool {
    u <= 0xd7ff || (0xe000 <= u && u <= 0x10ffff)
}

/// Relies on `char::from_u32`: a Unicode scalar value comes back as that
/// character, any other value as `None`.
#[verifier::external_body]
fn char_from_u32(u: u32) -> (r: Option<char>)
    ensures
        is_scalar_value(u) ==> r == Some(u as char),
        !is_scalar_value(u) ==> r is None,
{
    char::from_u32(u)
}

impl HangulCharClass {
    /// The class of `c`.
    pub fn of_char(c: char) -> (r: HangulCharClass)
        ensures
            r == class_of(c),
    {
        let u = c as u32;
        if 0xac00 <= u && u <= 0xd7af {
            HangulCharClass::Syllables
        } else if 0x1100 <= u && u <= 0x11ff {
            HangulCharClass::Jamo
        } else if 0x3130 <= u && u <= 0x318f {
            HangulCharClass::CompatibilityJamo
        } else if 0xa960 <= u && u <= 0xa97f {
            HangulCharClass::JamoExtendedA
        } else if 0xd7b0 <= u && u <= 0xd7ff {
            HangulCharClass::JamoExtendedB
        } else {
            HangulCharClass::Other
        }
    }
}

impl From<char> for HangulCharClass {
    fn from(c: char) -> (r: HangulCharClass) {
        HangulCharClass::of_char(c)
    }
}

impl vstd::std_specs::convert::FromSpecImpl<char> for HangulCharClass {
    open spec fn obeys_from_spec() -> bool {
        true
    }

    open spec fn from_spec(c: char) -> HangulCharClass {
        class_of(c)
    }
}

/// Classification depends on the character alone: two calls on one
/// character agree.
pub proof fn lemma_class_deterministic(a: char, b: char)
    requires
        a == b,
    ensures
        class_of(a) == class_of(b),
{
}

/// The jamo of a precomposed syllable: initial consonant, vowel and, where
/// its index is not 0, final consonant.
pub open spec fn decompose_spec(c: char) -> Option<(char, char, Option<char>)> {
    if class_of(c) == HangulCharClass::Syllables {
        let base = c as u32 - 0xac00;
        let f = base % 28;
        Some(
            (
                (0x1100 + base / 588) as char,
                (0x1161 + (base % 588) / 28) as char,
                if f == 0 {
                    None
                } else {
                    Some((0x11a7 + f) as char)
                },
            ),
        )
    } else {
        None
    }
}

/// A decomposition written out as the jamo it is made of.
pub open spec fn jamo_seq(d: (char, char, Option<char>)) -> Seq<char> {
    match d.2 {
        Some(f) => seq![d.0, d.1, f],
        None => seq![d.0, d.1],
    }
}

/// The syllable that a sequence of jamo composes to. Only the first three
/// characters are read: an initial consonant, a vowel and an optional final
/// consonant. A codepoint below a jamo range, or a result outside the
/// Syllables block, gives `None`.
pub open spec fn compose_spec(cs: Seq<char>) -> Option<char> {
    if cs.len() < 2 || (cs[0] as u32) < 0x1100 || (cs[1] as u32) < 0x1161 || (cs.len() >= 3
        && (cs[2] as u32) < 0x11a7) {
        None
    } else {
        let f = if cs.len() >= 3 {
            cs[2] as u32 - 0x11a7
        } else {
            0
        };
        let cp = (cs[0] as u32 - 0x1100) * 588 + (cs[1] as u32 - 0x1161) * 28 + f + 0xac00;
        if 0xac00 <= cp <= 0xd7af {
            Some((cp as u32) as char)
        } else {
            None
        }
    }
}

/// Composes the given Hangul jamo into a single Hangul syllable.
///
/// Returns `None` when the characters are not the jamo of a syllable.
pub fn compose_hangul_jamos_to_syllable(chars: &[char]) -> (r: Option<char>)
    ensures
        r == compose_spec(chars@),
{
    if chars.len() < 2 {
        return None;
    }
    let c0 = chars[0];
    let c1 = chars[1];
    proof {
        vstd::utf8::char_is_scalar(c0);
        vstd::utf8::char_is_scalar(c1);
    }
    let initial_ch = c0 as u32;
    let medial_ch = c1 as u32;
    if initial_ch < INITIAL_BASE || medial_ch < MEDIAL_BASE {
        return None;
    }
    let initial_idx = initial_ch - INITIAL_BASE;
    let medial_idx = medial_ch - MEDIAL_BASE;
    let final_idx: u32 = if chars.len() >= 3 {
        let c2 = chars[2];
        proof {
            vstd::utf8::char_is_scalar(c2);
        }
        let final_ch = c2 as u32;
        if final_ch < FINAL_BASE {
            return None;
        }
        final_ch - FINAL_BASE
    } else {
        0
    };
    let codepoint = initial_idx * 588 + medial_idx * 28 + final_idx + SYLLABLE_BASE;
    if codepoint < 0xac00 || codepoint > 0xd7af {
        return None;
    }
    char_from_u32(codepoint)
}

/// Decomposes the given Hangul syllable into the Hangul jamo it is made of.
///
/// Returns `None` when the character is not a Hangul syllable. The initial
/// consonant and the vowel always lie in the Hangul Jamo block.
pub fn decompose_hangul_syllable_to_jamos(ch: char) -> (r: Option<(char, char, Option<char>)>)
    ensures
        r == decompose_spec(ch),
        r matches Some((i, m, _)) ==> class_of(i) == HangulCharClass::Jamo && class_of(m)
            == HangulCharClass::Jamo,
{
    let codepoint = ch as u32;
    if HangulCharClass::of_char(ch) != HangulCharClass::Syllables {
        return None;
    }
    let base_codepoint = codepoint - SYLLABLE_BASE;
    let initial_idx = base_codepoint / 588;
    let medial_idx = (base_codepoint - initial_idx * 588) / 28;
    let final_idx = base_codepoint - initial_idx * 588 - medial_idx * 28;
    proof {
        lemma_syllable_indices(base_codepoint as int);
        vstd::arithmetic::div_mod::lemma_fundamental_div_mod(base_codepoint as int, 588);
        vstd::arithmetic::div_mod::lemma_fundamental_div_mod(base_codepoint as int % 588, 28);
    }
    let initial_ch = char_from_u32(INITIAL_BASE + initial_idx).unwrap();
    let medial_ch = char_from_u32(MEDIAL_BASE + medial_idx).unwrap();
    let maybe_final_ch = if final_idx == 0 {
        None
    } else {
        char_from_u32(FINAL_BASE + final_idx)
    };
    Some((initial_ch, medial_ch, maybe_final_ch))
}

/// Composing the jamo of a syllable gives back the syllable.
pub proof fn lemma_compose_decompose(c: char)
    requires
        class_of(c) == HangulCharClass::Syllables,
    ensures
        decompose_spec(c) is Some,
        compose_spec(jamo_seq(decompose_spec(c)->0)) == Some(c),
{
    lemma_syllable_indices(c as u32 - 0xac00);
}

/// The three indices of a syllable's offset in its block are in range, and
/// give the offset back.
proof fn lemma_syllable_indices(base: int)
    requires
        0 <= base < 11184,
    ensures
        0 <= base / 588 < 20,
        0 <= (base % 588) / 28 < 21,
        (base % 588) % 28 == base % 28,
        0 <= base % 28 < 28,
        base == (base / 588) * 588 + ((base % 588) / 28) * 28 + base % 28,
{
    vstd::arithmetic::div_mod::lemma_fundamental_div_mod(base, 588);
    vstd::arithmetic::div_mod::lemma_mod_pos_bound(base, 588);
    let r = base % 588;
    vstd::arithmetic::div_mod::lemma_fundamental_div_mod(r, 28);
    vstd::arithmetic::div_mod::lemma_mod_pos_bound(r, 28);
    vstd::arithmetic::div_mod::lemma_mod_mod(base, 28, 21);
    vstd::arithmetic::div_mod::lemma_div_pos_is_pos(base, 588);
    vstd::arithmetic::div_mod::lemma_div_pos_is_pos(r, 28);
}

/// How many jamo the given character holds: 0 for a character that is not
/// a Hangul syllable, else 2 or 3.
pub fn count_jamos_in_syllable(ch: char) -> (r: usize)
    ensures
        r == jamo_count_spec(ch),
{
    match decompose_hangul_syllable_to_jamos(ch) {
        None => 0,
        Some((_, _, None)) => 2,
        _ => 3,
    }
}

/// The number of jamo that a character holds.
pub open spec fn jamo_count_spec(ch: char) -> nat {
    match decompose_spec(ch) {
        None => 0,
        Some(d) => jamo_seq(d).len(),
    }
}

/// The Hangul Compatibility Jamo that displays the same letter as a modern
/// Hangul Jamo.
pub open spec fn compat_of(ch: char) -> Option<char> {
    match ch {
        'ᄀ' | 'ᆨ' => Some('ㄱ'),
        'ᄁ' | 'ᆩ' => Some('ㄲ'),
        'ᆪ' => Some('ㄳ'),
        'ᄂ' | 'ᆫ' => Some('ㄴ'),
        'ᆬ' => Some('ㄵ'),
        'ᆭ' => Some('ㄶ'),
        'ᄃ' | 'ᆮ' => Some('ㄷ'),
        'ᄄ' => Some('ㄸ'),
        'ᄅ' | 'ᆯ' => Some('ㄹ'),
        'ᆰ' => Some('ㄺ'),
        'ᆱ' => Some('ㄻ'),
        'ᆲ' => Some('ㄼ'),
        'ᆳ' => Some('ㄽ'),
        'ᆴ' => Some('ㄾ'),
        'ᆵ' => Some('ㄿ'),
        'ᆶ' => Some('ㅀ'),
        'ᄆ' | 'ᆷ' => Some('ㅁ'),
        'ᄇ' | 'ᆸ' => Some('ㅂ'),
        'ᄈ' => Some('ㅃ'),
        'ᆹ' => Some('ㅄ'),
        'ᄉ' | 'ᆺ' => Some('ㅅ'),
        'ᄊ' | 'ᆻ' => Some('ㅆ'),
        'ᄋ' | 'ᆼ' => Some('ㅇ'),
        'ᄌ' | 'ᆽ' => Some('ㅈ'),
        'ᄍ' => Some('ㅉ'),
        'ᄎ' | 'ᆾ' => Some('ㅊ'),
        'ᄏ' | 'ᆿ' => Some('ㅋ'),
        'ᄐ' | 'ᇀ' => Some('ㅌ'),
        'ᄑ' | 'ᇁ' => Some('ㅍ'),
        'ᄒ' | 'ᇂ' => Some('ㅎ'),
        'ᅡ' => Some('ㅏ'),
        'ᅢ' => Some('ㅐ'),
        'ᅣ' => Some('ㅑ'),
        'ᅤ' => Some('ㅒ'),
        'ᅥ' => Some('ㅓ'),
        'ᅦ' => Some('ㅔ'),
        'ᅧ' => Some('ㅕ'),
        'ᅨ' => Some('ㅖ'),
        'ᅩ' => Some('ㅗ'),
        'ᅪ' => Some('ㅘ'),
        'ᅫ' => Some('ㅙ'),
        'ᅬ' => Some('ㅚ'),
        'ᅭ' => Some('ㅛ'),
        'ᅮ' => Some('ㅜ'),
        'ᅯ' => Some('ㅝ'),
        'ᅰ' => Some('ㅞ'),
        'ᅱ' => Some('ㅟ'),
        'ᅲ' => Some('ㅠ'),
        'ᅳ' => Some('ㅡ'),
        'ᅴ' => Some('ㅢ'),
        'ᅵ' => Some('ㅣ'),
        _ => None,
    }
}

/// Converts a Hangul Jamo to its equivalent Hangul Compatibility Jamo.
///
/// A compatibility jamo displays by itself without the spacing that
/// terminals often add around a conjoining jamo.
pub fn hangul_jamo_to_compat(ch: char) -> (r: Option<char>)
    ensures
        r == compat_of(ch),
{
    match ch {
        'ᄀ' | 'ᆨ' => Some('ㄱ'),
        'ᄁ' | 'ᆩ' => Some('ㄲ'),
        'ᆪ' => Some('ㄳ'),
        'ᄂ' | 'ᆫ' => Some('ㄴ'),
        'ᆬ' => Some('ㄵ'),
        'ᆭ' => Some('ㄶ'),
        'ᄃ' | 'ᆮ' => Some('ㄷ'),
        'ᄄ' => Some('ㄸ'),
        'ᄅ' | 'ᆯ' => Some('ㄹ'),
        'ᆰ' => Some('ㄺ'),
        'ᆱ' => Some('ㄻ'),
        'ᆲ' => Some('ㄼ'),
        'ᆳ' => Some('ㄽ'),
        'ᆴ' => Some('ㄾ'),
        'ᆵ' => Some('ㄿ'),
        'ᆶ' => Some('ㅀ'),
        'ᄆ' | 'ᆷ' => Some('ㅁ'),
        'ᄇ' | 'ᆸ' => Some('ㅂ'),
        'ᄈ' => Some('ㅃ'),
        'ᆹ' => Some('ㅄ'),
        'ᄉ' | 'ᆺ' => Some('ㅅ'),
        'ᄊ' | 'ᆻ' => Some('ㅆ'),
        'ᄋ' | 'ᆼ' => Some('ㅇ'),
        'ᄌ' | 'ᆽ' => Some('ㅈ'),
        'ᄍ' => Some('ㅉ'),
        'ᄎ' | 'ᆾ' => Some('ㅊ'),
        'ᄏ' | 'ᆿ' => Some('ㅋ'),
        'ᄐ' | 'ᇀ' => Some('ㅌ'),
        'ᄑ' | 'ᇁ' => Some('ㅍ'),
        'ᄒ' | 'ᇂ' => Some('ㅎ'),
        'ᅡ' => Some('ㅏ'),
        'ᅢ' => Some('ㅐ'),
        'ᅣ' => Some('ㅑ'),
        'ᅤ' => Some('ㅒ'),
        'ᅥ' => Some('ㅓ'),
        'ᅦ' => Some('ㅔ'),
        'ᅧ' => Some('ㅕ'),
        'ᅨ' => Some('ㅖ'),
        'ᅩ' => Some('ㅗ'),
        'ᅪ' => Some('ㅘ'),
        'ᅫ' => Some('ㅙ'),
        'ᅬ' => Some('ㅚ'),
        'ᅭ' => Some('ㅛ'),
        'ᅮ' => Some('ㅜ'),
        'ᅯ' => Some('ㅝ'),
        'ᅰ' => Some('ㅞ'),
        'ᅱ' => Some('ㅟ'),
        'ᅲ' => Some('ㅠ'),
        'ᅳ' => Some('ㅡ'),
        'ᅴ' => Some('ㅢ'),
        'ᅵ' => Some('ㅣ'),
        _ => None,
    }
}

/// Converts a Hangul Jamo to its equivalent Hangul Compatibility Jamo, or
/// returns the character unchanged where there is none.
pub fn hangul_jamo_to_compat_with_fallback(ch: char) -> (r: char)
    ensures
        r == match compat_of(ch) {
            Some(c) => c,
            None => ch,
        },
{
    match hangul_jamo_to_compat(ch) {
        Some(c) => c,
        None => ch,
    }
}

/// The characters that a character becomes when syllables are decomposed:
/// its jamo if it is a syllable, else itself.
pub open spec fn expand_spec(c: char) -> Seq<char> {
    match decompose_spec(c) {
        Some(d) => jamo_seq(d),
        None => seq![c],
    }
}

/// A text with every syllable replaced by its jamo.
pub open spec fn decompose_all_spec(s: Seq<char>) -> Seq<char>
    decreases s.len(),
{
    if s.len() == 0 {
        Seq::empty()
    } else {
        decompose_all_spec(s.drop_last()) + expand_spec(s.last())
    }
}

/// The number of characters of a text that are in the Syllables block.
pub open spec fn syllable_count(s: Seq<char>) -> nat
    decreases s.len(),
{
    if s.len() == 0 {
        0
    } else {
        syllable_count(s.drop_last()) + if class_of(s.last()) == HangulCharClass::Syllables {
            1nat
        } else {
            0nat
        }
    }
}

/// The jamo of a syllable, as a string.
fn hangul_syllable_to_jamos(ch: char) -> (r: Option<String>)
    ensures
        r is None <==> decompose_spec(ch) is None,
        r matches Some(s) ==> s@ == expand_spec(ch),
{
    match decompose_hangul_syllable_to_jamos(ch) {
        Some((initial_ch, medial_ch, maybe_final_ch)) => {
            let mut s = String::new();
            push_char(&mut s, initial_ch);
            push_char(&mut s, medial_ch);
            if let Some(final_ch) = maybe_final_ch {
                push_char(&mut s, final_ch);
            }
            assert(s@ =~= expand_spec(ch));
            Some(s)
        },
        None => None,
    }
}

/// Replaces every Hangul syllable in the given text by its jamo; every
/// other character is kept as it is.
pub fn decompose_all_hangul_syllables(value: &str) -> (r: String)
    ensures
        r@ == decompose_all_spec(value@),
{
    let mut result = String::new();
    for ch in it: value.chars()
        invariant
            it.seq() == value@,
            result@ == decompose_all_spec(value@.take(it.index() as int)),
    {
        let ghost i = it.index() as int;
        match hangul_syllable_to_jamos(ch) {
            Some(jamos) => result.append(jamos.as_str()),
            None => push_char(&mut result, ch),
        }
        assert(value@.take(i + 1).drop_last() =~= value@.take(i));
    }
    assert(value@.take(value@.len() as int) =~= value@);
    result
}

/// Decomposition keeps every character that is not a syllable, and gives
/// each syllable at least two jamo.
pub proof fn lemma_decompose_all_length(s: Seq<char>)
    ensures
        decompose_all_spec(s).len() >= s.len() + syllable_count(s),
        (forall|i: int| 0 <= i < s.len() ==> class_of(#[trigger] s[i]) != HangulCharClass::Syllables)
            ==> decompose_all_spec(s) == s,
    decreases s.len(),
{
    if s.len() > 0 {
        lemma_decompose_all_length(s.drop_last());
        if forall|i: int| 0 <= i < s.len() ==> class_of(#[trigger] s[i]) != HangulCharClass::Syllables {
            assert(class_of(s[s.len() - 1]) != HangulCharClass::Syllables);
            assert forall|i: int| 0 <= i < s.drop_last().len() implies class_of(
                #[trigger] s.drop_last()[i],
            ) != HangulCharClass::Syllables by {
                assert(s.drop_last()[i] == s[i]);
            }
            assert(s.drop_last().push(s.last()) =~= s);
        }
    }
}

/// Decomposition works character by character: decomposing two texts one
/// after the other gives the decomposition of the whole.
pub proof fn lemma_decompose_all_concat(a: Seq<char>, b: Seq<char>)
    ensures
        decompose_all_spec(a + b) == decompose_all_spec(a) + decompose_all_spec(b),
    decreases b.len(),
{
    if b.len() == 0 {
        assert(a + b =~= a);
        assert(decompose_all_spec(a) + decompose_all_spec(b) =~= decompose_all_spec(a));
    } else {
        lemma_decompose_all_concat(a, b.drop_last());
        assert((a + b).drop_last() =~= a + b.drop_last());
        assert((a + b).last() == b.last());
        assert(decompose_all_spec(a) + decompose_all_spec(b.drop_last()) + expand_spec(b.last())
            =~= decompose_all_spec(a) + (decompose_all_spec(b.drop_last()) + expand_spec(b.last())));
    }
}

/// How many jamo, from the start of a text, make up one syllable: 3 for an
/// initial consonant, a vowel and a final consonant; 2 for an initial
/// consonant and a vowel not followed by a final consonant; else 0.
pub open spec fn syllable_width(s: Seq<char>) -> int {
    if s.len() >= 2 && is_initial(s[0]) && is_vowel(s[1]) {
        if s.len() >= 3 && is_final(s[2]) {
            3
        } else {
            2
        }
    } else {
        0
    }
}

/// A text of jamo with each run of initial consonant, vowel and optional
/// final consonant composed into its syllable; every other character is
/// kept as it is.
pub open spec fn compose_all_spec(s: Seq<char>) -> Seq<char>
    decreases s.len(),
{
    if s.len() == 0 {
        Seq::empty()
    } else {
        let w = syllable_width(s);
        if w > 0 && compose_spec(s.take(w)) is Some {
            seq![compose_spec(s.take(w))->0] + compose_all_spec(s.skip(w))
        } else {
            seq![s[0]] + compose_all_spec(s.skip(1))
        }
    }
}

/// Composes the jamo in the given text into Hangul syllables: an initial
/// consonant and a vowel, with the final consonant that follows them if
/// there is one, become one syllable. Other characters are kept as they are.
pub fn compose_all_hangul_jamos(value: &str) -> (r: String)
    ensures
        r@ == compose_all_spec(value@),
{
    let cs = chars_of(value);
    let mut out: Vec<char> = Vec::new();
    let mut i: usize = 0;
    assert(cs@.skip(0) =~= cs@);
    assert(out@ + compose_all_spec(cs@) =~= compose_all_spec(cs@));
    while i < cs.len()
        invariant
            cs@ == value@,
            i <= cs@.len(),
            out@ + compose_all_spec(cs@.skip(i as int)) == compose_all_spec(cs@),
        decreases cs@.len() - i,
    {
        let ghost rest = cs@.skip(i as int);
        let mut width: usize = 0;
        if i + 1 < cs.len() && ModernJamo::is_initial_consonant(cs[i]) {
            if let Some(ModernJamo::Vowel(_)) = ModernJamo::try_from_char(cs[i + 1]) {
                width = 2;
                if i + 2 < cs.len() {
                    if let Some(ModernJamo::FinalConsonant(_)) = ModernJamo::try_from_char(cs[i + 2]) {
                        width = 3;
                    }
                }
            }
        }
        assert(width == syllable_width(rest));
        let composed = if width > 0 {
            let part = vstd::slice::slice_subrange(cs.as_slice(), i, i + width);
            assert(part@ =~= rest.take(width as int));
            compose_hangul_jamos_to_syllable(part)
        } else {
            None
        };
        match composed {
            Some(c) => {
                out.push(c);
                assert(rest.skip(width as int) =~= cs@.skip((i + width) as int));
                i = i + width;
            },
            None => {
                out.push(cs[i]);
                assert(rest.skip(1) =~= cs@.skip(i + 1));
                i = i + 1;
            },
        }
    }
    assert(cs@.skip(i as int) =~= Seq::<char>::empty());
    assert(out@ + Seq::<char>::empty() =~= out@);
    string_of(out.as_slice())
}

/// The texts of a list of runs, joined in order.
pub open spec fn joined_runs(runs: Seq<(HangulCharClass, String)>) -> Seq<char>
    decreases runs.len(),
{
    if runs.len() == 0 {
        Seq::empty()
    } else {
        joined_runs(runs.drop_last()) + runs.last().1@
    }
}

/// Whether `runs` are the maximal runs of one class that make up `text`:
/// joined they give the text, each is non-empty and holds characters of its
/// class only, and two neighbours differ in class.
pub open spec fn is_split_of(runs: Seq<(HangulCharClass, String)>, text: Seq<char>) -> bool {
    &&& joined_runs(runs) == text
    &&& forall|k: int|
        0 <= k < runs.len() ==> {
            &&& (#[trigger] runs[k]).1@.len() > 0
            &&& forall|j: int| 0 <= j < runs[k].1@.len() ==> class_of(#[trigger] runs[k].1@[j]) == runs[k].0
        }
    &&& forall|k: int| 0 < k < runs.len() ==> (#[trigger] runs[k]).0 != runs[k - 1].0
}

impl HangulCharClass {
    /// Splits the given text into its maximal runs of characters of one
    /// class, in order.
    pub fn split(value: &str) -> (r: Vec<(HangulCharClass, String)>)
        ensures
            is_split_of(r@, value@),
    {
        let mut result: Vec<(HangulCharClass, String)> = Vec::new();
        let mut run: Vec<char> = Vec::new();
        let mut run_class = HangulCharClass::Other;
        for ch in it: value.chars()
            invariant
                it.seq() == value@,
                joined_runs(result@) + run@ == value@.take(it.index() as int),
                run@.len() == 0 <==> it.index() == 0,
                forall|j: int| 0 <= j < run@.len() ==> class_of(#[trigger] run@[j]) == run_class,
                result@.len() > 0 ==> result@.last().0 != run_class,
                forall|k: int|
                    0 <= k < result@.len() ==> {
                        &&& (#[trigger] result@[k]).1@.len() > 0
                        &&& forall|j: int|
                            0 <= j < result@[k].1@.len() ==> class_of(#[trigger] result@[k].1@[j])
                                == result@[k].0
                    },
                forall|k: int| 0 < k < result@.len() ==> (#[trigger] result@[k]).0 != result@[k - 1].0,
        {
            let ghost i = it.index() as int;
            let class = HangulCharClass::of_char(ch);
            if run.len() > 0 && class != run_class {
                let ghost old_result = result@;
                let text = string_of(run.as_slice());
                result.push((run_class, text));
                assert(result@.drop_last() =~= old_result);
                run = Vec::new();
                run_class = class;
            } else if run.len() == 0 {
                run_class = class;
            }
            let ghost old_run = run@;
            run.push(ch);
            assert(value@.take(i + 1) =~= value@.take(i).push(ch));
            assert(joined_runs(result@) + run@ =~= joined_runs(result@) + old_run + seq![ch]);
        }
        if run.len() > 0 {
            let ghost old_result = result@;
            let text = string_of(run.as_slice());
            result.push((run_class, text));
            assert(result@.drop_last() =~= old_result);
        }
        assert(value@.take(value@.len() as int) =~= value@);
        result
    }
}

} // verus!
