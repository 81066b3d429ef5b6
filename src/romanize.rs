//! Romanization of jamo, in context.

use vstd::prelude::*;

use crate::jamo_stream::{JamoInStream, JamoStream, SILENT_INITIAL};
use crate::text::push_char;

verus! {

/// What a jamo whose romanization is not known is written as.
pub const ROMANIZATION_UNKNOWN: &'static str = "?";

/// The romanization of a final consonant with no vowel after it.
pub open spec fn final_no_vowel_spec(c: char) -> Option<Seq<char>> {
    match c {
        'ᆨ' => Some("k"@),
        'ᆩ' => Some("k"@),
        'ᆫ' => Some("n"@),
        'ᆮ' => Some("t"@),
        'ᆯ' => Some("l"@),
        'ᆷ' => Some("m"@),
        'ᆸ' => Some("p"@),
        'ᆺ' => Some("t"@),
        'ᆻ' => Some("t"@),
        'ᆼ' => Some("ng"@),
        'ᆽ' => Some("t"@),
        'ᆾ' => Some("t"@),
        'ᆿ' => Some("k"@),
        'ᇀ' => Some("t"@),
        'ᇁ' => Some("p"@),
        'ᇂ' => Some("t"@),
        'ᆪ' | 'ᆬ' | 'ᆭ' | 'ᆰ' | 'ᆱ' | 'ᆲ' | 'ᆳ' | 'ᆴ' | 'ᆵ' | 'ᆶ' | 'ᆹ' => Some(ROMANIZATION_UNKNOWN@),
        _ => None,
    }
}

/// The romanization of a final consonant, when there is no vowel following
/// it.
fn get_final_with_no_next_vowel(ch: char) -> (r: Option<&'static str>)
    ensures
        r matches Some(x) ==> final_no_vowel_spec(ch) == Some(x@),
        r is None ==> final_no_vowel_spec(ch) is None,
{
    match ch {
        'ᆨ' => Some("k"),
        'ᆩ' => Some("k"),
        'ᆫ' => Some("n"),
        'ᆮ' => Some("t"),
        'ᆯ' => Some("l"),
        'ᆷ' => Some("m"),
        'ᆸ' => Some("p"),
        'ᆺ' => Some("t"),
        'ᆻ' => Some("t"),
        'ᆼ' => Some("ng"),
        'ᆽ' => Some("t"),
        'ᆾ' => Some("t"),
        'ᆿ' => Some("k"),
        'ᇀ' => Some("t"),
        'ᇁ' => Some("p"),
        'ᇂ' => Some("t"),
        'ᆪ' | 'ᆬ' | 'ᆭ' | 'ᆰ' | 'ᆱ' | 'ᆲ' | 'ᆳ' | 'ᆴ' | 'ᆵ' | 'ᆶ' | 'ᆹ' => Some(ROMANIZATION_UNKNOWN),
        _ => None,
    }
}

/// The romanization of a final consonant that a vowel follows.
pub open spec fn final_before_vowel_spec(c: char) -> Option<Seq<char>> {
    match c {
        'ᆨ' => Some("g"@),
        'ᆩ' => Some("kk"@),
        'ᆫ' => Some("n"@),
        'ᆮ' => Some("d"@),
        'ᆯ' => Some("l"@),
        'ᆷ' => Some("m"@),
        'ᆸ' => Some("b"@),
        'ᆺ' => Some("s"@),
        'ᆻ' => Some("ss"@),
        'ᆼ' => Some("ng"@),
        'ᆽ' => Some("j"@),
        'ᆾ' => Some("ch"@),
        'ᆿ' => Some("k"@),
        'ᇀ' => Some("t"@),
        'ᇁ' => Some("p"@),
        'ᇂ' => Some("h"@),
        'ᆪ' | 'ᆬ' | 'ᆭ' | 'ᆰ' | 'ᆱ' | 'ᆲ' | 'ᆳ' | 'ᆴ' | 'ᆵ' | 'ᆶ' | 'ᆹ' => Some(ROMANIZATION_UNKNOWN@),
        _ => None,
    }
}

/// The romanization of a final consonant, when there is a vowel following
/// it.
fn get_final_with_next_vowel(ch: char) -> (r: Option<&'static str>)
    ensures
        r matches Some(x) ==> final_before_vowel_spec(ch) == Some(x@),
        r is None ==> final_before_vowel_spec(ch) is None,
{
    match ch {
        'ᆨ' => Some("g"),
        'ᆩ' => Some("kk"),
        'ᆫ' => Some("n"),
        'ᆮ' => Some("d"),
        'ᆯ' => Some("l"),
        'ᆷ' => Some("m"),
        'ᆸ' => Some("b"),
        'ᆺ' => Some("s"),
        'ᆻ' => Some("ss"),
        'ᆼ' => Some("ng"),
        'ᆽ' => Some("j"),
        'ᆾ' => Some("ch"),
        'ᆿ' => Some("k"),
        'ᇀ' => Some("t"),
        'ᇁ' => Some("p"),
        'ᇂ' => Some("h"),
        'ᆪ' | 'ᆬ' | 'ᆭ' | 'ᆰ' | 'ᆱ' | 'ᆲ' | 'ᆳ' | 'ᆴ' | 'ᆵ' | 'ᆶ' | 'ᆹ' => Some(ROMANIZATION_UNKNOWN),
        _ => None,
    }
}

/// The romanization of an initial consonant or a vowel; the silent initial
/// consonant is written as nothing.
pub open spec fn initial_or_vowel_spec(c: char) -> Option<Seq<char>> {
    match c {
        'ᄀ' => Some("g"@),
        'ᄁ' => Some("kk"@),
        'ᄂ' => Some("n"@),
        'ᄃ' => Some("d"@),
        'ᄄ' => Some("tt"@),
        'ᄅ' => Some("r"@),
        'ᄆ' => Some("m"@),
        'ᄇ' => Some("b"@),
        'ᄈ' => Some("pp"@),
        'ᄉ' => Some("s"@),
        'ᄊ' => Some("ss"@),
        'ᄋ' => Some(""@),
        'ᄌ' => Some("j"@),
        'ᄍ' => Some("jj"@),
        'ᄎ' => Some("ch"@),
        'ᄏ' => Some("k"@),
        'ᄐ' => Some("t"@),
        'ᄑ' => Some("p"@),
        'ᄒ' => Some("h"@),
        'ᅡ' => Some("a"@),
        'ᅢ' => Some("ae"@),
        'ᅣ' => Some("ya"@),
        'ᅤ' => Some("yae"@),
        'ᅥ' => Some("eo"@),
        'ᅦ' => Some("e"@),
        'ᅧ' => Some("yeo"@),
        'ᅨ' => Some("ye"@),
        'ᅩ' => Some("o"@),
        'ᅪ' => Some("wa"@),
        'ᅫ' => Some("wae"@),
        'ᅬ' => Some("oe"@),
        'ᅭ' => Some("yo"@),
        'ᅮ' => Some("u"@),
        'ᅯ' => Some("wo"@),
        'ᅰ' => Some("we"@),
        'ᅱ' => Some("wi"@),
        'ᅲ' => Some("yu"@),
        'ᅳ' => Some("eu"@),
        'ᅴ' => Some("ui"@),
        'ᅵ' => Some("i"@),
        _ => None,
    }
}

/// The romanization of a jamo, given the character after it. A final
/// consonant followed by the silent initial consonant is written as it sounds
/// at the start of the next syllable.
pub open spec fn romanized_spec(curr: char, next: Option<char>) -> Option<Seq<char>> {
    match initial_or_vowel_spec(curr) {
        Some(r) => Some(r),
        None => if next == Some(SILENT_INITIAL) {
            final_before_vowel_spec(curr)
        } else {
            final_no_vowel_spec(curr)
        },
    }
}

/// The romanization of the jamo at this stream position, or `None` for a
/// character that has none.
///
/// Compound final consonants are written as `ROMANIZATION_UNKNOWN`: the
/// pronunciation rules turn them into simple jamo first.
pub fn get_romanized_jamo(jamo: &JamoInStream) -> (r: Option<&'static str>)
    ensures
        r matches Some(x) ==> romanized_spec(jamo.curr, jamo.next) == Some(x@),
        r is None ==> romanized_spec(jamo.curr, jamo.next) is None,
{
    match jamo.curr {
        'ᄀ' => Some("g"),
        'ᄁ' => Some("kk"),
        'ᄂ' => Some("n"),
        'ᄃ' => Some("d"),
        'ᄄ' => Some("tt"),
        'ᄅ' => Some("r"),
        'ᄆ' => Some("m"),
        'ᄇ' => Some("b"),
        'ᄈ' => Some("pp"),
        'ᄉ' => Some("s"),
        'ᄊ' => Some("ss"),
        'ᄋ' => Some(""),
        'ᄌ' => Some("j"),
        'ᄍ' => Some("jj"),
        'ᄎ' => Some("ch"),
        'ᄏ' => Some("k"),
        'ᄐ' => Some("t"),
        'ᄑ' => Some("p"),
        'ᄒ' => Some("h"),
        'ᅡ' => Some("a"),
        'ᅢ' => Some("ae"),
        'ᅣ' => Some("ya"),
        'ᅤ' => Some("yae"),
        'ᅥ' => Some("eo"),
        'ᅦ' => Some("e"),
        'ᅧ' => Some("yeo"),
        'ᅨ' => Some("ye"),
        'ᅩ' => Some("o"),
        'ᅪ' => Some("wa"),
        'ᅫ' => Some("wae"),
        'ᅬ' => Some("oe"),
        'ᅭ' => Some("yo"),
        'ᅮ' => Some("u"),
        'ᅯ' => Some("wo"),
        'ᅰ' => Some("we"),
        'ᅱ' => Some("wi"),
        'ᅲ' => Some("yu"),
        'ᅳ' => Some("eu"),
        'ᅴ' => Some("ui"),
        'ᅵ' => Some("i"),
        _ => {
            if jamo.is_final_consonant_followed_by_vowel() {
                get_final_with_next_vowel(jamo.curr)
            } else {
                get_final_with_no_next_vowel(jamo.curr)
            }
        },
    }
}

/// The character after position `i` of a text, if any.
pub open spec fn next_of(s: Seq<char>, i: int) -> Option<char> {
    if i + 1 < s.len() {
        Some(s[i + 1])
    } else {
        None
    }
}

/// The romanization of the first `n` characters of a jamo text; a
/// character with no romanization stands for itself.
pub open spec fn romanize_upto(s: Seq<char>, n: int) -> Seq<char>
    decreases n,
{
    if n <= 0 {
        Seq::empty()
    } else {
        romanize_upto(s, n - 1) + match romanized_spec(s[n - 1], next_of(s, n - 1)) {
            Some(r) => r,
            None => seq![s[n - 1]],
        }
    }
}

/// The romanization of a jamo text.
pub open spec fn romanize_spec(s: Seq<char>) -> Seq<char> {
    romanize_upto(s, s.len() as int)
}

/// Romanizes the given text of Hangul jamo (not syllables: decompose them
/// first). Characters with no romanization are kept as they are.
pub fn romanize_decomposed_hangul(value: &str) -> (r: String)
    ensures
        r@ == romanize_spec(value@),
{
    let mut result = String::new();
    let mut stream = JamoStream::from_jamos(value);
    loop
        invariant
            stream.wf(),
            stream.jamos_spec() == value@,
            0 <= stream.position() <= value@.len(),
            result@ == romanize_upto(value@, stream.position()),
        ensures
            result@ == romanize_spec(value@),
        decreases value@.len() - stream.position(),
    {
        let jamo = match stream.next() {
            Some(jamo) => jamo,
            None => break,
        };
        match get_romanized_jamo(&jamo) {
            Some(romanized) => result.append(romanized),
            None => push_char(&mut result, jamo.curr),
        }
    }
    result
}

} // verus!
