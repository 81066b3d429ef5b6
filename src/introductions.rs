//! Text helpers for a spoken introduction drill: comparing answers by their
//! Hangul alone, and choosing the polite copula that follows a noun.

use vstd::prelude::*;

use crate::hangul::{
    class_of, compose_all_hangul_jamos, compose_all_spec, decompose_all_hangul_syllables,
    decompose_all_spec, decompose_hangul_syllable_to_jamos, decompose_spec, is_split_of,
    joined_runs, HangulCharClass,
};

verus! {

/// Why the ending of a word could not be read.
#[derive(Debug, Clone, Copy, PartialEq, Eq, Structural)]
pub enum EndingError {
    /// The word is empty.
    Empty,
    /// The word's last character is not a Hangul syllable.
    NotSyllable,
}

/// The characters of a text that lie in one of the Hangul blocks.
pub open spec fn hangul_only(s: Seq<char>) -> Seq<char>
    decreases s.len(),
{
    if s.len() == 0 {
        Seq::empty()
    } else if class_of(s.last()) != HangulCharClass::Other {
        hangul_only(s.drop_last()).push(s.last())
    } else {
        hangul_only(s.drop_last())
    }
}

proof fn lemma_hangul_only_concat(a: Seq<char>, b: Seq<char>)
    ensures
        hangul_only(a + b) == hangul_only(a) + hangul_only(b),
    decreases b.len(),
{
    if b.len() == 0 {
        assert(a + b =~= a);
        assert(hangul_only(a) + hangul_only(b) =~= hangul_only(a));
    } else {
        lemma_hangul_only_concat(a, b.drop_last());
        assert((a + b).drop_last() =~= a + b.drop_last());
        assert((a + b).last() == b.last());
        if class_of(b.last()) != HangulCharClass::Other {
            assert(hangul_only(a) + hangul_only(b.drop_last()).push(b.last()) =~= (hangul_only(a)
                + hangul_only(b.drop_last())).push(b.last()));
        }
    }
}

proof fn lemma_hangul_only_uniform(s: Seq<char>, class: HangulCharClass)
    requires
        forall|j: int| 0 <= j < s.len() ==> class_of(#[trigger] s[j]) == class,
    ensures
        hangul_only(s) == if class == HangulCharClass::Other {
            Seq::<char>::empty()
        } else {
            s
        },
    decreases s.len(),
{
    if s.len() > 0 {
        assert(class_of(s[s.len() - 1]) == class);
        assert forall|j: int| 0 <= j < s.drop_last().len() implies class_of(
            #[trigger] s.drop_last()[j],
        ) == class by {
            assert(s.drop_last()[j] == s[j]);
        }
        lemma_hangul_only_uniform(s.drop_last(), class);
        assert(s.drop_last().push(s.last()) =~= s);
    }
}

/// The Hangul of a text, with syllables written in their composed form:
/// every character outside the Hangul blocks is dropped.
pub fn get_hangul(value: &str) -> (r: String)
    ensures
        r@ == hangul_only(compose_all_spec(decompose_all_spec(value@))),
{
    let decomposed = decompose_all_hangul_syllables(value);
    let normalized = compose_all_hangul_jamos(decomposed.as_str());
    let runs = HangulCharClass::split(normalized.as_str());
    let ghost text = normalized@;
    let mut result = String::new();
    let mut k: usize = 0;
    while k < runs.len()
        invariant
            k <= runs@.len(),
            is_split_of(runs@, text),
            result@ == hangul_only(joined_runs(runs@.take(k as int))),
        decreases runs@.len() - k,
    {
        let (class, run) = (runs[k].0, &runs[k].1);
        proof {
            assert(runs@.take(k + 1).drop_last() =~= runs@.take(k as int));
            assert(runs@.take(k + 1).last() == runs@[k as int]);
            lemma_hangul_only_concat(joined_runs(runs@.take(k as int)), run@);
            lemma_hangul_only_uniform(run@, class);
        }
        if class != HangulCharClass::Other {
            result.append(run.as_str());
        }
        k = k + 1;
    }
    assert(runs@.take(runs@.len() as int) =~= runs@);
    result
}

/// Whether a word ends in a vowel: its last character is a Hangul syllable
/// with no final consonant.
pub open spec fn ends_in_vowel_spec(s: Seq<char>) -> Result<bool, EndingError> {
    if s.len() == 0 {
        Err(EndingError::Empty)
    } else {
        match decompose_spec(s.last()) {
            None => Err(EndingError::NotSyllable),
            Some(d) => Ok(d.2 is None),
        }
    }
}

/// Whether the given word ends in a vowel, that is its last syllable has no
/// final consonant.
pub fn ends_in_vowel(value: &str) -> (r: Result<bool, EndingError>)
    ensures
        r == ends_in_vowel_spec(value@),
{
    let chars = crate::text::chars_of(value);
    if chars.len() == 0 {
        return Err(EndingError::Empty);
    }
    let last_char = chars[chars.len() - 1];
    match decompose_hangul_syllable_to_jamos(last_char) {
        None => Err(EndingError::NotSyllable),
        Some((_initial, _vowel, final_consonant)) => Ok(final_consonant.is_none()),
    }
}

/// The polite copula that follows the given word: "예요" after a vowel,
/// "이에요" after a final consonant.
pub fn get_copula(value: &str) -> (r: Result<&'static str, EndingError>)
    ensures
        ends_in_vowel_spec(value@) matches Err(e) ==> r == Err::<&'static str, EndingError>(e),
        ends_in_vowel_spec(value@) matches Ok(v) ==> (r matches Ok(c) && c@ == if v {
            "예요"@
        } else {
            "이에요"@
        }),
{
    if ends_in_vowel(value)? {
        Ok("예요")
    } else {
        Ok("이에요")
    }
}

} // verus!
