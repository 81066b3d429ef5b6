//! Modern jamo, and a cursor over a sequence of jamo that shows each one in
//! its context.

use vstd::prelude::*;

use crate::hangul::{compose_hangul_jamos_to_syllable, compose_spec, decompose_all_hangul_syllables, decompose_all_spec};
use crate::text::chars_of;

verus! {

/// A character of the Hangul Jamo block in one of the three modern ranges:
/// initial consonants, vowels and final consonants. Archaic jamo are left out.
#[derive(Debug, Clone, Copy, PartialEq, Eq, Structural)]
pub enum ModernJamo {
    InitialConsonant(char),
    Vowel(char),
    FinalConsonant(char),
}

/// The modern jamo that a character is, if any.
pub open spec fn modern_jamo(c: char) -> Option<ModernJamo> {
    let u = c as u32;
    if 0x1100 <= u <= 0x1112 {
        Some(ModernJamo::InitialConsonant(c))
    } else if 0x1161 <= u <= 0x1175 {
        Some(ModernJamo::Vowel(c))
    } else if 0x11a8 <= u <= 0x11c2 {
        Some(ModernJamo::FinalConsonant(c))
    } else {
        None
    }
}

/// Whether a character is a modern initial consonant.
pub open spec fn is_initial(c: char) -> bool {
    modern_jamo(c) matches Some(ModernJamo::InitialConsonant(_))
}

/// Whether a character is a modern vowel.
pub open spec fn is_vowel(c: char) -> bool {
    modern_jamo(c) matches Some(ModernJamo::Vowel(_))
}

/// Whether a character is a modern final consonant.
pub open spec fn is_final(c: char) -> bool {
    modern_jamo(c) matches Some(ModernJamo::FinalConsonant(_))
}

impl ModernJamo {
    /// The character that the jamo is.
    pub open spec fn char_spec(self) -> char {
        match self {
            ModernJamo::InitialConsonant(ch) => ch,
            ModernJamo::Vowel(ch) => ch,
            ModernJamo::FinalConsonant(ch) => ch,
        }
    }

    /// The character that the jamo is.
    pub fn to_char(self) -> (r: char)
        ensures
            r == self.char_spec(),
    {
        match self {
            ModernJamo::InitialConsonant(ch) => ch,
            ModernJamo::Vowel(ch) => ch,
            ModernJamo::FinalConsonant(ch) => ch,
        }
    }

    /// The modern jamo that `char` is, or `None` where it is none.
    pub fn try_from_char(char: char) -> (r: Option<ModernJamo>)
        ensures
            r == modern_jamo(char),
    {
        let u = char as u32;
        if 0x1100 <= u && u <= 0x1112 {
            Some(ModernJamo::InitialConsonant(char))
        } else if 0x1161 <= u && u <= 0x1175 {
            Some(ModernJamo::Vowel(char))
        } else if 0x11a8 <= u && u <= 0x11c2 {
            Some(ModernJamo::FinalConsonant(char))
        } else {
            None
        }
    }

    /// Whether `char` is a modern initial consonant.
    pub fn is_initial_consonant(char: char) -> (r: bool)
        ensures
            r == is_initial(char),
    {
        match Self::try_from_char(char) {
            Some(ModernJamo::InitialConsonant(_)) => true,
            _ => false,
        }
    }
}

/// One position of a jamo stream, with its neighbours.
#[derive(Debug, PartialEq)]
pub struct JamoInStream {
    /// The jamo at this position.
    pub curr: char,
    /// The jamo just before, if any.
    pub prev: Option<char>,
    /// The jamo just after, if any.
    pub next: Option<char>,
    /// The syllable that starts after the current one, composed.
    pub next_syllable: Option<char>,
}

/// The silent initial consonant, which stands where a syllable starts with
/// its vowel.
pub const SILENT_INITIAL: char = '\u{110b}';

impl JamoInStream {
    /// Whether the next jamo is the silent initial consonant: a final
    /// consonant at this position is then followed by a vowel.
    pub fn is_final_consonant_followed_by_vowel(&self) -> (r: bool)
        ensures
            r == (self.next == Some(SILENT_INITIAL)),
    {
        match self.next {
            Some(c) => c == SILENT_INITIAL,
            None => false,
        }
    }
}

/// The positions of the initial consonants of a text, in increasing order:
/// where its syllables start.
pub open spec fn initial_positions(s: Seq<char>) -> Seq<int>
    decreases s.len(),
{
    if s.len() == 0 {
        Seq::empty()
    } else if is_initial(s.last()) {
        initial_positions(s.drop_last()).push(s.len() - 1)
    } else {
        initial_positions(s.drop_last())
    }
}

/// The positions of the initial consonants lie in the text, hold initial
/// consonants and increase strictly.
pub proof fn lemma_initial_positions(s: Seq<char>)
    ensures
        initial_positions(s).len() <= s.len(),
        forall|k: int|
            0 <= k < initial_positions(s).len() ==> k <= #[trigger] initial_positions(s)[k] < s.len()
                && is_initial(s[initial_positions(s)[k]]),
        forall|k: int, l: int|
            0 <= k < l < initial_positions(s).len() ==> #[trigger] initial_positions(s)[k]
                < #[trigger] initial_positions(s)[l],
    decreases s.len(),
{
    if s.len() > 0 {
        lemma_initial_positions(s.drop_last());
        let p = initial_positions(s.drop_last());
        assert forall|k: int| 0 <= k < p.len() implies is_initial(s[p[k]]) by {
            assert(s.drop_last()[p[k]] == s[p[k]]);
        }
    }
}

/// The syllable made of the jamo from the `k`-th syllable start up to the
/// next start, or up to the end of the text.
pub open spec fn syllable_at_spec(jamos: Seq<char>, k: int) -> Option<char> {
    let starts = initial_positions(jamos);
    if 0 <= k < starts.len() {
        let end = if k + 1 < starts.len() {
            starts[k + 1]
        } else {
            jamos.len() as int
        };
        compose_spec(jamos.subrange(starts[k], end))
    } else {
        None
    }
}

/// A forward cursor over a sequence of jamo. Each step gives the jamo at the
/// cursor with its neighbours and the syllable that follows the current one.
pub struct JamoStream {
    jamos: Vec<char>,
    syllable_indices: Vec<usize>,
    index: usize,
    syllable_index: usize,
}

impl JamoStream {
    /// The jamo that the stream walks.
    pub closed spec fn jamos_spec(&self) -> Seq<char> {
        self.jamos@
    }

    /// The position of the cursor.
    pub closed spec fn position(&self) -> int {
        self.index as int
    }

    /// The index of the syllable that the cursor is in.
    pub closed spec fn syllable_position(&self) -> int {
        self.syllable_index as int
    }

    /// The stream's internal invariant.
    pub closed spec fn wf(&self) -> bool {
        &&& self.syllable_indices@.map_values(|p: usize| p as int) == initial_positions(self.jamos@)
        &&& self.syllable_index <= self.index <= self.jamos@.len()
    }

    /// A stream over the jamo of the given text, with its syllables
    /// decomposed.
    pub fn from_hangul_syllables(value: &str) -> (r: Self)
        ensures
            r.wf(),
            r.jamos_spec() == decompose_all_spec(value@),
            r.position() == 0,
            r.syllable_position() == 0,
    {
        let jamos = decompose_all_hangul_syllables(value);
        Self::from_jamos(jamos.as_str())
    }

    /// A stream over the characters of the given text.
    pub fn from_jamos(value: &str) -> (r: Self)
        ensures
            r.wf(),
            r.jamos_spec() == value@,
            r.position() == 0,
            r.syllable_position() == 0,
    {
        let jamos = chars_of(value);
        let mut syllable_indices: Vec<usize> = Vec::new();
        let mut index: usize = 0;
        while index < jamos.len()
            invariant
                index <= jamos@.len(),
                syllable_indices@.map_values(|p: usize| p as int) == initial_positions(
                    jamos@.take(index as int),
                ),
            decreases jamos@.len() - index,
        {
            assert(jamos@.take(index + 1).drop_last() =~= jamos@.take(index as int));
            if ModernJamo::is_initial_consonant(jamos[index]) {
                syllable_indices.push(index);
            }
            assert(syllable_indices@.map_values(|p: usize| p as int) =~= initial_positions(
                jamos@.take(index + 1),
            ));
            index = index + 1;
        }
        assert(jamos@.take(jamos@.len() as int) =~= jamos@);
        Self { jamos, syllable_indices, index: 0, syllable_index: 0 }
    }

    /// Moves the cursor to the start of the `index`-th syllable, if there is
    /// one; otherwise leaves the stream as it is.
    pub fn seek_to_syllable(&mut self, index: usize)
        requires
            old(self).wf(),
        ensures
            final(self).wf(),
            final(self).jamos_spec() == old(self).jamos_spec(),
            index < initial_positions(old(self).jamos_spec()).len() ==> {
                &&& final(self).position() == initial_positions(old(self).jamos_spec())[index as int]
                &&& final(self).syllable_position() == index
            },
            index >= initial_positions(old(self).jamos_spec()).len() ==> *final(self) == *old(self),
    {
        proof {
            lemma_initial_positions(self.jamos@);
        }
        if index < self.syllable_indices.len() {
            assert(self.syllable_indices@.map_values(|p: usize| p as int)[index as int]
                == self.syllable_indices@[index as int] as int);
            self.index = self.syllable_indices[index];
            self.syllable_index = index;
        }
    }

    /// The `index`-th syllable of the stream, composed.
    fn get_syllable_at(&self, index: usize) -> (r: Option<char>)
        requires
            self.wf(),
        ensures
            r == syllable_at_spec(self.jamos@, index as int),
    {
        proof {
            lemma_initial_positions(self.jamos@);
        }
        let ghost starts = initial_positions(self.jamos@);
        if index >= self.syllable_indices.len() {
            return None;
        }
        let start = self.syllable_indices[index];
        assert(start as int == starts[index as int]);
        let end = if index + 1 < self.syllable_indices.len() {
            assert(self.syllable_indices@[index + 1] as int == starts[index + 1]);
            self.syllable_indices[index + 1]
        } else {
            self.jamos.len()
        };
        let slice = vstd::slice::slice_subrange(self.jamos.as_slice(), start, end);
        compose_hangul_jamos_to_syllable(slice)
    }

    /// The jamo at the cursor in its context; the cursor then moves one
    /// step on. Once past the end, returns `None` and leaves the stream as it
    /// is.
    pub fn next(&mut self) -> (r: Option<JamoInStream>)
        requires
            old(self).wf(),
        ensures
            final(self).wf(),
            final(self).jamos_spec() == old(self).jamos_spec(),
            ({
                let s = old(self).jamos_spec();
                let i = old(self).position();
                let k = old(self).syllable_position();
                if i >= s.len() {
                    r is None && *final(self) == *old(self)
                } else {
                    &&& r == Some(
                        JamoInStream {
                            curr: s[i],
                            prev: if i == 0 {
                                None
                            } else {
                                Some(s[i - 1])
                            },
                            next: if i + 1 < s.len() {
                                Some(s[i + 1])
                            } else {
                                None
                            },
                            next_syllable: if i + 1 < s.len() {
                                syllable_at_spec(s, k + 1)
                            } else {
                                None
                            },
                        },
                    )
                    &&& final(self).position() == i + 1
                    &&& final(self).syllable_position() == if i + 1 < s.len() && !is_initial(
                        s[i + 1],
                    ) {
                        k
                    } else {
                        k + 1
                    }
                }
            }),
    {
        if self.index >= self.jamos.len() {
            return None;
        }
        let curr = self.jamos[self.index];
        let prev = if self.index == 0 {
            None
        } else {
            Some(self.jamos[self.index - 1])
        };
        let (next, next_syllable) = if self.index + 1 < self.jamos.len() {
            let next = self.jamos[self.index + 1];
            let next_syllable = self.get_syllable_at(self.syllable_index + 1);
            if ModernJamo::is_initial_consonant(next) {
                self.syllable_index = self.syllable_index + 1;
            }
            (Some(next), next_syllable)
        } else {
            self.syllable_index = self.syllable_index + 1;
            (None, None)
        };
        self.index = self.index + 1;
        Some(JamoInStream { curr, prev, next, next_syllable })
    }
}

} // verus!
