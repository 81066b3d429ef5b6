//! The decisions of the lyrics player: which lines are shown, which line,
//! word and syllable are selected, and which line is being sung.

use vstd::prelude::*;

use crate::hangul::{class_of, HangulCharClass};
use crate::lrc::{is_white_space, joined_words, timed_lines, timed_texts, Lyrics, SimpleLyrics, SyncedLyrics};
use crate::text::{chars_of, string_of};

verus! {

/// The number of key-binding lines in the player's help.
pub const NUM_HELP_LINES: usize = 6;

/// The height of the help when its lines are laid out in two columns.
pub fn help_lines_two_column_height() -> (r: usize)
    ensures
        r == (NUM_HELP_LINES + 1) / 2,
{
    (NUM_HELP_LINES + 1) / 2
}

/// A text without its leading white space.
pub open spec fn trim_start_spec(s: Seq<char>) -> Seq<char>
    decreases s.len(),
{
    if s.len() > 0 && is_white_space(s[0]) {
        trim_start_spec(s.skip(1))
    } else {
        s
    }
}

/// A text without its trailing white space.
pub open spec fn trim_end_spec(s: Seq<char>) -> Seq<char>
    decreases s.len(),
{
    if s.len() > 0 && is_white_space(s.last()) {
        trim_end_spec(s.drop_last())
    } else {
        s
    }
}

/// A text without white space at either end.
pub open spec fn trim_spec(s: Seq<char>) -> Seq<char> {
    trim_end_spec(trim_start_spec(s))
}

proof fn lemma_trim_start(s: Seq<char>, i: int)
    requires
        0 <= i <= s.len(),
        forall|j: int| 0 <= j < i ==> is_white_space(#[trigger] s[j]),
    ensures
        trim_start_spec(s) == trim_start_spec(s.skip(i)),
    decreases i,
{
    if i > 0 {
        lemma_trim_start(s, i - 1);
        assert(s.skip(i - 1).skip(1) =~= s.skip(i));
        assert(s.skip(i - 1)[0] == s[i - 1]);
    } else {
        assert(s.skip(0) =~= s);
    }
}

proof fn lemma_trim_end(s: Seq<char>, e: int)
    requires
        0 <= e <= s.len(),
        forall|j: int| e <= j < s.len() ==> is_white_space(#[trigger] s[j]),
    ensures
        trim_end_spec(s) == trim_end_spec(s.take(e)),
    decreases s.len() - e,
{
    if e < s.len() {
        lemma_trim_end(s, e + 1);
        assert(s.take(e + 1).drop_last() =~= s.take(e));
        assert(s.take(e + 1).last() == s[e]);
    } else {
        assert(s.take(e) =~= s);
    }
}

/// The given text without white space at either end.
fn trim(s: &str) -> (r: String)
    ensures
        r@ == trim_spec(s@),
{
    let cs = chars_of(s);
    let mut start: usize = 0;
    while start < cs.len() && crate::lrc::is_white_space_char(cs[start])
        invariant
            start <= cs@.len(),
            forall|j: int| 0 <= j < start ==> is_white_space(#[trigger] cs@[j]),
        decreases cs@.len() - start,
    {
        start = start + 1;
    }
    proof {
        lemma_trim_start(cs@, start as int);
    }
    let ghost rest = cs@.skip(start as int);
    let mut end = cs.len();
    while end > start && crate::lrc::is_white_space_char(cs[end - 1])
        invariant
            start <= end <= cs@.len(),
            forall|j: int| end <= j < cs@.len() ==> is_white_space(#[trigger] cs@[j]),
        decreases end,
    {
        end = end - 1;
    }
    proof {
        if start < cs@.len() {
            assert(!is_white_space(rest[0]));
            assert(trim_start_spec(rest) == rest);
        } else {
            assert(rest.len() == 0);
        }
        assert forall|j: int| end - start <= j < rest.len() implies is_white_space(#[trigger] rest[j]) by {
            assert(rest[j] == cs@[j + start]);
        }
        lemma_trim_end(rest, end - start);
        if end > start {
            assert(rest.take(end - start).last() == cs@[end - 1]);
        }
        assert(rest.take(end - start) =~= cs@.subrange(start as int, end as int));
    }
    string_of(vstd::slice::slice_subrange(cs.as_slice(), start, end))
}

/// The timed lines of lyrics, with the words of synced lyrics joined.
pub open spec fn lyric_lines(lyrics: Lyrics) -> Seq<(u64, Seq<char>)> {
    match lyrics {
        Lyrics::SimpleLyrics(SimpleLyrics(v)) => timed_texts(v@),
        Lyrics::SyncedLyrics(SyncedLyrics(v)) => timed_lines(v@).map_values(
            |e: (u64, Seq<(u64, Seq<char>)>)| (e.0, joined_words(e.1)),
        ),
    }
}

/// Timed lines with their text trimmed, and those left empty dropped.
pub open spec fn shown_lines(lines: Seq<(u64, Seq<char>)>) -> Seq<(u64, Seq<char>)>
    decreases lines.len(),
{
    if lines.len() == 0 {
        Seq::empty()
    } else {
        let (t, text) = lines.last();
        if trim_spec(text).len() == 0 {
            shown_lines(lines.drop_last())
        } else {
            shown_lines(lines.drop_last()).push((t, trim_spec(text)))
        }
    }
}

/// The lines that the player shows, each with the time in milliseconds at
/// which it is sung: trimmed, and without the lines that hold nothing.
pub fn lyrics_to_vec(lyrics: Lyrics) -> (r: Vec<(u64, String)>)
    ensures
        timed_texts(r@) == shown_lines(lyric_lines(lyrics)),
{
    let ghost lines = lyric_lines(lyrics);
    let simple_vec = match lyrics {
        Lyrics::SimpleLyrics(simple_lyrics) => simple_lyrics.0,
        Lyrics::SyncedLyrics(synced_lyrics) => {
            let simple = synced_lyrics.to_simple();
            assert(timed_texts(simple.0@) =~= lines);
            simple.0
        },
    };
    assert(timed_texts(simple_vec@) == lines);
    let mut result: Vec<(u64, String)> = Vec::new();
    let mut i: usize = 0;
    while i < simple_vec.len()
        invariant
            i <= simple_vec@.len(),
            timed_texts(simple_vec@) == lines,
            timed_texts(result@) == shown_lines(lines.take(i as int)),
        decreases simple_vec@.len() - i,
    {
        let trimmed_line = trim(simple_vec[i].1.as_str());
        assert(lines.take(i + 1).drop_last() =~= lines.take(i as int));
        assert(lines.take(i + 1).last() == lines[i as int]);
        if trimmed_line.as_str().is_empty() {
        } else {
            let ghost before = result@;
            result.push((simple_vec[i].0, trimmed_line));
            assert(timed_texts(result@) =~= timed_texts(before).push(
                (lines[i as int].0, trim_spec(lines[i as int].1)),
            ));
        }
        i = i + 1;
    }
    assert(lines.take(simple_vec@.len() as int) =~= lines);
    result
}

/// The words of a line, taken as its maximal runs of Hangul syllables, in
/// order.
pub open spec fn syllable_words(s: Seq<char>) -> Seq<Seq<char>>
    decreases s.len(),
{
    if s.len() == 0 {
        Seq::empty()
    } else {
        let w = syllable_words(s.drop_last());
        if class_of(s.last()) != HangulCharClass::Syllables {
            w
        } else if s.len() >= 2 && class_of(s[s.len() - 2]) == HangulCharClass::Syllables {
            w.drop_last().push(w.last().push(s.last()))
        } else {
            w.push(seq![s.last()])
        }
    }
}

/// Every word of a line holds at least one syllable, and a line that ends
/// in a syllable has a word.
proof fn lemma_syllable_words(s: Seq<char>)
    ensures
        forall|k: int|
            0 <= k < syllable_words(s).len() ==> (#[trigger] syllable_words(s)[k]).len() > 0,
        s.len() > 0 && class_of(s.last()) == HangulCharClass::Syllables ==> syllable_words(s).len()
            > 0,
    decreases s.len(),
{
    if s.len() > 0 {
        lemma_syllable_words(s.drop_last());
        let w = syllable_words(s.drop_last());
        if class_of(s.last()) == HangulCharClass::Syllables && s.len() >= 2 && class_of(
            s[s.len() - 2],
        ) == HangulCharClass::Syllables {
            assert(s.drop_last().last() == s[s.len() - 2]);
            assert forall|k: int| 0 <= k < syllable_words(s).len() implies (
            #[trigger] syllable_words(s)[k]).len() > 0 by {
                if k < w.len() - 1 {
                    assert(syllable_words(s)[k] == w[k]);
                }
            }
        }
    }
}

/// The words of a line: its maximal runs of Hangul syllables.
fn syllable_words_of(line: &str) -> (r: Vec<Vec<char>>)
    ensures
        crate::lrc::line_views(r@) == syllable_words(line@),
{
    let cs = chars_of(line);
    let mut words: Vec<Vec<char>> = Vec::new();
    let mut cur: Vec<char> = Vec::new();
    let mut i: usize = 0;
    while i < cs.len()
        invariant
            i <= cs@.len(),
            cur@.len() > 0 <==> (i > 0 && class_of(cs@[i - 1]) == HangulCharClass::Syllables),
            (if cur@.len() > 0 {
                crate::lrc::line_views(words@).push(cur@)
            } else {
                crate::lrc::line_views(words@)
            }) == syllable_words(cs@.take(i as int)),
        decreases cs@.len() - i,
    {
        let c = cs[i];
        let ghost prefix = cs@.take(i + 1);
        assert(prefix.drop_last() =~= cs@.take(i as int));
        assert(prefix.last() == c);
        if HangulCharClass::of_char(c) == HangulCharClass::Syllables {
            if i > 0 {
                assert(prefix[prefix.len() - 2] == cs@[i - 1]);
            }
            let ghost before = cur@;
            cur.push(c);
            proof {
                if before.len() > 0 {
                    let w = crate::lrc::line_views(words@).push(before);
                    assert(w.drop_last().push(w.last().push(c)) =~= crate::lrc::line_views(
                        words@,
                    ).push(cur@));
                } else {
                    assert(cur@ =~= seq![c]);
                }
            }
        } else if cur.len() > 0 {
            let ghost before = crate::lrc::line_views(words@);
            let done = cur;
            cur = Vec::new();
            words.push(done);
            assert(crate::lrc::line_views(words@) =~= before.push(done@));
        }
        i = i + 1;
    }
    assert(cs@.take(cs@.len() as int) =~= cs@);
    if cur.len() > 0 {
        let ghost before = crate::lrc::line_views(words@);
        words.push(cur);
        assert(crate::lrc::line_views(words@) =~= before.push(cur@));
    }
    words
}

/// The number of syllables in each word of the given line.
pub fn get_curr_line_word_lengths(line: &str) -> (r: Vec<usize>)
    ensures
        r@.len() == syllable_words(line@).len(),
        forall|k: int|
            0 <= k < r@.len() ==> r@[k] == syllable_words(line@)[k].len() && #[trigger] r@[k] > 0,
{
    let words = syllable_words_of(line);
    proof {
        lemma_syllable_words(line@);
    }
    let mut lengths: Vec<usize> = Vec::new();
    let mut k: usize = 0;
    while k < words.len()
        invariant
            k <= words@.len(),
            crate::lrc::line_views(words@) == syllable_words(line@),
            forall|j: int| 0 <= j < syllable_words(line@).len() ==> (#[trigger] syllable_words(
                line@,
            )[j]).len() > 0,
            lengths@.len() == k,
            forall|j: int|
                0 <= j < k ==> lengths@[j] == syllable_words(line@)[j].len() && #[trigger] lengths@[j]
                    > 0,
        decreases words@.len() - k,
    {
        assert(crate::lrc::line_views(words@)[k as int] == words@[k as int]@);
        lengths.push(words[k].len());
        k = k + 1;
    }
    lengths
}

/// Which part of the lyrics the player shows and has selected.
pub struct LyricsCursor {
    /// How many lines fit on the screen.
    pub lyrics_lines_to_show: usize,
    /// The first line on the screen.
    pub first_lyrics_line: usize,
    /// The selected line.
    pub curr_lyrics_line: usize,
    /// The selected word of the line: its runs of syllables are counted.
    pub curr_word: usize,
    /// The selected syllable of the word.
    pub curr_syllable: usize,
}

impl LyricsCursor {
    /// A cursor on the first line, its first word and syllable.
    pub fn new(lyrics_lines_to_show: usize) -> (r: LyricsCursor)
        ensures
            r.lyrics_lines_to_show == lyrics_lines_to_show,
            r.first_lyrics_line == 0,
            r.curr_lyrics_line == 0,
            r.curr_word == 0,
            r.curr_syllable == 0,
    {
        LyricsCursor {
            lyrics_lines_to_show,
            first_lyrics_line: 0,
            curr_lyrics_line: 0,
            curr_word: 0,
            curr_syllable: 0,
        }
    }

    /// Selects the next of `num_lines` lines, if there is one, and scrolls
    /// so that it is on the screen.
    pub fn go_to_next_line(&mut self, num_lines: usize)
        ensures
            final(self).lyrics_lines_to_show == old(self).lyrics_lines_to_show,
            old(self).curr_lyrics_line + 1 < num_lines ==> {
                &&& final(self).curr_lyrics_line == old(self).curr_lyrics_line + 1
                &&& final(self).curr_word == 0
                &&& final(self).curr_syllable == 0
                &&& final(self).first_lyrics_line == if old(self).first_lyrics_line
                    + old(self).lyrics_lines_to_show <= old(self).curr_lyrics_line + 1 {
                    old(self).first_lyrics_line + 1
                } else {
                    old(self).first_lyrics_line as int
                }
            },
            old(self).curr_lyrics_line + 1 >= num_lines ==> {
                &&& final(self).curr_lyrics_line == old(self).curr_lyrics_line
                &&& final(self).curr_word == old(self).curr_word
                &&& final(self).curr_syllable == old(self).curr_syllable
                &&& final(self).first_lyrics_line == old(self).first_lyrics_line
            },
    {
        if self.curr_lyrics_line < num_lines && self.curr_lyrics_line + 1 < num_lines {
            self.curr_lyrics_line = self.curr_lyrics_line + 1;
            self.curr_word = 0;
            self.curr_syllable = 0;
            if self.lyrics_lines_to_show <= self.curr_lyrics_line && self.first_lyrics_line
                <= self.curr_lyrics_line - self.lyrics_lines_to_show {
                self.first_lyrics_line = self.first_lyrics_line + 1;
            }
        }
    }

    /// Selects the previous line, if there is one, and scrolls so that it
    /// is on the screen.
    pub fn go_to_prev_line(&mut self)
        ensures
            final(self).lyrics_lines_to_show == old(self).lyrics_lines_to_show,
            old(self).curr_lyrics_line > 0 ==> {
                &&& final(self).curr_lyrics_line == old(self).curr_lyrics_line - 1
                &&& final(self).curr_word == 0
                &&& final(self).curr_syllable == 0
                &&& final(self).first_lyrics_line == if old(self).first_lyrics_line
                    > old(self).curr_lyrics_line - 1 {
                    old(self).curr_lyrics_line - 1
                } else {
                    old(self).first_lyrics_line as int
                }
            },
            old(self).curr_lyrics_line == 0 ==> {
                &&& final(self).curr_lyrics_line == old(self).curr_lyrics_line
                &&& final(self).curr_word == old(self).curr_word
                &&& final(self).curr_syllable == old(self).curr_syllable
                &&& final(self).first_lyrics_line == old(self).first_lyrics_line
            },
    {
        if self.curr_lyrics_line > 0 {
            self.curr_lyrics_line = self.curr_lyrics_line - 1;
            self.curr_word = 0;
            self.curr_syllable = 0;
            if self.first_lyrics_line > self.curr_lyrics_line {
                self.first_lyrics_line = self.curr_lyrics_line;
            }
        }
    }

    /// Selects the next syllable of the given line: the next one in the
    /// word, else the first of the next word. Stays where there is none.
    pub fn select_next_syllable(&mut self, line: &str)
        ensures
            final(self).lyrics_lines_to_show == old(self).lyrics_lines_to_show,
            final(self).first_lyrics_line == old(self).first_lyrics_line,
            final(self).curr_lyrics_line == old(self).curr_lyrics_line,
            ({
                let words = syllable_words(line@);
                let w = old(self).curr_word as int;
                let y = old(self).curr_syllable as int;
                if w < words.len() && y + 1 < words[w].len() {
                    final(self).curr_word == w && final(self).curr_syllable == y + 1
                } else if w < words.len() && w + 1 < words.len() {
                    final(self).curr_word == w + 1 && final(self).curr_syllable == 0
                } else {
                    final(self).curr_word == w && final(self).curr_syllable == y
                }
            }),
    {
        let word_lengths = get_curr_line_word_lengths(line);
        if self.curr_word < word_lengths.len() {
            let num_syllables = word_lengths[self.curr_word];
            if self.curr_syllable < num_syllables - 1 {
                self.curr_syllable = self.curr_syllable + 1;
            } else if self.curr_word < word_lengths.len() - 1 {
                self.curr_word = self.curr_word + 1;
                self.curr_syllable = 0;
            }
        }
    }

    /// Selects the previous syllable of the given line: the one before in
    /// the word, else the last of the word before. Stays where there is
    /// none.
    pub fn select_prev_syllable(&mut self, line: &str)
        ensures
            final(self).lyrics_lines_to_show == old(self).lyrics_lines_to_show,
            final(self).first_lyrics_line == old(self).first_lyrics_line,
            final(self).curr_lyrics_line == old(self).curr_lyrics_line,
            ({
                let words = syllable_words(line@);
                let w = old(self).curr_word as int;
                let y = old(self).curr_syllable as int;
                if w < words.len() && y > 0 {
                    final(self).curr_word == w && final(self).curr_syllable == y - 1
                } else if w < words.len() && w > 0 {
                    final(self).curr_word == w - 1 && final(self).curr_syllable == words[w - 1].len()
                        - 1
                } else {
                    final(self).curr_word == w && final(self).curr_syllable == y
                }
            }),
    {
        let word_lengths = get_curr_line_word_lengths(line);
        if self.curr_word < word_lengths.len() {
            if self.curr_syllable > 0 {
                self.curr_syllable = self.curr_syllable - 1;
            } else if self.curr_word > 0 {
                self.curr_word = self.curr_word - 1;
                self.curr_syllable = word_lengths[self.curr_word] - 1;
            }
        }
    }

    /// The selected word of the given line and the selected syllable in
    /// it, or `None` where the selection lies outside the line.
    pub fn get_selection(&self, line: &str) -> (r: Option<(String, char)>)
        ensures
            ({
                let words = syllable_words(line@);
                let w = self.curr_word as int;
                let y = self.curr_syllable as int;
                if w < words.len() && y < words[w].len() {
                    r matches Some((word, syllable)) && word@ == words[w] && syllable == words[w][y]
                } else {
                    r is None
                }
            }),
    {
        let words = syllable_words_of(line);
        if self.curr_word < words.len() {
            let word = &words[self.curr_word];
            assert(crate::lrc::line_views(words@)[self.curr_word as int] == word@);
            if self.curr_syllable < word.len() {
                return Some((string_of(word.as_slice()), word[self.curr_syllable]));
            }
        }
        None
    }
}

/// The line being sung at position `pos` of the playback, given the times
/// at which the lines start: the last line that has started, provided a
/// line after it has not. Gives `None` before the first line starts and once
/// the last one has.
pub fn get_playback_line_idx(times: &[u64], pos: u64) -> (r: Option<usize>)
    ensures
        r matches Some(k) ==> k + 1 < times@.len() && times@[k + 1] > pos && forall|j: int|
            0 <= j <= k ==> #[trigger] times@[j] <= pos,
        r is None ==> (forall|j: int| 0 <= j < times@.len() ==> #[trigger] times@[j] <= pos) || (
        times@.len() > 0 && times@[0] > pos),
{
    let mut latest_idx: Option<usize> = None;
    let mut idx: usize = 0;
    while idx < times.len()
        invariant
            idx <= times@.len(),
            forall|j: int| 0 <= j < idx ==> #[trigger] times@[j] <= pos,
            latest_idx == if idx == 0 {
                None
            } else {
                Some((idx - 1) as usize)
            },
        decreases times@.len() - idx,
    {
        if times[idx] <= pos {
            latest_idx = Some(idx);
        } else {
            return latest_idx;
        }
        idx = idx + 1;
    }
    None
}

} // verus!
