//! Lyrics in the LRC format: lines of text tagged with the time at which
//! they are sung, optionally with a time for each word.

use vstd::prelude::*;

verus! {

/// Lyrics with one time per line: each entry holds the time in milliseconds
/// at which its line is sung, and the line.
#[derive(Debug, Clone, PartialEq)]
pub struct SimpleLyrics(pub Vec<(u64, String)>);

/// Lyrics with a time for each word: each entry holds the time in
/// milliseconds at which its line is sung, and the line's words or phrases,
/// each with the time at which it is sung.
#[derive(Debug, Clone, PartialEq)]
pub struct SyncedLyrics(pub Vec<(u64, Vec<(u64, String)>)>);

/// Lyrics in either form.
#[derive(Debug, Clone, PartialEq)]
pub enum Lyrics {
    SimpleLyrics(SimpleLyrics),
    SyncedLyrics(SyncedLyrics),
}

/// Timed texts, with each text seen as its characters.
pub open spec fn timed_texts(v: Seq<(u64, String)>) -> Seq<(u64, Seq<char>)> {
    v.map_values(|e: (u64, String)| (e.0, e.1@))
}

/// Timed lines of timed words, with each text seen as its characters.
pub open spec fn timed_lines(v: Seq<(u64, Vec<(u64, String)>)>) -> Seq<(u64, Seq<(u64, Seq<char>)>)> {
    v.map_values(|e: (u64, Vec<(u64, String)>)| (e.0, timed_texts(e.1@)))
}

/// The texts of timed words, joined in order.
pub open spec fn joined_words(ws: Seq<(u64, Seq<char>)>) -> Seq<char>
    decreases ws.len(),
{
    if ws.len() == 0 {
        Seq::empty()
    } else {
        joined_words(ws.drop_last()) + ws.last().1
    }
}

impl SyncedLyrics {
    /// The same lyrics with one time per line: each line keeps its time, and
    /// its words are joined.
    pub fn to_simple(&self) -> (r: SimpleLyrics)
        ensures
            r.0@.len() == self.0@.len(),
            forall|i: int|
                0 <= i < self.0@.len() ==> (#[trigger] timed_texts(r.0@)[i]) == (
                    self.0@[i].0,
                    joined_words(timed_texts(self.0@[i].1@)),
                ),
    {
        let mut simple_entries: Vec<(u64, String)> = Vec::new();
        let mut i: usize = 0;
        while i < self.0.len()
            invariant
                i <= self.0@.len(),
                simple_entries@.len() == i,
                forall|k: int|
                    0 <= k < i ==> (#[trigger] timed_texts(simple_entries@)[k]) == (
                        self.0@[k].0,
                        joined_words(timed_texts(self.0@[k].1@)),
                    ),
            decreases self.0@.len() - i,
        {
            let words = &self.0[i].1;
            let mut joined_text = String::new();
            let mut j: usize = 0;
            while j < words.len()
                invariant
                    j <= words@.len(),
                    joined_text@ == joined_words(timed_texts(words@).take(j as int)),
                decreases words@.len() - j,
            {
                joined_text.append(words[j].1.as_str());
                assert(timed_texts(words@).take(j + 1).drop_last() =~= timed_texts(words@).take(
                    j as int,
                ));
                j = j + 1;
            }
            assert(timed_texts(words@).take(words@.len() as int) =~= timed_texts(words@));
            let ghost before = simple_entries@;
            simple_entries.push((self.0[i].0, joined_text));
            assert forall|k: int| 0 <= k < i + 1 implies (#[trigger] timed_texts(simple_entries@)[k])
                == (self.0@[k].0, joined_words(timed_texts(self.0@[k].1@))) by {
                if k < i {
                    assert(timed_texts(before)[k] == timed_texts(simple_entries@)[k]);
                }
            }
            i = i + 1;
        }
        SimpleLyrics(simple_entries)
    }
}

/// Whether a character is an ASCII decimal digit.
pub open spec fn is_digit(c: char) -> bool {
    '0' <= c <= '9'
}

/// The position of the first character at or after `i` that is not a digit,
/// or the end of the text.
pub open spec fn digits_end(s: Seq<char>, i: int) -> int
    decreases s.len() - i,
{
    if i < 0 || i >= s.len() || !is_digit(s[i]) {
        i
    } else {
        digits_end(s, i + 1)
    }
}

/// The value of a run of decimal digits.
pub open spec fn digits_value(s: Seq<char>) -> nat
    decreases s.len(),
{
    if s.len() == 0 {
        0
    } else {
        digits_value(s.drop_last()) * 10 + ((s.last() as u32) - ('0' as u32)) as nat
    }
}

/// A number written in decimal digits at position `i`, with the position
/// after it; `None` where there is no digit or the value exceeds `u64`.
pub open spec fn number_at(s: Seq<char>, i: int) -> Option<(u64, int)> {
    let e = digits_end(s, i);
    if e == i {
        None
    } else if digits_value(s.subrange(i, e)) <= u64::MAX {
        Some((digits_value(s.subrange(i, e)) as u64, e))
    } else {
        None
    }
}

proof fn lemma_digits_end(s: Seq<char>, i: int)
    requires
        0 <= i <= s.len(),
    ensures
        i <= digits_end(s, i) <= s.len(),
        forall|k: int| i <= k < digits_end(s, i) ==> is_digit(#[trigger] s[k]),
        digits_end(s, i) < s.len() ==> !is_digit(s[digits_end(s, i)]),
    decreases s.len() - i,
{
    if i < s.len() && is_digit(s[i]) {
        lemma_digits_end(s, i + 1);
    }
}

proof fn lemma_digits_value_grows(s: Seq<char>, n: int)
    requires
        0 <= n <= s.len(),
        forall|k: int| 0 <= k < s.len() ==> is_digit(#[trigger] s[k]),
    ensures
        digits_value(s.take(n)) <= digits_value(s),
    decreases s.len() - n,
{
    if n < s.len() {
        lemma_digits_value_grows(s, n + 1);
        assert(s.take(n + 1).drop_last() =~= s.take(n));
    } else {
        assert(s.take(n) =~= s);
    }
}

/// Reads the number written in decimal digits at position `i`.
fn parse_number(s: &[char], i: usize) -> (r: Option<(u64, usize)>)
    requires
        i <= s@.len(),
    ensures
        r matches Some((v, e)) ==> number_at(s@, i as int) == Some((v, e as int)),
        r is None ==> number_at(s@, i as int) is None,
        r matches Some((_, e)) ==> i < e <= s@.len(),
{
    proof {
        lemma_digits_end(s@, i as int);
    }
    let ghost e = digits_end(s@, i as int);
    let mut value: u64 = 0;
    let mut j: usize = i;
    while j < s.len() && '0' <= s[j] && s[j] <= '9'
        invariant
            i <= j <= e <= s@.len(),
            e == digits_end(s@, i as int),
            forall|k: int| i <= k < e ==> is_digit(#[trigger] s@[k]),
            e < s@.len() ==> !is_digit(s@[e]),
            value == digits_value(s@.subrange(i as int, j as int)),
        decreases s@.len() - j,
    {
        let d = (s[j] as u32 - '0' as u32) as u64;
        assert(s@.subrange(i as int, j + 1).drop_last() =~= s@.subrange(i as int, j as int));
        if value > (u64::MAX - d) / 10 {
            proof {
                assert(s@.subrange(i as int, e).take(j + 1 - i) =~= s@.subrange(i as int, j + 1));
                lemma_digits_value_grows(s@.subrange(i as int, e), j + 1 - i);
            }
            return None;
        }
        value = value * 10 + d;
        j = j + 1;
    }
    if j == i {
        return None;
    }
    Some((value, j))
}

/// The number of decimal digits of a value.
pub open spec fn decimal_len(f: nat) -> nat
    decreases f,
{
    if f < 10 {
        1
    } else {
        1 + decimal_len(f / 10)
    }
}

/// Ten to the power `n`.
pub open spec fn pow10(n: nat) -> nat
    decreases n,
{
    if n == 0 {
        1
    } else {
        10 * pow10((n - 1) as nat)
    }
}

/// Milliseconds from the fraction of a second, read by the number of digits
/// of its value: two are hundredths, three thousandths, fewer are padded and
/// more truncated to three.
pub open spec fn fraction_ms(f: nat) -> nat {
    let l = decimal_len(f);
    if l == 2 {
        f * 10
    } else if l == 3 {
        f
    } else if l < 3 {
        f * pow10((3 - l) as nat)
    } else {
        f / pow10((l - 3) as nat)
    }
}

/// A time `minutes:seconds.fraction` at position `i`, in milliseconds, with
/// the position after it; `None` where it is malformed or exceeds `u64`.
pub open spec fn timestamp_at(s: Seq<char>, i: int) -> Option<(u64, int)> {
    match number_at(s, i) {
        None => None,
        Some((m, i1)) => if i1 < s.len() && s[i1] == ':' {
            match number_at(s, i1 + 1) {
                None => None,
                Some((sec, i2)) => if i2 < s.len() && s[i2] == '.' {
                    match number_at(s, i2 + 1) {
                        None => None,
                        Some((f, i3)) => {
                            let total = m * 60000 + sec * 1000 + fraction_ms(f as nat);
                            if total <= u64::MAX {
                                Some((total as u64, i3))
                            } else {
                                None
                            }
                        },
                    }
                } else {
                    None
                },
            }
        } else {
            None
        },
    }
}

proof fn lemma_decimal_len(x: nat)
    ensures
        1 <= decimal_len(x) <= x / 10 + 1,
        decimal_len(x) == 1 ==> x < 10,
        decimal_len(x) == 2 ==> x < 100,
    decreases x,
{
    if x >= 10 {
        lemma_decimal_len(x / 10);
    }
}

/// The number of decimal digits of `f`.
fn decimal_digits(f: u64) -> (r: u64)
    ensures
        r == decimal_len(f as nat),
{
    proof {
        lemma_decimal_len(f as nat);
    }
    let mut n: u64 = 1;
    let mut rest = f;
    while rest >= 10
        invariant
            decimal_len(f as nat) + 1 == n + decimal_len(rest as nat),
            decimal_len(f as nat) <= f / 10 + 1,
            n >= 1,
        decreases rest,
    {
        proof {
            lemma_decimal_len(rest as nat);
            lemma_decimal_len((rest / 10) as nat);
        }
        rest = rest / 10;
        n = n + 1;
    }
    n
}

/// Milliseconds from the digits of a second's fraction.
fn fraction_to_ms(f: u64) -> (r: u64)
    ensures
        r == fraction_ms(f as nat),
{
    proof {
        lemma_decimal_len(f as nat);
        reveal_with_fuel(pow10, 3);
    }
    let l = decimal_digits(f);
    if l == 2 {
        f * 10
    } else if l == 3 {
        f
    } else if l < 3 {
        f * 100
    } else {
        let mut k: u64 = 0;
        let mut v = f;
        assert(pow10(0) == 1);
        assert(f as nat / 1 == f);
        while k < l - 3
            invariant
                k <= l - 3,
                v == f as nat / pow10(k as nat),
            decreases l - 3 - k,
        {
            proof {
                lemma_pow10_positive(k as nat);
                vstd::arithmetic::div_mod::lemma_div_denominator(f as int, pow10(k as nat) as int, 10);
                assert(pow10((k + 1) as nat) == pow10(k as nat) * 10);
            }
            v = v / 10;
            k = k + 1;
        }
        v
    }
}

proof fn lemma_pow10_positive(n: nat)
    ensures
        pow10(n) >= 1,
    decreases n,
{
    if n > 0 {
        lemma_pow10_positive((n - 1) as nat);
    }
}

/// Reads a time `minutes:seconds.fraction` at position `i`, in
/// milliseconds.
fn parse_timestamp(s: &[char], i: usize) -> (r: Option<(u64, usize)>)
    requires
        i <= s@.len(),
    ensures
        r matches Some((v, e)) ==> timestamp_at(s@, i as int) == Some((v, e as int)),
        r is None ==> timestamp_at(s@, i as int) is None,
        r matches Some((_, e)) ==> i < e <= s@.len(),
{
    let (minutes, i1) = match parse_number(s, i) {
        Some(p) => p,
        None => return None,
    };
    if i1 >= s.len() || s[i1] != ':' {
        return None;
    }
    let (seconds, i2) = match parse_number(s, i1 + 1) {
        Some(p) => p,
        None => return None,
    };
    if i2 >= s.len() || s[i2] != '.' {
        return None;
    }
    let (fraction, i3) = match parse_number(s, i2 + 1) {
        Some(p) => p,
        None => return None,
    };
    let milliseconds = fraction_to_ms(fraction);
    if minutes > (u64::MAX - milliseconds) / 60000 {
        return None;
    }
    let rest = u64::MAX - milliseconds - minutes * 60000;
    if seconds > rest / 1000 {
        return None;
    }
    Some((minutes * 60000 + seconds * 1000 + milliseconds, i3))
}

/// A time tag `[minutes:seconds.fraction]` at position `i`, with the
/// position after it.
pub open spec fn tag_at(s: Seq<char>, i: int) -> Option<(u64, int)> {
    if 0 <= i < s.len() && s[i] == '[' {
        match timestamp_at(s, i + 1) {
            Some((t, j)) => if j < s.len() && s[j] == ']' {
                Some((t, j + 1))
            } else {
                None
            },
            None => None,
        }
    } else {
        None
    }
}

/// The times of the tags that follow one another from position `i`, and
/// the position after the last of them.
pub open spec fn tags_from(s: Seq<char>, i: int) -> (Seq<u64>, int)
    decreases s.len() - i,
{
    match tag_at(s, i) {
        Some((t, j)) => if i < j <= s.len() {
            let (rest, k) = tags_from(s, j);
            (seq![t] + rest, k)
        } else {
            (seq![t], j)
        },
        None => (Seq::empty(), i),
    }
}

/// Reads a time tag at position `i`.
fn parse_timestamp_tag(s: &[char], i: usize) -> (r: Option<(u64, usize)>)
    requires
        i <= s@.len(),
    ensures
        r matches Some((v, e)) ==> tag_at(s@, i as int) == Some((v, e as int)),
        r is None ==> tag_at(s@, i as int) is None,
        r matches Some((_, e)) ==> i < e <= s@.len(),
{
    if i >= s.len() || s[i] != '[' {
        return None;
    }
    match parse_timestamp(s, i + 1) {
        Some((t, j)) => if j < s.len() && s[j] == ']' {
            Some((t, j + 1))
        } else {
            None
        },
        None => None,
    }
}

/// Reads the time tags that follow one another from position `i`.
fn parse_timestamp_tags(s: &[char], i: usize) -> (r: (Vec<u64>, usize))
    requires
        i <= s@.len(),
    ensures
        (r.0@, r.1 as int) == tags_from(s@, i as int),
        i <= r.1 <= s@.len(),
{
    let mut times: Vec<u64> = Vec::new();
    let mut pos = i;
    loop
        invariant
            i <= pos <= s@.len(),
            times@ + tags_from(s@, pos as int).0 == tags_from(s@, i as int).0,
            tags_from(s@, pos as int).1 == tags_from(s@, i as int).1,
        decreases s@.len() - pos,
    {
        match parse_timestamp_tag(s, pos) {
            Some((t, j)) => {
                let ghost before = times@;
                times.push(t);
                assert(before + tags_from(s@, pos as int).0 =~= times@ + tags_from(s@, j as int).0);
                pos = j;
            },
            None => {
                assert(times@ + Seq::<u64>::empty() =~= times@);
                return (times, pos);
            },
        }
    }
}

/// The position of the first `<` at or after `i`, or the end of the text.
pub open spec fn text_end(s: Seq<char>, i: int) -> int
    decreases s.len() - i,
{
    if i < 0 || i >= s.len() || s[i] == '<' {
        i
    } else {
        text_end(s, i + 1)
    }
}

/// A timed word `<minutes:seconds.fraction>text` at position `i`, whose
/// text runs up to the next `<` or the end; with the position after it.
pub open spec fn word_at(s: Seq<char>, i: int) -> Option<((u64, Seq<char>), int)> {
    if 0 <= i < s.len() && s[i] == '<' {
        match timestamp_at(s, i + 1) {
            Some((t, j)) => if j < s.len() && s[j] == '>' {
                Some(((t, s.subrange(j + 1, text_end(s, j + 1))), text_end(s, j + 1)))
            } else {
                None
            },
            None => None,
        }
    } else {
        None
    }
}

/// The timed words that follow one another from position `i`.
pub open spec fn words_from(s: Seq<char>, i: int) -> Seq<(u64, Seq<char>)>
    decreases s.len() - i,
{
    match word_at(s, i) {
        Some((w, j)) => if i < j <= s.len() {
            seq![w] + words_from(s, j)
        } else {
            seq![w]
        },
        None => Seq::empty(),
    }
}

proof fn lemma_text_end(s: Seq<char>, i: int)
    requires
        0 <= i <= s.len(),
    ensures
        i <= text_end(s, i) <= s.len(),
    decreases s.len() - i,
{
    if i < s.len() && s[i] != '<' {
        lemma_text_end(s, i + 1);
    }
}

/// Reads a timed word at position `i`.
fn parse_synced_word(s: &[char], i: usize) -> (r: Option<((u64, String), usize)>)
    requires
        i <= s@.len(),
    ensures
        r matches Some((w, e)) ==> word_at(s@, i as int) == Some(((w.0, w.1@), e as int)),
        r is None ==> word_at(s@, i as int) is None,
        r matches Some((_, e)) ==> i < e <= s@.len(),
{
    if i >= s.len() || s[i] != '<' {
        return None;
    }
    let (t, j) = match parse_timestamp(s, i + 1) {
        Some(p) => p,
        None => return None,
    };
    if j >= s.len() || s[j] != '>' {
        return None;
    }
    proof {
        lemma_text_end(s@, j + 1);
    }
    let mut end = j + 1;
    while end < s.len() && s[end] != '<'
        invariant
            j + 1 <= end <= s@.len(),
            text_end(s@, end as int) == text_end(s@, j + 1),
        decreases s@.len() - end,
    {
        end = end + 1;
    }
    let text = crate::text::string_of(vstd::slice::slice_subrange(s, j + 1, end));
    Some(((t, text), end))
}

/// Reads the timed words that follow one another from position `i`.
fn parse_synced_words(s: &[char], i: usize) -> (r: Vec<(u64, String)>)
    requires
        i <= s@.len(),
    ensures
        timed_texts(r@) == words_from(s@, i as int),
{
    let mut words: Vec<(u64, String)> = Vec::new();
    let mut pos = i;
    loop
        invariant
            i <= pos <= s@.len(),
            timed_texts(words@) + words_from(s@, pos as int) == words_from(s@, i as int),
        decreases s@.len() - pos,
    {
        match parse_synced_word(s, pos) {
            Some((w, j)) => {
                let ghost before = timed_texts(words@);
                words.push(w);
                assert(timed_texts(words@) =~= before.push((w.0, w.1@)));
                assert(before + words_from(s@, pos as int) =~= timed_texts(words@) + words_from(
                    s@,
                    j as int,
                ));
                pos = j;
            },
            None => {
                assert(timed_texts(words@) + Seq::<(u64, Seq<char>)>::empty() =~= timed_texts(
                    words@,
                ));
                return words;
            },
        }
    }
}

/// The position of the first `\r` or `\n` at or after `i`, or the end.
pub open spec fn break_at(s: Seq<char>, i: int) -> int
    decreases s.len() - i,
{
    if i < 0 || i >= s.len() || s[i] == '\r' || s[i] == '\n' {
        i
    } else {
        break_at(s, i + 1)
    }
}

/// The text of a line up to its line ending, `\n` or `\r\n`; `None` where a
/// `\r` comes that is not followed by `\n`.
pub open spec fn text_before_line_ending(s: Seq<char>) -> Option<Seq<char>> {
    let k = break_at(s, 0);
    if k >= s.len() {
        Some(s)
    } else if s[k] == '\n' || (k + 1 < s.len() && s[k + 1] == '\n') {
        Some(s.take(k))
    } else {
        None
    }
}

proof fn lemma_break_at(s: Seq<char>, i: int)
    requires
        0 <= i <= s.len(),
    ensures
        i <= break_at(s, i) <= s.len(),
    decreases s.len() - i,
{
    if i < s.len() && s[i] != '\r' && s[i] != '\n' {
        lemma_break_at(s, i + 1);
    }
}

/// The entries of a line in the simple format: each of its leading time
/// tags, with the text after them.
pub open spec fn simple_line(line: Seq<char>) -> Option<Seq<(u64, Seq<char>)>> {
    let (times, i) = tags_from(line, 0);
    if times.len() == 0 {
        None
    } else {
        match text_before_line_ending(line.skip(i)) {
            Some(text) => Some(times.map_values(|t: u64| (t, text))),
            None => None,
        }
    }
}

/// The entries of a line in the synced format: each of its leading time
/// tags, with the timed words after them.
pub open spec fn synced_line(line: Seq<char>) -> Option<Seq<(u64, Seq<(u64, Seq<char>)>)>> {
    let (times, i) = tags_from(line, 0);
    let words = words_from(line, i);
    if times.len() == 0 || words.len() == 0 {
        None
    } else {
        Some(times.map_values(|t: u64| (t, words)))
    }
}

/// Reads a line in the simple format.
fn parse_simple_line(line: &[char]) -> (r: Option<Vec<(u64, String)>>)
    ensures
        r matches Some(v) ==> simple_line(line@) == Some(timed_texts(v@)),
        r is None ==> simple_line(line@) is None,
{
    let (times, i) = parse_timestamp_tags(line, 0);
    if times.len() == 0 {
        return None;
    }
    proof {
        lemma_break_at(line@, i as int);
    }
    let ghost rest = line@.skip(i as int);
    let mut k = i;
    while k < line.len() && line[k] != '\r' && line[k] != '\n'
        invariant
            i <= k <= line@.len(),
            break_at(line@, k as int) == break_at(line@, i as int),
            forall|j: int| i <= j < k ==> line@[j] != '\r' && line@[j] != '\n',
        decreases line@.len() - k,
    {
        k = k + 1;
    }
    proof {
        lemma_break_at_shift(line@, i as int);
    }
    if k < line.len() && line[k] == '\r' && !(k + 1 < line.len() && line[k + 1] == '\n') {
        return None;
    }
    let text = crate::text::string_of(vstd::slice::slice_subrange(line, i, k));
    assert(text@ =~= if k >= line@.len() { rest } else { rest.take(k - i) });
    let mut entries: Vec<(u64, String)> = Vec::new();
    let mut n: usize = 0;
    while n < times.len()
        invariant
            n <= times@.len(),
            timed_texts(entries@) == times@.take(n as int).map_values(|t: u64| (t, text@)),
        decreases times@.len() - n,
    {
        let ghost before = entries@;
        let copy = text.clone();
        assert(copy@ == text@);
        entries.push((times[n], copy));
        assert(timed_texts(entries@) =~= timed_texts(before).push((times@[n as int], text@)));
        assert(times@.take(n + 1).map_values(|t: u64| (t, text@)) =~= times@.take(n as int).map_values(
            |t: u64| (t, text@),
        ).push((times@[n as int], text@)));
        n = n + 1;
    }
    assert(times@.take(times@.len() as int) =~= times@);
    Some(entries)
}

/// Where the first line break after `i` falls, counted from `i` in the
/// text that starts there.
proof fn lemma_break_at_shift(s: Seq<char>, i: int)
    requires
        0 <= i <= s.len(),
    ensures
        break_at(s.skip(i), 0) == break_at(s, i) - i,
    decreases s.len() - i,
{
    lemma_break_at_offset(s, i, i);
}

proof fn lemma_break_at_offset(s: Seq<char>, i: int, j: int)
    requires
        0 <= i <= j <= s.len(),
    ensures
        break_at(s.skip(i), j - i) == break_at(s, j) - i,
    decreases s.len() - j,
{
    if j < s.len() && s[j] != '\r' && s[j] != '\n' {
        lemma_break_at_offset(s, i, j + 1);
    }
}

/// Copies of timed texts.
fn copy_timed_texts(v: &Vec<(u64, String)>) -> (r: Vec<(u64, String)>)
    ensures
        timed_texts(r@) == timed_texts(v@),
{
    let mut out: Vec<(u64, String)> = Vec::new();
    let mut n: usize = 0;
    while n < v.len()
        invariant
            n <= v@.len(),
            timed_texts(out@) == timed_texts(v@).take(n as int),
        decreases v@.len() - n,
    {
        let ghost before = out@;
        let copy = v[n].1.clone();
        assert(copy@ == v@[n as int].1@);
        out.push((v[n].0, copy));
        assert(timed_texts(out@) =~= timed_texts(before).push((v@[n as int].0, v@[n as int].1@)));
        assert(timed_texts(v@).take(n + 1) =~= timed_texts(v@).take(n as int).push(
            (v@[n as int].0, v@[n as int].1@),
        ));
        n = n + 1;
    }
    assert(timed_texts(v@).take(v@.len() as int) =~= timed_texts(v@));
    out
}

/// Reads a line in the synced format.
fn parse_synced_line(line: &[char]) -> (r: Option<Vec<(u64, Vec<(u64, String)>)>>)
    ensures
        r matches Some(v) ==> synced_line(line@) == Some(timed_lines(v@)),
        r is None ==> synced_line(line@) is None,
{
    let (times, i) = parse_timestamp_tags(line, 0);
    let words = parse_synced_words(line, i);
    if times.len() == 0 || words.len() == 0 {
        return None;
    }
    let ghost ws = timed_texts(words@);
    let mut entries: Vec<(u64, Vec<(u64, String)>)> = Vec::new();
    let mut n: usize = 0;
    while n < times.len()
        invariant
            n <= times@.len(),
            ws == timed_texts(words@),
            timed_lines(entries@) == times@.take(n as int).map_values(|t: u64| (t, ws)),
        decreases times@.len() - n,
    {
        let ghost before = entries@;
        let copy = copy_timed_texts(&words);
        entries.push((times[n], copy));
        assert(timed_lines(entries@) =~= timed_lines(before).push((times@[n as int], ws)));
        assert(times@.take(n + 1).map_values(|t: u64| (t, ws)) =~= times@.take(n as int).map_values(
            |t: u64| (t, ws),
        ).push((times@[n as int], ws)));
        n = n + 1;
    }
    assert(times@.take(times@.len() as int) =~= times@);
    Some(entries)
}

/// The position of the first `\n` at or after `i`, or the end.
pub open spec fn newline_at(s: Seq<char>, i: int) -> int
    decreases s.len() - i,
{
    if i < 0 || i >= s.len() || s[i] == '\n' {
        i
    } else {
        newline_at(s, i + 1)
    }
}

proof fn lemma_newline_at(s: Seq<char>, i: int)
    requires
        0 <= i <= s.len(),
    ensures
        i <= newline_at(s, i) <= s.len(),
        newline_at(s, i) < s.len() ==> s[newline_at(s, i)] == '\n',
    decreases s.len() - i,
{
    if i < s.len() && s[i] != '\n' {
        lemma_newline_at(s, i + 1);
    }
}

/// The lines of a text from position `i`: split at `\n`, with a `\r` just
/// before the `\n` dropped. A final line ending does not start a line.
pub open spec fn lines_from(s: Seq<char>, i: int) -> Seq<Seq<char>>
    decreases s.len() - i,
{
    if i < 0 || i >= s.len() {
        Seq::empty()
    } else {
        let e = newline_at(s, i);
        if i <= e < s.len() {
            let raw = s.subrange(i, e);
            let line = if raw.len() > 0 && raw.last() == '\r' {
                raw.drop_last()
            } else {
                raw
            };
            seq![line] + lines_from(s, e + 1)
        } else {
            seq![s.subrange(i, s.len() as int)]
        }
    }
}

/// The views of a list of character vectors.
pub open spec fn line_views(v: Seq<Vec<char>>) -> Seq<Seq<char>> {
    v.map_values(|l: Vec<char>| l@)
}

/// Splits a text into its lines.
fn split_lines(s: &[char]) -> (r: Vec<Vec<char>>)
    ensures
        line_views(r@) == lines_from(s@, 0),
{
    let mut lines: Vec<Vec<char>> = Vec::new();
    let mut start: usize = 0;
    while start < s.len()
        invariant
            start <= s@.len(),
            line_views(lines@) + lines_from(s@, start as int) == lines_from(s@, 0),
        decreases s@.len() - start,
    {
        proof {
            lemma_newline_at(s@, start as int);
        }
        let mut end = start;
        while end < s.len() && s[end] != '\n'
            invariant
                start <= end <= s@.len(),
                newline_at(s@, end as int) == newline_at(s@, start as int),
            decreases s@.len() - end,
        {
            end = end + 1;
        }
        let mut line_end = end;
        if end < s.len() && end > start && s[end - 1] == '\r' {
            line_end = end - 1;
        }
        let mut line: Vec<char> = Vec::new();
        let mut k = start;
        while k < line_end
            invariant
                start <= k <= line_end <= s@.len(),
                line@ == s@.subrange(start as int, k as int),
            decreases line_end - k,
        {
            line.push(s[k]);
            assert(line@ =~= s@.subrange(start as int, k + 1));
            k = k + 1;
        }
        let ghost before = line_views(lines@);
        lines.push(line);
        assert(line_views(lines@) =~= before.push(s@.subrange(start as int, line_end as int)));
        if end < s.len() {
            if end > start {
                assert(s@.subrange(start as int, end as int).drop_last() =~= s@.subrange(
                    start as int,
                    end - 1,
                ));
            }
            assert(before + lines_from(s@, start as int) =~= line_views(lines@) + lines_from(
                s@,
                end + 1,
            ));
            start = end + 1;
        } else {
            assert(before + lines_from(s@, start as int) =~= line_views(lines@) + lines_from(
                s@,
                s@.len() as int,
            ));
            start = end;
        }
    }
    assert(line_views(lines@) + Seq::<Seq<char>>::empty() =~= line_views(lines@));
    lines
}

/// Whether a character is Unicode white space.
pub open spec fn is_white_space(c: char) -> bool {
    ('\u{9}' <= c <= '\u{d}') || c == ' ' || c == '\u{85}' || c == '\u{a0}' || c == '\u{1680}'
        || ('\u{2000}' <= c <= '\u{200a}') || c == '\u{2028}' || c == '\u{2029}' || c == '\u{202f}'
        || c == '\u{205f}' || c == '\u{3000}'
}

/// Whether a line holds white space only.
pub open spec fn is_blank(line: Seq<char>) -> bool {
    forall|j: int| 0 <= j < line.len() ==> is_white_space(#[trigger] line[j])
}

/// Whether a line is a metadata tag such as `[ar:Artist]` that holds no
/// time: it starts with `[`, holds a `]` and no `:`.
pub open spec fn is_metadata(line: Seq<char>) -> bool {
    line.len() > 0 && line[0] == '[' && line.contains(']') && !line.contains(':')
}

/// Whether a line holds both `<` and `>`, the marks of timed words.
pub open spec fn has_word_marks(line: Seq<char>) -> bool {
    line.contains('<') && line.contains('>')
}

/// Whether any line holds the marks of timed words.
pub open spec fn is_synced(lines: Seq<Seq<char>>) -> bool {
    exists|i: int| 0 <= i < lines.len() && has_word_marks(#[trigger] lines[i])
}

pub(crate) fn is_white_space_char(c: char) -> (r: bool)
    ensures
        r == is_white_space(c),
{
    ('\u{9}' <= c && c <= '\u{d}') || c == ' ' || c == '\u{85}' || c == '\u{a0}' || c == '\u{1680}'
        || ('\u{2000}' <= c && c <= '\u{200a}') || c == '\u{2028}' || c == '\u{2029}' || c
        == '\u{202f}' || c == '\u{205f}' || c == '\u{3000}'
}

fn blank(line: &[char]) -> (r: bool)
    ensures
        r == is_blank(line@),
{
    let mut i: usize = 0;
    while i < line.len()
        invariant
            i <= line@.len(),
            forall|j: int| 0 <= j < i ==> is_white_space(#[trigger] line@[j]),
        decreases line@.len() - i,
    {
        if !is_white_space_char(line[i]) {
            return false;
        }
        i = i + 1;
    }
    true
}

fn contains_char(line: &[char], c: char) -> (r: bool)
    ensures
        r == line@.contains(c),
{
    let mut i: usize = 0;
    while i < line.len()
        invariant
            i <= line@.len(),
            forall|j: int| 0 <= j < i ==> line@[j] != c,
        decreases line@.len() - i,
    {
        if line[i] == c {
            return true;
        }
        i = i + 1;
    }
    false
}

/// The entries of the lines in the simple format; blank lines, metadata
/// tags and lines that do not read as entries give none.
pub open spec fn simple_entries(lines: Seq<Seq<char>>) -> Seq<(u64, Seq<char>)>
    decreases lines.len(),
{
    if lines.len() == 0 {
        Seq::empty()
    } else {
        let line = lines.last();
        simple_entries(lines.drop_last()) + if is_blank(line) || is_metadata(line) {
            Seq::empty()
        } else {
            match simple_line(line) {
                Some(es) => es,
                None => Seq::empty(),
            }
        }
    }
}

/// The entries of the lines in the synced format; blank lines and lines
/// that do not read as entries give none.
pub open spec fn synced_entries(lines: Seq<Seq<char>>) -> Seq<(u64, Seq<(u64, Seq<char>)>)>
    decreases lines.len(),
{
    if lines.len() == 0 {
        Seq::empty()
    } else {
        let line = lines.last();
        synced_entries(lines.drop_last()) + if is_blank(line) {
            Seq::empty()
        } else {
            match synced_line(line) {
                Some(es) => es,
                None => Seq::empty(),
            }
        }
    }
}

/// Entries with `x` put after the last entry whose time is not later than
/// its own.
pub open spec fn insert_by_time<T>(s: Seq<(u64, T)>, x: (u64, T)) -> Seq<(u64, T)>
    decreases s.len(),
{
    if s.len() == 0 || s.last().0 <= x.0 {
        s.push(x)
    } else {
        insert_by_time(s.drop_last(), x).push(s.last())
    }
}

/// Entries sorted by time; entries with the same time keep their order.
pub open spec fn sort_by_time<T>(s: Seq<(u64, T)>) -> Seq<(u64, T)>
    decreases s.len(),
{
    if s.len() == 0 {
        Seq::empty()
    } else {
        insert_by_time(sort_by_time(s.drop_last()), s.last())
    }
}

proof fn lemma_insert_at<T>(s: Seq<(u64, T)>, x: (u64, T), pos: int)
    requires
        0 <= pos <= s.len(),
        pos == 0 || s[pos - 1].0 <= x.0,
        forall|j: int| pos <= j < s.len() ==> (#[trigger] s[j]).0 > x.0,
    ensures
        insert_by_time(s, x) == s.take(pos).push(x) + s.skip(pos),
    decreases s.len(),
{
    if s.len() == pos {
        assert(s.take(pos) =~= s);
        assert(s.push(x) =~= s.take(pos).push(x) + s.skip(pos));
    } else {
        lemma_insert_at(s.drop_last(), x, pos);
        assert(s.drop_last().take(pos) =~= s.take(pos));
        assert(s.drop_last().skip(pos).push(s.last()) =~= s.skip(pos));
        assert((s.take(pos).push(x) + s.drop_last().skip(pos)).push(s.last()) =~= s.take(pos).push(x)
            + s.skip(pos));
    }
}

/// Whether entries are in order of time.
pub open spec fn is_sorted_by_time<T>(s: Seq<(u64, T)>) -> bool {
    forall|i: int, j: int| 0 <= i < j < s.len() ==> (#[trigger] s[i]).0 <= (#[trigger] s[j]).0
}

proof fn lemma_insert_sorted<T>(s: Seq<(u64, T)>, x: (u64, T))
    requires
        is_sorted_by_time(s),
    ensures
        is_sorted_by_time(insert_by_time(s, x)),
        insert_by_time(s, x).len() == s.len() + 1,
        forall|k: int|
            0 <= k < insert_by_time(s, x).len() ==> (#[trigger] insert_by_time(s, x)[k]).0 <= if s.len()
                == 0 || s.last().0 <= x.0 {
                x.0
            } else {
                s.last().0
            },
    decreases s.len(),
{
    if s.len() == 0 || s.last().0 <= x.0 {
        assert forall|k: int| 0 <= k < s.len() implies (#[trigger] s[k]).0 <= x.0 by {
            if k < s.len() - 1 {
                assert(s[k].0 <= s[s.len() - 1].0);
            }
        }
    } else {
        let d = s.drop_last();
        assert(is_sorted_by_time(d)) by {
            assert forall|i: int, j: int| 0 <= i < j < d.len() implies (#[trigger] d[i]).0 <= (
            #[trigger] d[j]).0 by {
                assert(d[i] == s[i] && d[j] == s[j]);
            }
        }
        lemma_insert_sorted(d, x);
        if d.len() > 0 {
            assert(d.last().0 <= s.last().0) by {
                assert(d.last() == s[s.len() - 2]);
            }
        }
    }
}

/// Entries sorted by time are in order of time, and as many as before.
pub proof fn lemma_sort_by_time_sorted<T>(s: Seq<(u64, T)>)
    ensures
        is_sorted_by_time(sort_by_time(s)),
        sort_by_time(s).len() == s.len(),
    decreases s.len(),
{
    if s.len() > 0 {
        lemma_sort_by_time_sorted(s.drop_last());
        lemma_insert_sorted(sort_by_time(s.drop_last()), s.last());
    }
}

/// Sorts entries by time, keeping the order of entries with the same time.
fn sort_entries_by_time<T>(entries: Vec<(u64, T)>) -> (r: Vec<(u64, T)>)
    ensures
        r@ == sort_by_time(entries@),
{
    let ghost orig = entries@;
    let mut rest = entries;
    let mut sorted: Vec<(u64, T)> = Vec::new();
    let ghost mut k: int = 0;
    assert(orig.skip(0) =~= orig);
    assert(orig.take(0) =~= Seq::<(u64, T)>::empty());
    while rest.len() > 0
        invariant
            0 <= k <= orig.len(),
            rest@ == orig.skip(k),
            sorted@ == sort_by_time(orig.take(k)),
        decreases rest@.len(),
    {
        let x = rest.remove(0);
        let mut pos = sorted.len();
        while pos > 0 && sorted[pos - 1].0 > x.0
            invariant
                pos <= sorted@.len(),
                forall|j: int| pos <= j < sorted@.len() ==> (#[trigger] sorted@[j]).0 > x.0,
            decreases pos,
        {
            pos = pos - 1;
        }
        let ghost before = sorted@;
        sorted.insert(pos, x);
        proof {
            lemma_insert_at(before, x, pos as int);
            assert(sorted@ =~= before.take(pos as int).push(x) + before.skip(pos as int));
            assert(orig.take(k + 1).drop_last() =~= orig.take(k));
            assert(orig.skip(k)[0] == orig[k]);
            assert(orig.skip(k).subrange(1, orig.skip(k).len() as int) =~= orig.skip(k + 1));
            k = k + 1;
        }
    }
    assert(orig.take(k) =~= orig);
    sorted
}

/// Entries with a function applied to what each one holds besides its time.
pub open spec fn map_payload<T, U>(s: Seq<(u64, T)>, f: spec_fn(T) -> U) -> Seq<(u64, U)> {
    s.map_values(|e: (u64, T)| (e.0, f(e.1)))
}

proof fn lemma_insert_map<T, U>(s: Seq<(u64, T)>, x: (u64, T), f: spec_fn(T) -> U)
    ensures
        insert_by_time(map_payload(s, f), (x.0, f(x.1))) == map_payload(insert_by_time(s, x), f),
    decreases s.len(),
{
    if s.len() == 0 || s.last().0 <= x.0 {
        assert(map_payload(s.push(x), f) =~= map_payload(s, f).push((x.0, f(x.1))));
    } else {
        lemma_insert_map(s.drop_last(), x, f);
        assert(map_payload(s, f).drop_last() =~= map_payload(s.drop_last(), f));
        assert(map_payload(insert_by_time(s.drop_last(), x).push(s.last()), f) =~= map_payload(
            insert_by_time(s.drop_last(), x),
            f,
        ).push((s.last().0, f(s.last().1))));
    }
}

/// Sorting by time and changing what the entries hold besides their times
/// can be done in either order.
proof fn lemma_sort_map<T, U>(s: Seq<(u64, T)>, f: spec_fn(T) -> U)
    ensures
        sort_by_time(map_payload(s, f)) == map_payload(sort_by_time(s), f),
    decreases s.len(),
{
    if s.len() == 0 {
        assert(map_payload(s, f) =~= Seq::<(u64, U)>::empty());
        assert(map_payload(Seq::<(u64, T)>::empty(), f) =~= Seq::<(u64, U)>::empty());
    } else {
        lemma_sort_map(s.drop_last(), f);
        assert(map_payload(s, f).drop_last() =~= map_payload(s.drop_last(), f));
        lemma_insert_map(sort_by_time(s.drop_last()), s.last(), f);
    }
}

/// Reads lyrics in the LRC format. Where any line holds both `<` and `>`,
/// the lyrics are read as synced, else as simple. Only lines of lyrics give
/// entries: blank lines, metadata tags and lines that do not read as lyrics
/// are skipped. The entries come sorted by time, and entries with the same
/// time keep their order.
pub fn parse_lrc(lyrics: String) -> (r: Lyrics)
    ensures
        ({
            let lines = lines_from(lyrics@, 0);
            if is_synced(lines) {
                &&& r matches Lyrics::SyncedLyrics(SyncedLyrics(v))
                &&& timed_lines(v@) == sort_by_time(synced_entries(lines))
            } else {
                &&& r matches Lyrics::SimpleLyrics(SimpleLyrics(v))
                &&& timed_texts(v@) == sort_by_time(simple_entries(lines))
            }
        }),
{
    let chars = crate::text::chars_of(lyrics.as_str());
    let lines = split_lines(chars.as_slice());
    let ghost views = line_views(lines@);
    assert(views == lines_from(lyrics@, 0));
    let mut synced = false;
    let mut i: usize = 0;
    while i < lines.len()
        invariant
            i <= lines@.len(),
            views == line_views(lines@),
            synced == exists|j: int| 0 <= j < i && has_word_marks(#[trigger] views[j]),
        decreases lines@.len() - i,
    {
        if contains_char(lines[i].as_slice(), '<') && contains_char(lines[i].as_slice(), '>') {
            assert(has_word_marks(views[i as int]));
            synced = true;
        }
        i = i + 1;
    }
    assert(views.take(lines@.len() as int) =~= views);
    if synced {
        let mut entries: Vec<(u64, Vec<(u64, String)>)> = Vec::new();
        let mut n: usize = 0;
        while n < lines.len()
            invariant
                n <= lines@.len(),
                views == line_views(lines@),
                timed_lines(entries@) == synced_entries(views.take(n as int)),
            decreases lines@.len() - n,
        {
            let line = lines[n].as_slice();
            assert(views.take(n + 1).drop_last() =~= views.take(n as int));
            let ghost before = timed_lines(entries@);
            if !blank(line) {
                if let Some(mut line_entries) = parse_synced_line(line) {
                    let ghost added = timed_lines(line_entries@);
                    entries.append(&mut line_entries);
                    assert(timed_lines(entries@) =~= before + added);
                }
            }
            assert(timed_lines(entries@) =~= synced_entries(views.take(n + 1)));
            n = n + 1;
        }
        let sorted = sort_entries_by_time(entries);
        proof {
            let f = |x: Vec<(u64, String)>| timed_texts(x@);
            lemma_sort_map(entries@, f);
            assert(timed_lines(entries@) =~= map_payload(entries@, f));
            assert(timed_lines(sorted@) =~= map_payload(sorted@, f));
        }
        Lyrics::SyncedLyrics(SyncedLyrics(sorted))
    } else {
        let mut entries: Vec<(u64, String)> = Vec::new();
        let mut n: usize = 0;
        while n < lines.len()
            invariant
                n <= lines@.len(),
                views == line_views(lines@),
                timed_texts(entries@) == simple_entries(views.take(n as int)),
            decreases lines@.len() - n,
        {
            let line = lines[n].as_slice();
            assert(views.take(n + 1).drop_last() =~= views.take(n as int));
            let ghost before = timed_texts(entries@);
            let metadata = line.len() > 0 && line[0] == '[' && contains_char(line, ']')
                && !contains_char(line, ':');
            if !blank(line) && !metadata {
                if let Some(mut line_entries) = parse_simple_line(line) {
                    let ghost added = timed_texts(line_entries@);
                    entries.append(&mut line_entries);
                    assert(timed_texts(entries@) =~= before + added);
                }
            }
            assert(timed_texts(entries@) =~= simple_entries(views.take(n + 1)));
            n = n + 1;
        }
        let sorted = sort_entries_by_time(entries);
        proof {
            let f = |x: String| x@;
            lemma_sort_map(entries@, f);
            assert(timed_texts(entries@) =~= map_payload(entries@, f));
            assert(timed_texts(sorted@) =~= map_payload(sorted@, f));
        }
        Lyrics::SimpleLyrics(SimpleLyrics(sorted))
    }
}

} // verus!
