use hangul_fun::lrc::{Lyrics, SimpleLyrics, SyncedLyrics};
use hangul_fun::play::{
    get_curr_line_word_lengths, get_playback_line_idx, help_lines_two_column_height,
    lyrics_to_vec, LyricsCursor,
};

#[test]
fn help_height_is_half_rounded_up() {
    assert_eq!(help_lines_two_column_height(), 3);
}

#[test]
fn lyrics_to_vec_trims_and_drops_empty_lines() {
    let lyrics = Lyrics::SimpleLyrics(SimpleLyrics(vec![
        (1000, "  hello \t".to_string()),
        (2000, "   ".to_string()),
        (3000, "안녕".to_string()),
    ]));
    assert_eq!(
        lyrics_to_vec(lyrics),
        vec![(1000, "hello".to_string()), (3000, "안녕".to_string())]
    );
}

#[test]
fn lyrics_to_vec_joins_synced_words() {
    let lyrics = Lyrics::SyncedLyrics(SyncedLyrics(vec![
        (10000, vec![]),
        (20000, vec![(20000, "Hello ".to_string()), (20500, "world ".to_string())]),
    ]));
    assert_eq!(lyrics_to_vec(lyrics), vec![(20000, "Hello world".to_string())]);
}

#[test]
fn word_lengths_count_syllable_runs() {
    assert_eq!(get_curr_line_word_lengths("네, 저는 의사예요"), vec![1, 2, 4]);
    assert_eq!(get_curr_line_word_lengths("hello"), Vec::<usize>::new());
}

#[test]
fn next_and_prev_line_scroll() {
    let mut cursor = LyricsCursor::new(2);
    cursor.curr_word = 1;
    cursor.go_to_next_line(3);
    assert_eq!((cursor.curr_lyrics_line, cursor.first_lyrics_line, cursor.curr_word), (1, 0, 0));
    cursor.go_to_next_line(3);
    assert_eq!((cursor.curr_lyrics_line, cursor.first_lyrics_line), (2, 1));
    cursor.go_to_next_line(3);
    assert_eq!((cursor.curr_lyrics_line, cursor.first_lyrics_line), (2, 1));
    cursor.go_to_prev_line();
    cursor.go_to_prev_line();
    assert_eq!((cursor.curr_lyrics_line, cursor.first_lyrics_line), (0, 0));
    cursor.go_to_prev_line();
    assert_eq!((cursor.curr_lyrics_line, cursor.first_lyrics_line), (0, 0));
}

#[test]
fn syllable_selection_moves_across_words() {
    let line = "네, 저는 의사";
    let mut cursor = LyricsCursor::new(5);
    assert_eq!(cursor.get_selection(line), Some(("네".to_string(), '네')));
    cursor.select_next_syllable(line);
    assert_eq!((cursor.curr_word, cursor.curr_syllable), (1, 0));
    cursor.select_next_syllable(line);
    assert_eq!(cursor.get_selection(line), Some(("저는".to_string(), '는')));
    cursor.select_next_syllable(line);
    cursor.select_next_syllable(line);
    cursor.select_next_syllable(line);
    assert_eq!((cursor.curr_word, cursor.curr_syllable), (2, 1));
    cursor.select_prev_syllable(line);
    cursor.select_prev_syllable(line);
    assert_eq!((cursor.curr_word, cursor.curr_syllable), (1, 1));
    cursor.curr_word = 9;
    assert_eq!(cursor.get_selection(line), None);
}

#[test]
fn playback_line_follows_the_times() {
    let times = [1000, 2000, 3000];
    assert_eq!(get_playback_line_idx(&times, 500), None);
    assert_eq!(get_playback_line_idx(&times, 1000), Some(0));
    assert_eq!(get_playback_line_idx(&times, 2500), Some(1));
    assert_eq!(get_playback_line_idx(&times, 3500), None);
    assert_eq!(get_playback_line_idx(&[], 0), None);
}
