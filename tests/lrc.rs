use hangul_fun::lrc::{parse_lrc, Lyrics, SimpleLyrics, SyncedLyrics};

#[test]
fn test_parse_simple_lyrics() {
    let lrc = r#"[ar:Artist Name]
[ti:Song Title]
[00:12.34]First line of lyrics
[00:15.67]Second line of lyrics
[00:20.00]Third line of lyrics"#;

    let result = parse_lrc(lrc.to_string());

    match result {
        Lyrics::SimpleLyrics(SimpleLyrics(lyrics)) => {
            assert_eq!(lyrics.len(), 3);
            assert_eq!(lyrics[0], (12340, "First line of lyrics".to_string()));
            assert_eq!(lyrics[1], (15670, "Second line of lyrics".to_string()));
            assert_eq!(lyrics[2], (20000, "Third line of lyrics".to_string()));
        }
        _ => panic!("Expected SimpleLyrics"),
    }
}

#[test]
fn test_parse_simple_lyrics_with_milliseconds() {
    let lrc = r#"[00:12.345]First line with milliseconds
[00:15.999]Second line with milliseconds"#;

    let result = parse_lrc(lrc.to_string());

    match result {
        Lyrics::SimpleLyrics(SimpleLyrics(lyrics)) => {
            assert_eq!(lyrics.len(), 2);
            assert_eq!(
                lyrics[0],
                (12345, "First line with milliseconds".to_string())
            );
            assert_eq!(
                lyrics[1],
                (15999, "Second line with milliseconds".to_string())
            );
        }
        _ => panic!("Expected SimpleLyrics"),
    }
}

#[test]
fn test_parse_synced_lyrics() {
    let lrc = r#"[ar:Artist Name]
[00:12.34]<00:12.34>First <00:13.00>word <00:13.50>synced
[00:15.67]<00:15.67>Second <00:16.00>line"#;

    let result = parse_lrc(lrc.to_string());

    match result {
        Lyrics::SyncedLyrics(SyncedLyrics(lyrics)) => {
            assert_eq!(lyrics.len(), 2);

            let (ts1, words1) = &lyrics[0];
            assert_eq!(*ts1, 12340);
            assert_eq!(words1.len(), 3);
            assert_eq!(words1[0], (12340, "First ".to_string()));
            assert_eq!(words1[1], (13000, "word ".to_string()));
            assert_eq!(words1[2], (13500, "synced".to_string()));

            let (ts2, words2) = &lyrics[1];
            assert_eq!(*ts2, 15670);
            assert_eq!(words2.len(), 2);
            assert_eq!(words2[0], (15670, "Second ".to_string()));
            assert_eq!(words2[1], (16000, "line".to_string()));
        }
        _ => panic!("Expected SyncedLyrics"),
    }
}

#[test]
fn test_parse_multiple_timestamps() {
    let lrc = r#"[00:12.34][00:15.67]Line with multiple timestamps
[00:20.00]Normal line"#;

    let result = parse_lrc(lrc.to_string());

    match result {
        Lyrics::SimpleLyrics(SimpleLyrics(lyrics)) => {
            assert_eq!(lyrics.len(), 3);
            assert_eq!(
                lyrics[0],
                (12340, "Line with multiple timestamps".to_string())
            );
            assert_eq!(
                lyrics[1],
                (15670, "Line with multiple timestamps".to_string())
            );
            assert_eq!(lyrics[2], (20000, "Normal line".to_string()));
        }
        _ => panic!("Expected SimpleLyrics"),
    }
}

#[test]
fn test_ignore_metadata_lines() {
    let lrc = r#"[ar:Artist Name]
[ti:Song Title]
[al:Album Name]
[by:Creator]
[offset:1000]
[00:12.34]Only lyrics line"#;

    let result = parse_lrc(lrc.to_string());

    match result {
        Lyrics::SimpleLyrics(SimpleLyrics(lyrics)) => {
            assert_eq!(lyrics.len(), 1);
            assert_eq!(lyrics[0], (12340, "Only lyrics line".to_string()));
        }
        _ => panic!("Expected SimpleLyrics"),
    }
}

#[test]
fn test_empty_and_invalid_lines() {
    let lrc = r#"[ar:Artist Name]

[00:12.34]Valid line
Invalid line without timestamp
[00:15.67]Another valid line
"#;

    let result = parse_lrc(lrc.to_string());

    match result {
        Lyrics::SimpleLyrics(SimpleLyrics(lyrics)) => {
            assert_eq!(lyrics.len(), 2);
            assert_eq!(lyrics[0], (12340, "Valid line".to_string()));
            assert_eq!(lyrics[1], (15670, "Another valid line".to_string()));
        }
        _ => panic!("Expected SimpleLyrics"),
    }
}

#[test]
fn test_sorting_by_timestamp() {
    let lrc = r#"[00:15.67]Second line
[00:12.34]First line
[00:20.00]Third line"#;

    let result = parse_lrc(lrc.to_string());

    match result {
        Lyrics::SimpleLyrics(SimpleLyrics(lyrics)) => {
            assert_eq!(lyrics.len(), 3);
            assert_eq!(lyrics[0], (12340, "First line".to_string()));
            assert_eq!(lyrics[1], (15670, "Second line".to_string()));
            assert_eq!(lyrics[2], (20000, "Third line".to_string()));
        }
        _ => panic!("Expected SimpleLyrics"),
    }
}

#[test]
fn test_synced_to_simple_conversion() {
    // Create a SyncedLyrics instance
    let synced_lyrics = SyncedLyrics(vec![
        (
            12340,
            vec![
                (12340, "First ".to_string()),
                (13000, "word ".to_string()),
                (13500, "synced".to_string()),
            ],
        ),
        (
            15670,
            vec![(15670, "Second ".to_string()), (16000, "line".to_string())],
        ),
    ]);

    // Convert to SimpleLyrics
    let simple_lyrics = synced_lyrics.to_simple();

    // Verify the conversion
    assert_eq!(simple_lyrics.0.len(), 2);
    assert_eq!(simple_lyrics.0[0], (12340, "First word synced".to_string()));
    assert_eq!(simple_lyrics.0[1], (15670, "Second line".to_string()));
}

#[test]
fn test_synced_to_simple_with_empty_lines() {
    // Test with some empty word lists
    let synced_lyrics = SyncedLyrics(vec![
        (10000, vec![]), // Empty line
        (
            20000,
            vec![(20000, "Hello ".to_string()), (20500, "world".to_string())],
        ),
        (30000, vec![(30000, "".to_string())]), // Line with empty string
    ]);

    let simple_lyrics = synced_lyrics.to_simple();

    assert_eq!(simple_lyrics.0.len(), 3);
    assert_eq!(simple_lyrics.0[0], (10000, "".to_string()));
    assert_eq!(simple_lyrics.0[1], (20000, "Hello world".to_string()));
    assert_eq!(simple_lyrics.0[2], (30000, "".to_string()));
}

#[test]
fn test_synced_to_simple_preserves_timestamps() {
    // Ensure timestamps are preserved correctly
    let synced_lyrics = SyncedLyrics(vec![
        (
            5000,
            vec![
                (5000, "A ".to_string()),
                (5500, "B ".to_string()),
                (6000, "C".to_string()),
            ],
        ),
        (10000, vec![(10000, "D".to_string())]),
    ]);

    let simple_lyrics = synced_lyrics.to_simple();

    // The line timestamp should be preserved, not the individual word timestamps
    assert_eq!(simple_lyrics.0[0].0, 5000);
    assert_eq!(simple_lyrics.0[1].0, 10000);
}

#[test]
fn fraction_digits_set_the_unit() {
    let lrc = "[00:00.1]a\n[00:00.12]b\n[00:00.123]c\n[00:00.1234]d\n[01:00.000]e";
    match parse_lrc(lrc.to_string()) {
        Lyrics::SimpleLyrics(SimpleLyrics(lyrics)) => {
            assert_eq!(
                lyrics,
                vec![
                    (100, "a".to_string()),
                    (120, "b".to_string()),
                    (123, "c".to_string()),
                    (123, "d".to_string()),
                    (60000, "e".to_string()),
                ]
            );
        }
        _ => panic!("Expected SimpleLyrics"),
    }
}

#[test]
fn crlf_lines_and_stray_carriage_return() {
    let lrc = "[00:01.00]one\r\n[00:02.00]tw\ro\r\n[00:03.00]three";
    match parse_lrc(lrc.to_string()) {
        Lyrics::SimpleLyrics(SimpleLyrics(lyrics)) => {
            assert_eq!(lyrics, vec![(1000, "one".to_string()), (3000, "three".to_string())]);
        }
        _ => panic!("Expected SimpleLyrics"),
    }
}

#[test]
fn equal_times_keep_their_order() {
    let lrc = "[00:05.00]b\n[00:01.00]a\n[00:05.00]c";
    match parse_lrc(lrc.to_string()) {
        Lyrics::SimpleLyrics(SimpleLyrics(lyrics)) => {
            assert_eq!(
                lyrics,
                vec![(1000, "a".to_string()), (5000, "b".to_string()), (5000, "c".to_string())]
            );
        }
        _ => panic!("Expected SimpleLyrics"),
    }
}

#[test]
fn overflowing_time_is_skipped() {
    let lrc = "[99999999999999999999:00.00]x\n[00:01.00]y";
    match parse_lrc(lrc.to_string()) {
        Lyrics::SimpleLyrics(SimpleLyrics(lyrics)) => {
            assert_eq!(lyrics, vec![(1000, "y".to_string())]);
        }
        _ => panic!("Expected SimpleLyrics"),
    }
}

#[test]
fn empty_lyrics() {
    assert_eq!(parse_lrc(String::new()), Lyrics::SimpleLyrics(SimpleLyrics(vec![])));
}
