use hangul_fun::jamo_stream::{JamoInStream, JamoStream, ModernJamo};

#[test]
fn test_it_works() {
    let mut stream = JamoStream::from_hangul_syllables("밥이");

    assert_eq!(
        stream.next().unwrap(),
        JamoInStream {
            prev: None,
            curr: 'ᄇ',
            next: Some('ᅡ'),
            next_syllable: Some('이')
        }
    );

    assert_eq!(
        stream.next().unwrap(),
        JamoInStream {
            prev: Some('ᄇ'),
            curr: 'ᅡ',
            next: Some('ᆸ'),
            next_syllable: Some('이')
        }
    );

    assert_eq!(
        stream.next().unwrap(),
        JamoInStream {
            prev: Some('ᅡ'),
            curr: 'ᆸ',
            next: Some('ᄋ'),
            next_syllable: Some('이')
        }
    );

    assert_eq!(
        stream.next().unwrap(),
        JamoInStream {
            prev: Some('ᆸ'),
            curr: 'ᄋ',
            next: Some('ᅵ'),
            next_syllable: None
        }
    );

    assert_eq!(
        stream.next().unwrap(),
        JamoInStream {
            prev: Some('ᄋ'),
            curr: 'ᅵ',
            next: None,
            next_syllable: None
        }
    );

    assert_eq!(stream.next(), None);
    assert_eq!(stream.next(), None);
    assert_eq!(stream.next(), None);
}

#[test]
fn seek_moves_to_syllable_start() {
    let mut stream = JamoStream::from_hangul_syllables("밥이다");
    stream.seek_to_syllable(1);
    let jamo = stream.next().unwrap();
    assert_eq!(jamo.curr, 'ᄋ');
    assert_eq!(jamo.prev, Some('ᆸ'));
    assert_eq!(jamo.next_syllable, Some('다'));
    stream.seek_to_syllable(7);
    assert_eq!(stream.next().unwrap().curr, 'ᅵ');
}

#[test]
fn empty_stream_is_done() {
    let mut stream = JamoStream::from_jamos("");
    assert_eq!(stream.next(), None);
}

#[test]
fn final_followed_by_vowel() {
    let jamo = JamoInStream { curr: 'ᆸ', prev: None, next: Some('ᄋ'), next_syllable: None };
    assert!(jamo.is_final_consonant_followed_by_vowel());
    let jamo = JamoInStream { curr: 'ᆸ', prev: None, next: Some('ᄃ'), next_syllable: None };
    assert!(!jamo.is_final_consonant_followed_by_vowel());
}

#[test]
fn modern_jamo_ranges() {
    assert_eq!(ModernJamo::try_from_char('ᄒ'), Some(ModernJamo::InitialConsonant('ᄒ')));
    assert_eq!(ModernJamo::try_from_char('ᅵ'), Some(ModernJamo::Vowel('ᅵ')));
    assert_eq!(ModernJamo::try_from_char('ᇂ'), Some(ModernJamo::FinalConsonant('ᇂ')));
    assert_eq!(ModernJamo::try_from_char('\u{1113}'), None);
    assert!(ModernJamo::is_initial_consonant('ᄀ'));
    assert!(!ModernJamo::is_initial_consonant('ᆨ'));
    assert_eq!(ModernJamo::Vowel('ᅡ').to_char(), 'ᅡ');
}
