use hangul_fun::hangul::decompose_all_hangul_syllables;
use hangul_fun::jamo_stream::JamoInStream;
use hangul_fun::romanize::{get_romanized_jamo, romanize_decomposed_hangul, ROMANIZATION_UNKNOWN};

#[test]
fn test_romanize_works() {
    assert_eq!(romanize_decomposed_hangul("밥"), "bap".to_owned());
    // Liason/linking converts the 'p' to a 'b'.
    assert_eq!(romanize_decomposed_hangul("밥을"), "babeul".to_owned());
}

#[test]
fn test_non_hangul_is_unchanged() {
    assert_eq!(romanize_decomposed_hangul("hi"), "hi".to_owned());
}

#[test]
fn romanize_after_decomposition() {
    assert_eq!(romanize_decomposed_hangul(&decompose_all_hangul_syllables("\u{bc25}")), "bap");
    assert_eq!(romanize_decomposed_hangul(&decompose_all_hangul_syllables("\u{bc25}\u{c744}")), "babeul");
    assert_eq!(romanize_decomposed_hangul(&decompose_all_hangul_syllables("\u{d55c}\u{ad6d}")), "hanguk");
    assert_eq!(romanize_decomposed_hangul(""), "");
}

#[test]
fn final_consonant_forms() {
    let jamo = |c, next| JamoInStream { curr: c, prev: None, next, next_syllable: None };
    assert_eq!(get_romanized_jamo(&jamo('ᆨ', None)), Some("k"));
    assert_eq!(get_romanized_jamo(&jamo('ᆨ', Some('ᄋ'))), Some("g"));
    assert_eq!(get_romanized_jamo(&jamo('ᄋ', None)), Some(""));
    assert_eq!(get_romanized_jamo(&jamo('ᆪ', None)), Some(ROMANIZATION_UNKNOWN));
    assert_eq!(get_romanized_jamo(&jamo('x', None)), None);
}
