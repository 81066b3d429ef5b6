use hangul_fun::hangul::{
    compose_all_hangul_jamos, compose_hangul_jamos_to_syllable, count_jamos_in_syllable,
    decompose_all_hangul_syllables, decompose_hangul_syllable_to_jamos, hangul_jamo_to_compat,
    hangul_jamo_to_compat_with_fallback, HangulCharClass,
};

fn chars(s: &str) -> Vec<char> {
    s.chars().collect()
}

#[test]
fn test_char_class_works() {
    assert_eq!(HangulCharClass::from('이'), HangulCharClass::Syllables);
    assert_eq!(HangulCharClass::from('ᆸ'), HangulCharClass::Jamo);
    assert_eq!(
        HangulCharClass::from('ㄱ'),
        HangulCharClass::CompatibilityJamo
    );
}

#[test]
fn test_compose_returns_none_with_non_jamos() {
    assert_eq!(compose_hangul_jamos_to_syllable(&chars("h")), None);
}

#[test]
fn test_compose_combines_two_jamos() {
    let decomposed = "이";
    assert_eq!(decomposed.chars().count(), 2);
    assert_eq!(
        compose_hangul_jamos_to_syllable(&chars(decomposed)),
        Some('이')
    );
}

#[test]
fn test_compose_combines_three_jamos() {
    let decomposed = "인";
    assert_eq!(decomposed.chars().count(), 3);
    assert_eq!(
        compose_hangul_jamos_to_syllable(&chars(decomposed)),
        Some('인')
    );
}

#[test]
fn test_decompose_works() {
    assert_eq!(decompose_hangul_syllable_to_jamos('h'), None);
    assert_eq!(
        decompose_hangul_syllable_to_jamos('이'),
        Some(('ᄋ', 'ᅵ', None))
    );
    assert_eq!(
        decompose_hangul_syllable_to_jamos('는'),
        Some(('ᄂ', 'ᅳ', Some('ᆫ')))
    );
}

#[test]
fn test_decompose_all_works() {
    let orig = "이";
    assert_eq!(orig.chars().count(), 1);
    let decomposed = "이";
    assert_eq!(decomposed.chars().count(), 2);
    assert_eq!(decompose_all_hangul_syllables(&orig), decomposed.to_owned());
}

#[test]
fn test_split_works() {
    assert_eq!(HangulCharClass::split(""), vec![]);
    assert_eq!(
        HangulCharClass::split("이"),
        vec![(HangulCharClass::Syllables, "이".to_string())]
    );

    assert_eq!(
        HangulCharClass::split("hi 이 there"),
        vec![
            (HangulCharClass::Other, "hi ".to_string()),
            (HangulCharClass::Syllables, "이".to_string()),
            (HangulCharClass::Other, " there".to_string())
        ]
    );
}

#[test]
fn classes_of_every_block() {
    assert_eq!(HangulCharClass::from('\u{a960}'), HangulCharClass::JamoExtendedA);
    assert_eq!(HangulCharClass::from('\u{d7b0}'), HangulCharClass::JamoExtendedB);
    assert_eq!(HangulCharClass::from('\u{d7af}'), HangulCharClass::Syllables);
    assert_eq!(HangulCharClass::from('\u{11ff}'), HangulCharClass::Jamo);
    assert_eq!(HangulCharClass::from('a'), HangulCharClass::Other);
    assert_eq!(HangulCharClass::from('a'), HangulCharClass::from('a'));
}

#[test]
fn every_syllable_round_trips() {
    for cp in 0xac00u32..=0xd7af {
        let c = char::from_u32(cp).unwrap();
        let (i, m, f) = decompose_hangul_syllable_to_jamos(c).unwrap();
        let mut jamos = vec![i, m];
        if let Some(f) = f {
            jamos.push(f);
        }
        assert_eq!(compose_hangul_jamos_to_syllable(&jamos), Some(c));
        assert_eq!(HangulCharClass::from(i), HangulCharClass::Jamo);
        assert_eq!(HangulCharClass::from(m), HangulCharClass::Jamo);
    }
}

#[test]
fn decompose_gives_exact_jamo() {
    assert_eq!(decompose_hangul_syllable_to_jamos('가'), Some(('\u{1100}', '\u{1161}', None)));
    assert_eq!(
        decompose_hangul_syllable_to_jamos('힣'),
        Some(('\u{1112}', '\u{1175}', Some('\u{11c2}')))
    );
}

#[test]
fn compose_rejects_malformed_input() {
    assert_eq!(compose_hangul_jamos_to_syllable(&[]), None);
    assert_eq!(compose_hangul_jamos_to_syllable(&['\u{1100}']), None);
    assert_eq!(compose_hangul_jamos_to_syllable(&['\u{1100}', 'a']), None);
    assert_eq!(compose_hangul_jamos_to_syllable(&['\u{1100}', '\u{1161}', 'a']), None);
    assert_eq!(compose_hangul_jamos_to_syllable(&['\u{11ff}', '\u{1175}']), None);
}

#[test]
fn count_jamos_works() {
    assert_eq!(count_jamos_in_syllable('h'), 0);
    assert_eq!(count_jamos_in_syllable('이'), 2);
    assert_eq!(count_jamos_in_syllable('는'), 3);
}

#[test]
fn compat_jamo_conversion() {
    assert_eq!(hangul_jamo_to_compat('ᄀ'), Some('ㄱ'));
    assert_eq!(hangul_jamo_to_compat('ᆨ'), Some('ㄱ'));
    assert_eq!(hangul_jamo_to_compat('ᆪ'), Some('ㄳ'));
    assert_eq!(hangul_jamo_to_compat('ᅵ'), Some('ㅣ'));
    assert_eq!(hangul_jamo_to_compat('x'), None);
    assert_eq!(hangul_jamo_to_compat_with_fallback('ᄒ'), 'ㅎ');
    assert_eq!(hangul_jamo_to_compat_with_fallback('x'), 'x');
}

#[test]
fn decompose_all_keeps_other_text() {
    assert_eq!(decompose_all_hangul_syllables("hi, \u{c774}"), "hi, \u{110b}\u{1175}");
    assert_eq!(decompose_all_hangul_syllables(""), "");
    assert_eq!(decompose_all_hangul_syllables("hello!"), "hello!");
    let text = "밥을 먹다";
    let out = decompose_all_hangul_syllables(text);
    assert!(out.chars().count() >= text.chars().count() + 4);
}

#[test]
fn compose_all_works() {
    assert_eq!(compose_all_hangul_jamos("hi, \u{110b}\u{1175}"), "hi, \u{c774}");
    assert_eq!(compose_all_hangul_jamos("\u{1112}\u{1161}\u{11a8}\u{1101}\u{116d}"), "\u{d559}\u{af9c}");
    assert_eq!(compose_all_hangul_jamos("\u{1100}"), "\u{1100}");
    assert_eq!(compose_all_hangul_jamos(""), "");
}

#[test]
fn split_covers_the_text() {
    let text = "a가ㄱb";
    let runs = HangulCharClass::split(text);
    assert_eq!(runs.len(), 4);
    let joined: String = runs.iter().map(|(_, s)| s.as_str()).collect();
    assert_eq!(joined, text);
    assert_eq!(runs[2].0, HangulCharClass::CompatibilityJamo);
}
