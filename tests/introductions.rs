use hangul_fun::introductions::{ends_in_vowel, get_copula, get_hangul, EndingError};

#[test]
fn test_ends_in_vowel() {
    assert_eq!(ends_in_vowel("한").unwrap(), false);
    assert_eq!(ends_in_vowel("네").unwrap(), true);
}

#[test]
fn test_get_hangul_works() {
    assert_eq!(get_hangul("네, 저는 의사예요"), "네저는의사예요");
}

#[test]
fn ending_errors() {
    assert_eq!(ends_in_vowel(""), Err(EndingError::Empty));
    assert_eq!(ends_in_vowel("한a"), Err(EndingError::NotSyllable));
}

#[test]
fn copula_follows_the_ending() {
    assert_eq!(get_copula("의사"), Ok("예요"));
    assert_eq!(get_copula("선생님"), Ok("이에요"));
    assert_eq!(get_copula(""), Err(EndingError::Empty));
}

#[test]
fn get_hangul_composes_jamo() {
    assert_eq!(get_hangul("이 is"), "이");
    assert_eq!(get_hangul("abc"), "");
}
