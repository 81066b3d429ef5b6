use hangul_fun::hangul::{compose_all_hangul_jamos, decompose_all_hangul_syllables};
use hangul_fun::jamo_stream::JamoInStream;
use hangul_fun::pronunciation::{apply_pronunciation_rules_to_jamos, get_jamo_pronunciation};

fn apply_syllables(value: &'static str) -> String {
    let jamos = decompose_all_hangul_syllables(value);
    compose_all_hangul_jamos(&apply_pronunciation_rules_to_jamos(&jamos))
}

fn test_pronounce(written: &'static str, pronounced: &'static str) {
    assert_eq!(apply_syllables(written), pronounced.to_owned())
}

#[test]
fn test_compound_consonant_rules_work() {
    assert_eq!(
        apply_pronunciation_rules_to_jamos("넋을"),
        "넉쓸".to_owned()
    );
}

#[test]
fn test_reinforcement_rules_work() {
    test_pronounce("학교", "학꾜");
    test_pronounce("학생", "학쌩");
    test_pronounce("잡지", "잡찌");
    test_pronounce("먹다", "먹따");
    test_pronounce("좋습니다", "조씁니다");
}

#[test]
fn test_resyllibification_rules_work() {
    test_pronounce("십오", "시보");
    // Ensure ng does not carry over.
    test_pronounce("생일", "생일");
    // Ensure h is silent.
    test_pronounce("좋아", "조아");
}

#[test]
fn compound_cluster_recomposes() {
    test_pronounce("넋을", "넉쓸");
    test_pronounce("닭이", "달기");
    test_pronounce("값", "갑");
}

#[test]
fn text_without_finals_is_unchanged() {
    test_pronounce("hi 나라", "hi 나라");
    assert_eq!(apply_pronunciation_rules_to_jamos(""), "");
}

#[test]
fn pronunciation_hints() {
    let jamo = |c| JamoInStream { curr: c, prev: None, next: None, next_syllable: None };
    assert_eq!(get_jamo_pronunciation(&jamo('ᄋ')), "silent");
    assert_eq!(get_jamo_pronunciation(&jamo('ᆼ')), "'ng' as in 'ring'");
    assert_eq!(get_jamo_pronunciation(&jamo('x')), "");
}

#[test]
fn clusters_before_other_initials_take_the_default_reduction() {
    test_pronounce("닭과", "닥꽈");
    test_pronounce("넓다", "널다");
    test_pronounce("않고", "안고");
    test_pronounce("앓다", "알다");
}

#[test]
fn cluster_second_member_moves_before_silent_initial() {
    test_pronounce("곬이", "골시");
    test_pronounce("값을", "갑쓸");
    test_pronounce("앉아", "안자");
}
