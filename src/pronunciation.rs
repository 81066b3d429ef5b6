//! Pronunciation hints, and the ordered rules that turn written jamo into
//! the jamo that are pronounced.

use vstd::prelude::*;

use crate::jamo_stream::{modern_jamo, JamoInStream, JamoStream, ModernJamo, SILENT_INITIAL};
use crate::text::push_char;

verus! {

/// Advice on how the jamo is pronounced; empty where none is recorded.
pub open spec fn hint_of(c: char) -> Seq<char> {
    match c {
        'ᄀ' => "'g' as in 'go', not as in 'giraffe'"@,
        'ᄁ' | 'ᆩ' => "'ch' after 's', as in 'school'"@,
        'ᄂ' => "'n' as in 'no', with tongue touching back of teeth"@,
        'ᄃ' => "'d' as in 'study' or first 't' in start, tongue on back of teeth"@,
        'ᄄ' => "'t' after 's', as in 'steal'"@,
        'ᄅ' => "'l' at word begin, Spanish 'r' in middle, tongue back on palate"@,
        'ᄆ' => "'m' as in 'map'"@,
        'ᄇ' => "'b' as in 'busy', same mouth shape as ㅁ"@,
        'ᄈ' => "'p' after 's', as in 'speech'"@,
        'ᄉ' => "'s' as in 'slow' or 'sh' as in 'sheep'"@,
        'ᄊ' | 'ᆻ' => "'s' as in 'sit'"@,
        'ᄋ' => "silent"@,
        'ᄌ' => "'j' as in 'Jill'"@,
        'ᄍ' => "tighten throat while pronouncing ㅈ"@,
        'ᄎ' => "'ch' as in 'chain', like ㅈ aspirated"@,
        'ᄏ' => "'k' as in 'korea', like ㄱ aspirated"@,
        'ᄐ' => "'t' as in 'teeth', like ㄷ aspirated"@,
        'ᄑ' => "'p' as in 'power', like ㅂ aspirated"@,
        'ᄒ' => "'h' as in 'hat'"@,
        'ᅡ' => "'a' as in 'father'"@,
        'ᅢ' => "'a' as in 'sad' or 'care', indistinct from ㅔ"@,
        'ᅣ' => "'ya' as in 'yarn', like ㅣ+ㅏ"@,
        'ᅤ' => "'ye' as in 'yes', like ㅣ+ㅐ, indistinct from ㅖ"@,
        'ᅥ' => "'u' as in 'bus', 'gut', 'cup'"@,
        'ᅦ' => "'e' as in 'bed' or 'a' as in 'take', indistinct from ㅐ"@,
        'ᅧ' => "'yu' as in 'yummy', like ㅣ+ㅓ"@,
        'ᅨ' => "'ye' as in 'yes', like ㅣ+ㅖ, indistinct from ㅒ"@,
        'ᅩ' => "'o' as in 'ago'"@,
        'ᅪ' => "'wa' as in 'swan', like ㅗ+ㅏ"@,
        'ᅫ' => "'we' as in 'wet', indistinct from ㅞ and ㅘ"@,
        'ᅬ' => "'we' as in 'wet', not 'oy', indistinct from ㅙ and ㅞ"@,
        'ᅭ' => "'yo' as in 'yogurt', like ㅣ+ㅗ"@,
        'ᅮ' => "'oo' as in 'food'"@,
        'ᅯ' => "'wo' as in 'wonderful' or 'work', like ㅗ+ㅓ"@,
        'ᅰ' => "'we' as in 'wet', indistinct from ㅘ and ㅙ"@,
        'ᅱ' => "'we' as in 'we' or 'weekend'"@,
        'ᅲ' => "'u' as in 'USA', like ㅣ+ㅜ"@,
        'ᅳ' => "'uh' with upper/lower teeth close and yucky face"@,
        'ᅴ' => "ㅣ with any consonant except ㅇ, otherwise ㅡ then ㅣ"@,
        'ᅵ' => "'ee' as in 'feet'"@,
        'ᆨ' | 'ᆿ' => "no sound, stop air like 'doc' in 'doctor'"@,
        'ᆫ' => "'n' as in 'can'"@,
        'ᆮ' | 'ᆺ' | 'ᆽ' | 'ᆾ' | 'ᇀ' | 'ᇂ' => "'t' as in 'cat', no puff of air at all"@,
        'ᆯ' => "'l' with tongue touching roof of mouth"@,
        'ᆷ' => "'m' as in 'beam'"@,
        'ᆸ' | 'ᇁ' => "'p' as in 'cap'"@,
        'ᆼ' => "'ng' as in 'ring'"@,
        _ => ""@,
    }
}

/// Advice on the pronunciation of the jamo at this stream position.
///
/// Returns an empty string where there is no advice.
pub fn get_jamo_pronunciation(jamo: &JamoInStream) -> (r: &'static str)
    ensures
        r@ == hint_of(jamo.curr),
{
    match jamo.curr {
        'ᄀ' => "'g' as in 'go', not as in 'giraffe'",
        'ᄁ' | 'ᆩ' => "'ch' after 's', as in 'school'",
        'ᄂ' => "'n' as in 'no', with tongue touching back of teeth",
        'ᄃ' => "'d' as in 'study' or first 't' in start, tongue on back of teeth",
        'ᄄ' => "'t' after 's', as in 'steal'",
        'ᄅ' => "'l' at word begin, Spanish 'r' in middle, tongue back on palate",
        'ᄆ' => "'m' as in 'map'",
        'ᄇ' => "'b' as in 'busy', same mouth shape as ㅁ",
        'ᄈ' => "'p' after 's', as in 'speech'",
        'ᄉ' => "'s' as in 'slow' or 'sh' as in 'sheep'",
        'ᄊ' | 'ᆻ' => "'s' as in 'sit'",
        'ᄋ' => "silent",
        'ᄌ' => "'j' as in 'Jill'",
        'ᄍ' => "tighten throat while pronouncing ㅈ",
        'ᄎ' => "'ch' as in 'chain', like ㅈ aspirated",
        'ᄏ' => "'k' as in 'korea', like ㄱ aspirated",
        'ᄐ' => "'t' as in 'teeth', like ㄷ aspirated",
        'ᄑ' => "'p' as in 'power', like ㅂ aspirated",
        'ᄒ' => "'h' as in 'hat'",
        'ᅡ' => "'a' as in 'father'",
        'ᅢ' => "'a' as in 'sad' or 'care', indistinct from ㅔ",
        'ᅣ' => "'ya' as in 'yarn', like ㅣ+ㅏ",
        'ᅤ' => "'ye' as in 'yes', like ㅣ+ㅐ, indistinct from ㅖ",
        'ᅥ' => "'u' as in 'bus', 'gut', 'cup'",
        'ᅦ' => "'e' as in 'bed' or 'a' as in 'take', indistinct from ㅐ",
        'ᅧ' => "'yu' as in 'yummy', like ㅣ+ㅓ",
        'ᅨ' => "'ye' as in 'yes', like ㅣ+ㅖ, indistinct from ㅒ",
        'ᅩ' => "'o' as in 'ago'",
        'ᅪ' => "'wa' as in 'swan', like ㅗ+ㅏ",
        'ᅫ' => "'we' as in 'wet', indistinct from ㅞ and ㅘ",
        'ᅬ' => "'we' as in 'wet', not 'oy', indistinct from ㅙ and ㅞ",
        'ᅭ' => "'yo' as in 'yogurt', like ㅣ+ㅗ",
        'ᅮ' => "'oo' as in 'food'",
        'ᅯ' => "'wo' as in 'wonderful' or 'work', like ㅗ+ㅓ",
        'ᅰ' => "'we' as in 'wet', indistinct from ㅘ and ㅙ",
        'ᅱ' => "'we' as in 'we' or 'weekend'",
        'ᅲ' => "'u' as in 'USA', like ㅣ+ㅜ",
        'ᅳ' => "'uh' with upper/lower teeth close and yucky face",
        'ᅴ' => "ㅣ with any consonant except ㅇ, otherwise ㅡ then ㅣ",
        'ᅵ' => "'ee' as in 'feet'",
        'ᆨ' | 'ᆿ' => "no sound, stop air like 'doc' in 'doctor'",
        'ᆫ' => "'n' as in 'can'",
        'ᆮ' | 'ᆺ' | 'ᆽ' | 'ᆾ' | 'ᇀ' | 'ᇂ' => "'t' as in 'cat', no puff of air at all",
        'ᆯ' => "'l' with tongue touching roof of mouth",
        'ᆷ' => "'m' as in 'beam'",
        'ᆸ' | 'ᇁ' => "'p' as in 'cap'",
        'ᆼ' => "'ng' as in 'ring'",
        _ => "",
    }
}

/// A final consonant, with the initial consonant of the syllable after it.
#[derive(Clone, Copy)]
pub struct RuleContext {
    /// The final consonant of one syllable.
    pub final_consonant: ModernJamo,
    /// The initial consonant of the next syllable.
    pub next_initial_consonant: Option<ModernJamo>,
}

impl RuleContext {
    /// The two consonants that the rules look at.
    pub fn consonants(&self) -> (r: (ModernJamo, Option<ModernJamo>))
        ensures
            r == (self.final_consonant, self.next_initial_consonant),
    {
        (self.final_consonant, self.next_initial_consonant)
    }
}

/// What one rule does to a context.
#[derive(Clone, Copy)]
pub enum RuleResult {
    /// The rule does not apply.
    NoChange,
    /// The initial consonant of the next syllable changes.
    ChangeNextInitial(ModernJamo),
    /// The final consonant changes.
    ChangeFinal(ModernJamo),
    /// Both the final consonant and the next initial consonant change.
    ChangeBoth(ModernJamo, ModernJamo),
    /// The final consonant is dropped.
    RemoveFinal,
    /// The final consonant is dropped, and the next initial consonant
    /// changes.
    RemoveFinalAndChangeNextInitial(ModernJamo),
}

/// The tensed counterpart of a plain initial consonant.
pub open spec fn tensed(c: char) -> Option<char> {
    match c {
        'ᄀ' => Some('ᄁ'),
        'ᄃ' => Some('ᄄ'),
        'ᄇ' => Some('ᄈ'),
        'ᄉ' => Some('ᄊ'),
        'ᄌ' => Some('ᄍ'),
        _ => None,
    }
}

/// Reinforcement: after one of the final consonants that tense what
/// follows, a plain initial consonant becomes tensed. A final 'h' before 's'
/// is dropped and the 's' tensed.
pub open spec fn reinforcement_spec(ctx: RuleContext) -> RuleResult {
    match (ctx.final_consonant, ctx.next_initial_consonant) {
        (
            ModernJamo::FinalConsonant('ᆸ' | 'ᆨ' | 'ᆿ' | 'ᆮ' | 'ᆺ' | 'ᆽ' | 'ᆾ' | 'ᇀ'),
            Some(ModernJamo::InitialConsonant(initial)),
        ) => match tensed(initial) {
            Some(t) => RuleResult::ChangeNextInitial(ModernJamo::InitialConsonant(t)),
            None => RuleResult::NoChange,
        },
        (ModernJamo::FinalConsonant('ᇂ'), Some(ModernJamo::InitialConsonant('ᄉ'))) => {
            RuleResult::RemoveFinalAndChangeNextInitial(ModernJamo::InitialConsonant('ᄊ'))
        },
        _ => RuleResult::NoChange,
    }
}

/// The reinforcement rule.
fn reinforcement_rule(ctx: &RuleContext) -> (r: RuleResult)
    ensures
        r == reinforcement_spec(*ctx),
{
    match ctx.consonants() {
        (
            ModernJamo::FinalConsonant('ᆸ' | 'ᆨ' | 'ᆿ' | 'ᆮ' | 'ᆺ' | 'ᆽ' | 'ᆾ' | 'ᇀ'),
            Some(ModernJamo::InitialConsonant(initial)),
        ) => {
            let strengthened = match initial {
                'ᄀ' => 'ᄁ',
                'ᄃ' => 'ᄄ',
                'ᄇ' => 'ᄈ',
                'ᄉ' => 'ᄊ',
                'ᄌ' => 'ᄍ',
                _ => return RuleResult::NoChange,
            };
            RuleResult::ChangeNextInitial(ModernJamo::InitialConsonant(strengthened))
        },
        (ModernJamo::FinalConsonant('ᇂ'), Some(ModernJamo::InitialConsonant('ᄉ'))) => {
            RuleResult::RemoveFinalAndChangeNextInitial(ModernJamo::InitialConsonant('ᄊ'))
        },
        _ => RuleResult::NoChange,
    }
}

/// The initial consonant that a simple final consonant becomes when it
/// moves to the next syllable.
pub open spec fn moved_initial(c: char) -> Option<char> {
    match c {
        'ᆨ' => Some('ᄀ'),
        'ᆩ' => Some('ᄁ'),
        'ᆫ' => Some('ᄂ'),
        'ᆮ' => Some('ᄃ'),
        'ᆯ' => Some('ᄅ'),
        'ᆷ' => Some('ᄆ'),
        'ᆸ' => Some('ᄇ'),
        'ᆺ' => Some('ᄉ'),
        'ᆻ' => Some('ᄊ'),
        'ᆽ' => Some('ᄌ'),
        'ᆾ' => Some('ᄎ'),
        'ᆿ' => Some('ᄏ'),
        'ᇀ' => Some('ᄐ'),
        'ᇁ' => Some('ᄑ'),
        _ => None,
    }
}

/// Resyllabification: before the silent initial consonant, a final
/// consonant moves to the next syllable. The velar nasal stays, and a final
/// 'h' is dropped.
pub open spec fn resyllabification_spec(ctx: RuleContext) -> RuleResult {
    match (ctx.final_consonant, ctx.next_initial_consonant) {
        (ModernJamo::FinalConsonant(ch), Some(ModernJamo::InitialConsonant('ᄋ'))) => {
            if ch == 'ᇂ' {
                RuleResult::RemoveFinal
            } else {
                match moved_initial(ch) {
                    Some(c) => RuleResult::RemoveFinalAndChangeNextInitial(
                        ModernJamo::InitialConsonant(c),
                    ),
                    None => RuleResult::NoChange,
                }
            }
        },
        _ => RuleResult::NoChange,
    }
}

/// The resyllabification rule.
fn resyllabification_rule(ctx: &RuleContext) -> (r: RuleResult)
    ensures
        r == resyllabification_spec(*ctx),
{
    match ctx.consonants() {
        (ModernJamo::FinalConsonant(ch), Some(ModernJamo::InitialConsonant('ᄋ'))) => {
            let new_initial = match ch {
                'ᆨ' => 'ᄀ',
                'ᆩ' => 'ᄁ',
                'ᆫ' => 'ᄂ',
                'ᆮ' => 'ᄃ',
                'ᆯ' => 'ᄅ',
                'ᆷ' => 'ᄆ',
                'ᆸ' => 'ᄇ',
                'ᆺ' => 'ᄉ',
                'ᆻ' => 'ᄊ',
                'ᆼ' => return RuleResult::NoChange,
                'ᆽ' => 'ᄌ',
                'ᆾ' => 'ᄎ',
                'ᆿ' => 'ᄏ',
                'ᇀ' => 'ᄐ',
                'ᇁ' => 'ᄑ',
                'ᇂ' => return RuleResult::RemoveFinal,
                _ => return RuleResult::NoChange,
            };
            RuleResult::RemoveFinalAndChangeNextInitial(ModernJamo::InitialConsonant(new_initial))
        },
        _ => RuleResult::NoChange,
    }
}

/// The single final consonant that a two-consonant cluster reduces to.
pub open spec fn cluster_reduction(c: char) -> Option<char> {
    match c {
        'ᆪ' | 'ᆰ' => Some('ᆨ'),
        'ᆬ' | 'ᆭ' => Some('ᆫ'),
        'ᆱ' => Some('ᆷ'),
        'ᆲ' | 'ᆳ' | 'ᆴ' | 'ᆶ' => Some('ᆯ'),
        'ᆵ' | 'ᆹ' => Some('ᆸ'),
        _ => None,
    }
}

/// Before the silent initial consonant: the final consonant that a cluster
/// keeps, and the initial consonant that its second member becomes in the
/// next syllable. Clusters whose second member is 'h' have none.
pub open spec fn cluster_liaison(c: char) -> Option<(char, char)> {
    match c {
        'ᆪ' => Some(('ᆨ', 'ᄉ')),
        'ᆬ' => Some(('ᆫ', 'ᄌ')),
        'ᆰ' => Some(('ᆯ', 'ᄀ')),
        'ᆱ' => Some(('ᆯ', 'ᄆ')),
        'ᆲ' => Some(('ᆯ', 'ᄇ')),
        'ᆳ' => Some(('ᆯ', 'ᄉ')),
        'ᆴ' => Some(('ᆯ', 'ᄐ')),
        'ᆵ' => Some(('ᆯ', 'ᄑ')),
        'ᆹ' => Some(('ᆸ', 'ᄉ')),
        _ => None,
    }
}

/// Compound-consonant simplification: a cluster reduces to one final
/// consonant. Only before the silent initial consonant does its second
/// member move to the next syllable; before any other initial consonant, or
/// at the end, the default reduction applies and the next initial consonant
/// is left alone. Other final consonants are left alone.
pub open spec fn compound_consonant_spec(ctx: RuleContext) -> RuleResult {
    match ctx.final_consonant {
        ModernJamo::FinalConsonant(c) => match cluster_reduction(c) {
            Some(d) => {
                if ctx.next_initial_consonant == Some(ModernJamo::InitialConsonant(SILENT_INITIAL))
                    && cluster_liaison(c) is Some {
                    let (f, n) = cluster_liaison(c)->0;
                    RuleResult::ChangeBoth(
                        ModernJamo::FinalConsonant(f),
                        ModernJamo::InitialConsonant(n),
                    )
                } else {
                    RuleResult::ChangeFinal(ModernJamo::FinalConsonant(d))
                }
            },
            None => RuleResult::NoChange,
        },
        _ => RuleResult::NoChange,
    }
}

/// The default reduction of a cluster.
fn reduce_cluster(c: char) -> (r: Option<char>)
    ensures
        r == cluster_reduction(c),
{
    match c {
        'ᆪ' | 'ᆰ' => Some('ᆨ'),
        'ᆬ' | 'ᆭ' => Some('ᆫ'),
        'ᆱ' => Some('ᆷ'),
        'ᆲ' | 'ᆳ' | 'ᆴ' | 'ᆶ' => Some('ᆯ'),
        'ᆵ' | 'ᆹ' => Some('ᆸ'),
        _ => None,
    }
}

/// The split of a cluster before the silent initial consonant.
fn split_cluster(c: char) -> (r: Option<(char, char)>)
    ensures
        r == cluster_liaison(c),
{
    match c {
        'ᆪ' => Some(('ᆨ', 'ᄉ')),
        'ᆬ' => Some(('ᆫ', 'ᄌ')),
        'ᆰ' => Some(('ᆯ', 'ᄀ')),
        'ᆱ' => Some(('ᆯ', 'ᄆ')),
        'ᆲ' => Some(('ᆯ', 'ᄇ')),
        'ᆳ' => Some(('ᆯ', 'ᄉ')),
        'ᆴ' => Some(('ᆯ', 'ᄐ')),
        'ᆵ' => Some(('ᆯ', 'ᄑ')),
        'ᆹ' => Some(('ᆸ', 'ᄉ')),
        _ => None,
    }
}

/// The compound-consonant rule.
fn compound_consonant_rule(ctx: &RuleContext) -> (r: RuleResult)
    ensures
        r == compound_consonant_spec(*ctx),
{
    let c = match ctx.final_consonant {
        ModernJamo::FinalConsonant(c) => c,
        _ => return RuleResult::NoChange,
    };
    let reduced = match reduce_cluster(c) {
        Some(d) => d,
        None => return RuleResult::NoChange,
    };
    if let Some(ModernJamo::InitialConsonant(SILENT_INITIAL)) = ctx.next_initial_consonant {
        if let Some((kept, moved)) = split_cluster(c) {
            return RuleResult::ChangeBoth(
                ModernJamo::FinalConsonant(kept),
                ModernJamo::InitialConsonant(moved),
            );
        }
    }
    RuleResult::ChangeFinal(ModernJamo::FinalConsonant(reduced))
}

/// The context after a rule's result is applied to it, and whether the
/// result removes the final consonant, which ends the rules for it.
pub open spec fn after_rule(ctx: RuleContext, r: RuleResult) -> (RuleContext, bool) {
    match r {
        RuleResult::NoChange => (ctx, false),
        RuleResult::ChangeNextInitial(n) => (
            RuleContext { next_initial_consonant: Some(n), ..ctx },
            false,
        ),
        RuleResult::ChangeFinal(f) => (RuleContext { final_consonant: f, ..ctx }, false),
        RuleResult::ChangeBoth(f, n) => (
            RuleContext { final_consonant: f, next_initial_consonant: Some(n) },
            false,
        ),
        RuleResult::RemoveFinal => (ctx, true),
        RuleResult::RemoveFinalAndChangeNextInitial(n) => (
            RuleContext { next_initial_consonant: Some(n), ..ctx },
            true,
        ),
    }
}

/// The rules in their order (compound consonants, resyllabification,
/// reinforcement), each applied to the context that the ones before it
/// left, until one removes the final consonant. Gives the last context and
/// whether the final consonant was removed.
pub open spec fn rules_outcome(ctx: RuleContext) -> (RuleContext, bool) {
    let (c1, removed1) = after_rule(ctx, compound_consonant_spec(ctx));
    if removed1 {
        (c1, true)
    } else {
        let (c2, removed2) = after_rule(c1, resyllabification_spec(c1));
        if removed2 {
            (c2, true)
        } else {
            after_rule(c2, reinforcement_spec(c2))
        }
    }
}

/// Applies a rule's result to the context; returns whether the final
/// consonant is removed.
fn apply_rule_result(ctx: &mut RuleContext, result: RuleResult) -> (removed: bool)
    ensures
        (*final(ctx), removed) == after_rule(*old(ctx), result),
{
    match result {
        RuleResult::NoChange => false,
        RuleResult::ChangeNextInitial(next_initial_consonant) => {
            ctx.next_initial_consonant = Some(next_initial_consonant);
            false
        },
        RuleResult::ChangeFinal(final_consonant) => {
            ctx.final_consonant = final_consonant;
            false
        },
        RuleResult::ChangeBoth(final_consonant, next_initial_consonant) => {
            ctx.final_consonant = final_consonant;
            ctx.next_initial_consonant = Some(next_initial_consonant);
            false
        },
        RuleResult::RemoveFinal => true,
        RuleResult::RemoveFinalAndChangeNextInitial(next_initial_consonant) => {
            ctx.next_initial_consonant = Some(next_initial_consonant);
            true
        },
    }
}

/// Runs the rules in order on the context; returns whether the final
/// consonant is kept.
fn apply_rules(ctx: &mut RuleContext) -> (keep: bool)
    ensures
        (*final(ctx), !keep) == rules_outcome(*old(ctx)),
{
    let result = compound_consonant_rule(ctx);
    if apply_rule_result(ctx, result) {
        return false;
    }
    let result = resyllabification_rule(ctx);
    if apply_rule_result(ctx, result) {
        return false;
    }
    let result = reinforcement_rule(ctx);
    !apply_rule_result(ctx, result)
}

/// The modern jamo that an optional character is.
pub open spec fn modern_of(c: Option<char>) -> Option<ModernJamo> {
    match c {
        Some(c) => modern_jamo(c),
        None => None,
    }
}

/// What one position of a jamo text gives when it is pronounced, given the
/// character after it and whether the initial consonant to come was already
/// given; and whether the initial consonant after it is then given already.
pub open spec fn pronounce_step(curr: char, next: Option<char>, skip: bool) -> (Seq<char>, bool) {
    match modern_jamo(curr) {
        Some(ModernJamo::InitialConsonant(ch)) => if skip {
            (Seq::empty(), false)
        } else {
            (seq![ch], false)
        },
        Some(ModernJamo::Vowel(ch)) => (seq![ch], skip),
        Some(ModernJamo::FinalConsonant(ch)) => {
            let (ctx, removed) = rules_outcome(
                RuleContext {
                    final_consonant: ModernJamo::FinalConsonant(ch),
                    next_initial_consonant: modern_of(next),
                },
            );
            let kept = if removed {
                Seq::empty()
            } else {
                seq![ctx.final_consonant.char_spec()]
            };
            match ctx.next_initial_consonant {
                Some(n) => (kept.push(n.char_spec()), true),
                None => (kept, skip),
            }
        },
        None => (seq![curr], skip),
    }
}

/// The pronounced form of the first `n` characters of a jamo text, and
/// whether the initial consonant to come was already given.
pub open spec fn pronounce_upto(s: Seq<char>, n: int) -> (Seq<char>, bool)
    decreases n,
{
    if n <= 0 {
        (Seq::empty(), false)
    } else {
        let (out, skip) = pronounce_upto(s, n - 1);
        let (piece, skip2) = pronounce_step(
            s[n - 1],
            if n < s.len() {
                Some(s[n])
            } else {
                None
            },
            skip,
        );
        (out + piece, skip2)
    }
}

/// The pronounced form of a jamo text.
pub open spec fn pronounce_spec(s: Seq<char>) -> Seq<char> {
    pronounce_upto(s, s.len() as int).0
}

/// Rewrites a text of jamo into the jamo that are pronounced, by the rules
/// applied at each final consonant. Characters that are not modern jamo are
/// kept as they are.
pub fn apply_pronunciation_rules_to_jamos(value: &str) -> (r: String)
    ensures
        r@ == pronounce_spec(value@),
{
    let mut result = String::new();
    let mut skip_next_initial_consonant = false;
    let mut stream = JamoStream::from_jamos(value);
    loop
        invariant
            stream.wf(),
            stream.jamos_spec() == value@,
            0 <= stream.position() <= value@.len(),
            (result@, skip_next_initial_consonant) == pronounce_upto(value@, stream.position()),
        ensures
            result@ == pronounce_spec(value@),
        decreases value@.len() - stream.position(),
    {
        let ghost i = stream.position();
        let jamo = match stream.next() {
            Some(jamo) => jamo,
            None => break,
        };
        let ghost before = result@;
        match ModernJamo::try_from_char(jamo.curr) {
            Some(ModernJamo::InitialConsonant(ch)) => {
                if skip_next_initial_consonant {
                    skip_next_initial_consonant = false;
                } else {
                    push_char(&mut result, ch);
                }
            },
            Some(ModernJamo::Vowel(ch)) => {
                push_char(&mut result, ch);
            },
            Some(ModernJamo::FinalConsonant(ch)) => {
                let next_initial_consonant = match jamo.next {
                    Some(c) => ModernJamo::try_from_char(c),
                    None => None,
                };
                let mut ctx = RuleContext {
                    final_consonant: ModernJamo::FinalConsonant(ch),
                    next_initial_consonant,
                };
                let keep_final_consonant = apply_rules(&mut ctx);
                if keep_final_consonant {
                    push_char(&mut result, ctx.final_consonant.to_char());
                }
                if let Some(next_initial_consonant) = ctx.next_initial_consonant {
                    push_char(&mut result, next_initial_consonant.to_char());
                    skip_next_initial_consonant = true;
                }
            },
            None => {
                push_char(&mut result, jamo.curr);
            },
        }
        proof {
            let (piece, _) = pronounce_step(
                value@[i],
                if i + 1 < value@.len() {
                    Some(value@[i + 1])
                } else {
                    None
                },
                pronounce_upto(value@, i).1,
            );
            assert(result@ =~= before + piece);
        }
    }
    result
}

} // verus!
