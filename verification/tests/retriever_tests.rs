use rag_responder::retriever::{
    augment_prompt, build_question, Passage, RetrievalSettings, Role, Turn,
};

fn passage(score: f32, text: &str) -> Passage {
    Passage { score_bits: score.to_bits(), text: Some(text.to_string()) }
}

fn turn(role: Role, content: &str) -> Turn {
    Turn { role, content: content.to_string() }
}

#[test]
fn default_limits() {
    let s = RetrievalSettings::default();
    assert_eq!(s.limit, 5);
    assert_eq!(s.threshold_bits, 0.75f32.to_bits());
    assert_eq!(s.soft_char_limit, 30000);
}

#[test]
fn question_without_history_is_the_message() {
    assert_eq!(build_question(&vec![], "What is X?"), "What is X?");
}

#[test]
fn question_joins_user_turns_oldest_first() {
    let history = vec![
        turn(Role::User, "first"),
        turn(Role::Assistant, "an answer"),
        turn(Role::System, "a rule"),
        turn(Role::User, "second"),
    ];
    assert_eq!(build_question(&history, "third"), "first\nsecond\nthird");
}

#[test]
fn relevant_passage_is_appended_after_a_newline() {
    let passages = vec![passage(0.9, "X is a protocol."), passage(0.5, "irrelevant")];
    let prompt = augment_prompt("You are Helper.", &passages, &RetrievalSettings::default());
    assert_eq!(prompt, "You are Helper.\nX is a protocol.");
}

#[test]
fn nothing_relevant_leaves_the_prompt() {
    let passages = vec![passage(0.75, "a"), passage(0.5, "b"), passage(-1.0, "c")];
    let prompt = augment_prompt("You are Helper.", &passages, &RetrievalSettings::default());
    assert_eq!(prompt, "You are Helper.");
}

#[test]
fn boundary_score_is_excluded_and_next_above_included() {
    let s = RetrievalSettings::default();
    assert_eq!(augment_prompt("p", &vec![passage(0.75, "a")], &s), "p");
    assert_eq!(augment_prompt("p", &vec![passage(0.7500001, "a")], &s), "p\na");
}

#[test]
fn skipped_passage_does_not_stop_the_walk() {
    let passages = vec![passage(0.1, "low"), passage(0.8, "high"), passage(0.2, "low"), passage(0.99, "top")];
    let prompt = augment_prompt("p", &passages, &RetrievalSettings::default());
    assert_eq!(prompt, "p\nhigh\ntop");
}

#[test]
fn passage_without_text_is_skipped() {
    let passages = vec![
        Passage { score_bits: 0.9f32.to_bits(), text: None },
        passage(0.8, "kept"),
    ];
    let prompt = augment_prompt("p", &passages, &RetrievalSettings::default());
    assert_eq!(prompt, "p\nkept");
}

#[test]
fn nothing_is_appended_past_the_soft_limit() {
    let s = RetrievalSettings { limit: 5, threshold_bits: 0.75f32.to_bits(), soft_char_limit: 10 };
    let passages = vec![passage(0.8, "12345"), passage(0.8, "6789"), passage(0.99, "later and better")];
    // "prompt" is 6 long; after the first passage 12, which is over 10.
    assert_eq!(augment_prompt("prompt", &passages, &s), "prompt\n12345");
}

#[test]
fn last_accepted_passage_may_pass_the_limit() {
    let s = RetrievalSettings { limit: 5, threshold_bits: 0.75f32.to_bits(), soft_char_limit: 10 };
    // Exactly 10 characters is not over the limit, so one more passage is taken.
    let passages = vec![passage(0.8, "abc"), passage(0.8, "a long passage"), passage(0.9, "x")];
    assert_eq!(augment_prompt("prompt", &passages, &s), "prompt\nabc\na long passage");
}

#[test]
fn prompt_over_the_limit_takes_nothing() {
    let s = RetrievalSettings { limit: 5, threshold_bits: 0.75f32.to_bits(), soft_char_limit: 3 };
    assert_eq!(augment_prompt("prompt", &vec![passage(0.9, "a")], &s), "prompt");
}

#[test]
fn soft_limit_counts_characters() {
    let s = RetrievalSettings { limit: 5, threshold_bits: 0.75f32.to_bits(), soft_char_limit: 4 };
    // Four characters, eight bytes: not over a limit of four.
    assert_eq!(augment_prompt("éééé", &vec![passage(0.9, "a")], &s), "éééé\na");
}

#[test]
fn custom_threshold() {
    let s = RetrievalSettings { limit: 5, threshold_bits: 0.25f32.to_bits(), soft_char_limit: 100 };
    let passages = vec![passage(0.3, "a"), passage(0.25, "b"), passage(0.2, "c")];
    assert_eq!(augment_prompt("p", &passages, &s), "p\na");
}
