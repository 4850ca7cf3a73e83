use rag_responder::json::{passage_from_payload, stored_flag};
use rag_responder::pipeline::{
    advance, Action, Event, Incoming, Outcome, Run, Settings, Stage, TurnError,
};
use rag_responder::retriever::{Passage, Role, Turn};
use rag_responder::state::get_restart;
use serde_json::Value;
use std::collections::HashMap;

/// The services, in memory.
struct World {
    store: HashMap<String, Value>,
    history: Vec<Turn>,
    embedding: Option<usize>,
    matches: Option<Vec<(f32, Option<&'static str>)>>,
    reply: Option<String>,
    sent: Vec<String>,
    edits: Vec<String>,
    embedded: Vec<String>,
    completions: Vec<(String, bool, String)>,
    history_reads: usize,
}

fn world() -> World {
    World {
        store: HashMap::new(),
        history: vec![],
        embedding: Some(1),
        matches: Some(vec![(0.9, Some("X is a protocol.")), (0.5, Some("irrelevant"))]),
        reply: Some("X is a protocol, indeed.".to_string()),
        sent: vec![],
        edits: vec![],
        embedded: vec![],
        completions: vec![],
        history_reads: 0,
    }
}

fn settings() -> Settings {
    Settings::new("You are Helper.".to_string(), "Oops.".to_string(), "docs".to_string(), 42)
}

fn message(content: &str) -> Incoming {
    Incoming { author_is_bot: false, in_guild: false, mentions: vec![], content: content.to_string() }
}

fn payload(text: Option<&str>) -> serde_json::Map<String, Value> {
    let mut object = serde_json::Map::new();
    if let Some(t) = text {
        object.insert("text".to_string(), Value::String(t.to_string()));
    }
    object
}

fn drive(w: &mut World, id: &str, msg: Incoming) -> Stage {
    let s = settings();
    let (mut run, mut actions) = advance(&s, Run::new(), Event::Received(msg));
    loop {
        let mut answer: Option<Event> = None;
        for action in actions {
            match action {
                Action::Send(content) => w.sent.push(content),
                Action::Placeholder(content) => w.sent.push(content),
                Action::Edit(content) => w.edits.push(content),
                Action::SetRestart(value) => {
                    w.store.insert(id.to_string(), Value::Bool(value));
                }
                Action::ReadRestart => answer = Some(Event::Flag(stored_flag(w.store.get(id)))),
                Action::FetchHistory(limit) => {
                    assert_eq!(limit, 8);
                    w.history_reads += 1;
                    answer = Some(Event::History(w.history.clone()));
                }
                Action::Embed(text) => {
                    w.embedded.push(text);
                    answer = Some(Event::Embedded(w.embedding));
                }
                Action::Search { collection, limit } => {
                    assert_eq!(collection, "docs");
                    assert_eq!(limit, 5);
                    let found: Option<Vec<Passage>> = w.matches.as_ref().map(|ms| {
                        ms.iter()
                            .map(|m| passage_from_payload(m.0.to_bits(), Some(&payload(m.1))))
                            .collect()
                    });
                    answer = Some(Event::Found(found));
                }
                Action::Complete { text, restart, system_prompt, model: _ } => {
                    w.completions.push((text, restart, system_prompt));
                    answer = Some(Event::Completed(w.reply.clone()));
                }
            }
        }
        match answer {
            Some(event) => {
                let next = advance(&s, run, event);
                run = next.0;
                actions = next.1;
            }
            None => break,
        }
    }
    run.stage
}

fn flag(w: &World, id: &str) -> bool {
    get_restart(stored_flag(w.store.get(id)))
}

#[test]
fn unseen_conversation_has_no_restart_flag() {
    let w = world();
    assert!(!flag(&w, "never seen"));
}

#[test]
fn reset_command_end_to_end() {
    let mut w = world();
    let stage = drive(&mut w, "c1", message("/new"));
    assert_eq!(stage, Stage::Finished(Outcome::Restarted));
    assert_eq!(w.sent, vec!["Ok, I am starting a new conversation.".to_string()]);
    assert!(w.edits.is_empty());
    assert!(w.completions.is_empty());
    assert!(w.embedded.is_empty());
    assert!(flag(&w, "c1"));
    assert!(!flag(&w, "c2"));
}

#[test]
fn answered_turn_end_to_end() {
    let mut w = world();
    w.reply = Some("r".repeat(4000));
    let stage = drive(&mut w, "c1", message("What is X?"));
    assert_eq!(stage, Stage::Finished(Outcome::Answered));
    assert_eq!(w.embedded, vec!["What is X?".to_string()]);
    assert_eq!(
        w.completions,
        vec![("What is X?".to_string(), false, "You are Helper.\nX is a protocol.".to_string())]
    );
    assert_eq!(w.edits, vec!["r".repeat(1800)]);
    assert_eq!(w.sent, vec!["Typing ...".to_string(), "r".repeat(1800), "r".repeat(400)]);
    assert!(w.store.is_empty());
}

#[test]
fn history_goes_into_the_embedded_text_only() {
    let mut w = world();
    w.history = vec![
        Turn { role: Role::User, content: "earlier".to_string() },
        Turn { role: Role::Assistant, content: "answer".to_string() },
    ];
    drive(&mut w, "c1", message("now"));
    assert_eq!(w.embedded, vec!["earlier\nnow".to_string()]);
    assert_eq!(w.completions[0].0, "now");
}

#[test]
fn successful_restarted_turn_clears_the_flag() {
    let mut w = world();
    w.history = vec![Turn { role: Role::User, content: "earlier".to_string() }];
    drive(&mut w, "c1", message("/new"));
    assert!(flag(&w, "c1"));
    let stage = drive(&mut w, "c1", message("What is X?"));
    assert_eq!(stage, Stage::Finished(Outcome::Answered));
    assert_eq!(w.history_reads, 0);
    assert_eq!(w.embedded, vec!["What is X?".to_string()]);
    assert!(w.completions[0].1);
    assert!(!flag(&w, "c1"));
}

#[test]
fn failing_restarted_turn_keeps_the_flag() {
    let mut w = world();
    drive(&mut w, "c1", message("/new"));
    w.reply = None;
    let stage = drive(&mut w, "c1", message("What is X?"));
    assert_eq!(stage, Stage::Finished(Outcome::Failed(TurnError::Completion)));
    assert!(flag(&w, "c1"));
    w.matches = None;
    assert_eq!(
        drive(&mut w, "c1", message("What is X?")),
        Stage::Finished(Outcome::Failed(TurnError::Search))
    );
    assert!(flag(&w, "c1"));
    w.embedding = Some(0);
    assert_eq!(
        drive(&mut w, "c1", message("What is X?")),
        Stage::Finished(Outcome::Failed(TurnError::Embedding))
    );
    assert!(flag(&w, "c1"));
    assert_eq!(w.edits, vec!["Oops.".to_string(), "Oops.".to_string(), "Oops.".to_string()]);
}

#[test]
fn no_relevant_context_end_to_end() {
    let mut w = world();
    w.matches = Some(vec![(0.75, Some("at the threshold")), (0.2, Some("low")), (0.99, None)]);
    let stage = drive(&mut w, "c1", message("What is X?"));
    assert_eq!(stage, Stage::Finished(Outcome::Failed(TurnError::NoRelevantContext)));
    assert_eq!(w.sent, vec!["Typing ...".to_string()]);
    assert_eq!(w.edits, vec!["Oops.".to_string()]);
    assert!(w.completions.is_empty());
}

#[test]
fn stored_value_that_is_no_boolean_counts_as_unset() {
    let mut w = world();
    w.store.insert("c1".to_string(), Value::String("true".to_string()));
    assert!(!flag(&w, "c1"));
    drive(&mut w, "c1", message("What is X?"));
    assert_eq!(w.history_reads, 1);
}
