//! The life of one request as a state machine.
//!
//! The library decides; its caller acts. `advance` takes the stage a request
//! has reached and what the outside world answered, and gives the next stage
//! and the actions to perform, in order. The caller performs them and comes
//! back with the event that the new stage awaits.

use crate::chunker::{chunk_views, split_spec, sub_strings};
use crate::retriever::{
    augment_prompt, augment_spec, build_question, passage_views, qualifies, question_spec,
    turn_views, Passage, PassageView, RetrievalSettings, Turn, TurnView,
};
use crate::state::{get_restart, restart_spec};
use vstd::prelude::*;
use vstd::string::*;

verus! {

/// The completion model to ask.
#[derive(Clone, Copy, Debug, PartialEq, Eq, Structural)]
pub enum Model {
    Gpt35Turbo16k,
    Gpt4,
}

/// Why a turn failed.
#[derive(Clone, Copy, Debug, PartialEq, Eq, Structural)]
pub enum TurnError {
    /// The embedding service failed or returned no vector.
    Embedding,
    /// The similarity search failed.
    Search,
    /// No passage was appended to the system prompt.
    NoRelevantContext,
    /// The completion service failed.
    Completion,
}

/// How a request ended.
#[derive(Clone, Copy, Debug, PartialEq, Eq, Structural)]
pub enum Outcome {
    /// The message was not for the assistant.
    Ignored,
    /// The conversation was marked to start afresh.
    Restarted,
    /// The reply was handed out.
    Answered,
    /// The configured error message was handed out.
    Failed(TurnError),
}

/// Where a request stands.
#[derive(Clone, Copy, Debug, PartialEq, Eq, Structural)]
pub enum Stage {
    Start,
    AwaitFlag,
    AwaitHistory,
    AwaitEmbedding,
    AwaitSearch,
    AwaitCompletion,
    Finished(Outcome),
}

/// What to do with an inbound message.
#[derive(Clone, Copy, Debug, PartialEq, Eq, Structural)]
pub enum Disposition {
    Ignore,
    Restart,
    Answer,
}

/// The configuration of the pipeline.
#[derive(Clone, Debug)]
pub struct Settings {
    pub system_prompt: String,
    pub error_message: String,
    pub collection_name: String,
    pub bot_id: u64,
    pub retrieval: RetrievalSettings,
    /// Most characters in one outbound message.
    pub chunk_len: usize,
    /// Most earlier turns to ask the history for.
    pub history_limit: u8,
    pub model: Model,
}

pub struct SettingsView {
    pub system_prompt: Seq<char>,
    pub error_message: Seq<char>,
    pub collection_name: Seq<char>,
    pub bot_id: u64,
    pub retrieval: RetrievalSettings,
    pub chunk_len: usize,
    pub history_limit: u8,
    pub model: Model,
}

impl View for Settings {
    type V = SettingsView;

    open spec fn view(&self) -> SettingsView {
        SettingsView {
            system_prompt: self.system_prompt@,
            error_message: self.error_message@,
            collection_name: self.collection_name@,
            bot_id: self.bot_id,
            retrieval: self.retrieval,
            chunk_len: self.chunk_len,
            history_limit: self.history_limit,
            model: self.model,
        }
    }
}

/// An inbound message, as far as the pipeline reads it.
#[derive(Clone, Debug)]
pub struct Incoming {
    pub author_is_bot: bool,
    /// Whether the message comes from a multi-party channel.
    pub in_guild: bool,
    /// The identities that the message mentions.
    pub mentions: Vec<u64>,
    pub content: String,
}

pub struct IncomingView {
    pub author_is_bot: bool,
    pub in_guild: bool,
    pub mentions: Seq<u64>,
    pub content: Seq<char>,
}

impl View for Incoming {
    type V = IncomingView;

    open spec fn view(&self) -> IncomingView {
        IncomingView {
            author_is_bot: self.author_is_bot,
            in_guild: self.in_guild,
            mentions: self.mentions@,
            content: self.content@,
        }
    }
}

pub open spec fn found_view(found: Option<Vec<Passage>>) -> Option<Seq<PassageView>> {
    match found {
        Some(passages) => Some(passage_views(passages@)),
        None => None,
    }
}

pub open spec fn reply_view(reply: Option<String>) -> Option<Seq<char>> {
    match reply {
        Some(text) => Some(text@),
        None => None,
    }
}

/// What the outside world answered.
#[derive(Clone, Debug)]
pub enum Event {
    /// A message came in.
    Received(Incoming),
    /// What the store holds for the conversation.
    Flag(Option<bool>),
    /// The earlier turns of the conversation, oldest first.
    History(Vec<Turn>),
    /// How many vectors the embedding service returned, or `None` for its error.
    Embedded(Option<usize>),
    /// The matches of the search in the order returned, or `None` for its error.
    Found(Option<Vec<Passage>>),
    /// The reply of the completion service, or `None` for its error.
    Completed(Option<String>),
}

pub enum EventView {
    Received(IncomingView),
    Flag(Option<bool>),
    History(Seq<TurnView>),
    Embedded(Option<usize>),
    Found(Option<Seq<PassageView>>),
    Completed(Option<Seq<char>>),
}

impl View for Event {
    type V = EventView;

    open spec fn view(&self) -> EventView {
        match *self {
            Event::Received(msg) => EventView::Received(msg@),
            Event::Flag(stored) => EventView::Flag(stored),
            Event::History(turns) => EventView::History(turn_views(turns@)),
            Event::Embedded(n) => EventView::Embedded(n),
            Event::Found(found) => EventView::Found(found_view(found)),
            Event::Completed(reply) => EventView::Completed(reply_view(reply)),
        }
    }
}

/// What the caller is to do.
#[derive(Clone, Debug, PartialEq, Eq)]
pub enum Action {
    /// Send a new message to the channel.
    Send(String),
    /// Send a new message to the channel and keep its handle for `Edit`.
    Placeholder(String),
    /// Overwrite the placeholder.
    Edit(String),
    /// Persist the restart flag.
    SetRestart(bool),
    /// Read what the store holds for the conversation.
    ReadRestart,
    /// Fetch at most so many of the latest turns.
    FetchHistory(u8),
    /// Embed the text.
    Embed(String),
    /// Search the collection with the first embedding vector.
    Search { collection: String, limit: u64 },
    /// Ask for a completion.
    Complete { text: String, restart: bool, system_prompt: String, model: Model },
}

pub enum ActionView {
    Send(Seq<char>),
    Placeholder(Seq<char>),
    Edit(Seq<char>),
    SetRestart(bool),
    ReadRestart,
    FetchHistory(u8),
    Embed(Seq<char>),
    Search { collection: Seq<char>, limit: u64 },
    Complete { text: Seq<char>, restart: bool, system_prompt: Seq<char>, model: Model },
}

impl View for Action {
    type V = ActionView;

    open spec fn view(&self) -> ActionView {
        match *self {
            Action::Send(s) => ActionView::Send(s@),
            Action::Placeholder(s) => ActionView::Placeholder(s@),
            Action::Edit(s) => ActionView::Edit(s@),
            Action::SetRestart(v) => ActionView::SetRestart(v),
            Action::ReadRestart => ActionView::ReadRestart,
            Action::FetchHistory(n) => ActionView::FetchHistory(n),
            Action::Embed(s) => ActionView::Embed(s@),
            Action::Search { collection, limit } => ActionView::Search {
                collection: collection@,
                limit,
            },
            Action::Complete { text, restart, system_prompt, model } => ActionView::Complete {
                text: text@,
                restart,
                system_prompt: system_prompt@,
                model,
            },
        }
    }
}

pub open spec fn action_views(actions: Seq<Action>) -> Seq<ActionView> {
    Seq::new(actions.len(), |i: int| actions[i]@)
}

/// One request on its way.
#[derive(Clone, Debug, PartialEq, Eq)]
pub struct Run {
    pub stage: Stage,
    /// The message that is being answered.
    pub text: String,
    /// The restart flag as it was read for this request.
    pub restart: bool,
}

pub struct RunView {
    pub stage: Stage,
    pub text: Seq<char>,
    pub restart: bool,
}

impl View for Run {
    type V = RunView;

    open spec fn view(&self) -> RunView {
        RunView { stage: self.stage, text: self.text@, restart: self.restart }
    }
}

/// The answer to the command that starts a new conversation.
pub open spec fn acknowledgement() -> Seq<char> {
    "Ok, I am starting a new conversation."@
}

/// The message sent at once and overwritten when the reply is there.
pub open spec fn placeholder() -> Seq<char> {
    "Typing ..."@
}

/// Whether the text is the command that starts a new conversation: `/new`,
/// in upper or lower case, and nothing else.
pub open spec fn is_reset_spec(text: Seq<char>) -> bool {
    &&& text.len() == 4
    &&& text[0] == '/'
    &&& (text[1] == 'n' || text[1] == 'N')
    &&& (text[2] == 'e' || text[2] == 'E')
    &&& (text[3] == 'w' || text[3] == 'W')
}

/// A message of a bot is ignored. The reset command is obeyed wherever it
/// comes from. Any other message from a multi-party channel is answered only
/// if it mentions the assistant; one from a private channel always.
pub open spec fn classify_spec(msg: IncomingView, bot_id: u64) -> Disposition {
    if msg.author_is_bot {
        Disposition::Ignore
    } else if is_reset_spec(msg.content) {
        Disposition::Restart
    } else if msg.in_guild && !msg.mentions.contains(bot_id) {
        Disposition::Ignore
    } else {
        Disposition::Answer
    }
}

pub open spec fn finish(run: RunView, outcome: Outcome) -> RunView {
    RunView { stage: Stage::Finished(outcome), ..run }
}

pub open spec fn at(run: RunView, stage: Stage) -> RunView {
    RunView { stage, ..run }
}

/// A failure ends the request with the configured error message in place of
/// the placeholder, and nothing else.
pub open spec fn fail_spec(s: SettingsView, run: RunView, error: TurnError) -> (
    RunView,
    Seq<ActionView>,
) {
    (finish(run, Outcome::Failed(error)), seq![ActionView::Edit(s.error_message)])
}

pub open spec fn embed_spec(run: RunView, history: Seq<TurnView>) -> (RunView, Seq<ActionView>) {
    (at(run, Stage::AwaitEmbedding), seq![ActionView::Embed(question_spec(history, run.text))])
}

pub open spec fn receive_spec(s: SettingsView, run: RunView, msg: IncomingView) -> (
    RunView,
    Seq<ActionView>,
) {
    match classify_spec(msg, s.bot_id) {
        Disposition::Ignore => (finish(run, Outcome::Ignored), Seq::empty()),
        Disposition::Restart => (
            finish(run, Outcome::Restarted),
            seq![ActionView::Send(acknowledgement()), ActionView::SetRestart(true)],
        ),
        Disposition::Answer => (
            RunView { stage: Stage::AwaitFlag, text: msg.content, restart: run.restart },
            seq![ActionView::Placeholder(placeholder()), ActionView::ReadRestart],
        ),
    }
}

/// With the flag set the history is not asked for: the question is the
/// message alone.
pub open spec fn flag_spec(s: SettingsView, run: RunView, stored: Option<bool>) -> (
    RunView,
    Seq<ActionView>,
) {
    let loaded = RunView { restart: restart_spec(stored), ..run };
    if loaded.restart {
        embed_spec(loaded, Seq::empty())
    } else {
        (at(loaded, Stage::AwaitHistory), seq![ActionView::FetchHistory(s.history_limit)])
    }
}

pub open spec fn embedded_spec(s: SettingsView, run: RunView, vectors: Option<usize>) -> (
    RunView,
    Seq<ActionView>,
) {
    match vectors {
        Some(n) if n > 0 => (
            at(run, Stage::AwaitSearch),
            seq![
                ActionView::Search { collection: s.collection_name, limit: s.retrieval.limit },
            ],
        ),
        _ => fail_spec(s, run, TurnError::Embedding),
    }
}

/// The system prompt with the relevant passages appended.
pub open spec fn augmented(s: SettingsView, passages: Seq<PassageView>) -> Seq<char> {
    augment_spec(
        s.system_prompt,
        passages,
        s.retrieval.threshold_bits,
        s.retrieval.soft_char_limit as nat,
    )
}

pub open spec fn found_spec(s: SettingsView, run: RunView, found: Option<Seq<PassageView>>) -> (
    RunView,
    Seq<ActionView>,
) {
    match found {
        None => fail_spec(s, run, TurnError::Search),
        Some(passages) => if augmented(s, passages) == s.system_prompt {
            fail_spec(s, run, TurnError::NoRelevantContext)
        } else {
            (
                at(run, Stage::AwaitCompletion),
                seq![
                    ActionView::Complete {
                        text: run.text,
                        restart: run.restart,
                        system_prompt: augmented(s, passages),
                        model: s.model,
                    },
                ],
            )
        },
    }
}

/// The first piece of the reply overwrites the placeholder; each further
/// piece is a message of its own, in order.
pub open spec fn dispatch_spec(pieces: Seq<Seq<char>>) -> Seq<ActionView> {
    Seq::new(
        pieces.len(),
        |i: int|
            if i == 0 {
                ActionView::Edit(pieces[i])
            } else {
                ActionView::Send(pieces[i])
            },
    )
}

/// After the reply went out, a turn that began with the flag set clears it.
pub open spec fn closing_spec(restart: bool) -> Seq<ActionView> {
    if restart {
        seq![ActionView::SetRestart(false)]
    } else {
        Seq::empty()
    }
}

pub open spec fn completed_spec(s: SettingsView, run: RunView, reply: Option<Seq<char>>) -> (
    RunView,
    Seq<ActionView>,
) {
    match reply {
        None => fail_spec(s, run, TurnError::Completion),
        Some(text) => (
            finish(run, Outcome::Answered),
            dispatch_spec(split_spec(text, s.chunk_len as nat)) + closing_spec(run.restart),
        ),
    }
}

/// The next stage and the actions to perform. An event that the stage does
/// not await changes nothing and asks for nothing.
pub open spec fn step_spec(s: SettingsView, run: RunView, event: EventView) -> (
    RunView,
    Seq<ActionView>,
) {
    match (run.stage, event) {
        (Stage::Start, EventView::Received(msg)) => receive_spec(s, run, msg),
        (Stage::AwaitFlag, EventView::Flag(stored)) => flag_spec(s, run, stored),
        (Stage::AwaitHistory, EventView::History(turns)) => embed_spec(run, turns),
        (Stage::AwaitEmbedding, EventView::Embedded(vectors)) => embedded_spec(s, run, vectors),
        (Stage::AwaitSearch, EventView::Found(found)) => found_spec(s, run, found),
        (Stage::AwaitCompletion, EventView::Completed(reply)) => completed_spec(s, run, reply),
        _ => (run, Seq::empty()),
    }
}

/// What the store holds for the conversation after the actions were
/// performed in order, where it held `stored` before.
pub open spec fn flag_after(stored: Option<bool>, actions: Seq<ActionView>) -> Option<bool>
    decreases actions.len(),
{
    if actions.len() == 0 {
        stored
    } else {
        match actions.last() {
            ActionView::SetRestart(value) => Some(value),
            _ => flag_after(stored, actions.drop_last()),
        }
    }
}

impl Settings {
    /// Whether the settings can be worked with: a message holds at least one
    /// character.
    pub open spec fn wf(&self) -> bool {
        self.chunk_len > 0
    }

    /// Settings with the usual limits: five matches above a score of 0.75, a
    /// soft limit of 30000 characters, messages of 1800 characters, eight
    /// earlier turns.
    pub fn new(system_prompt: String, error_message: String, collection_name: String, bot_id: u64) -> (s: Settings)
        ensures
            s.wf(),
            s@.system_prompt == system_prompt@,
            s@.error_message == error_message@,
            s@.collection_name == collection_name@,
            s.bot_id == bot_id,
            s.retrieval.limit == 5,
            s.retrieval.threshold_bits == crate::score::DEFAULT_THRESHOLD_BITS,
            s.retrieval.soft_char_limit == 30000,
            s.chunk_len == 1800,
            s.history_limit == 8,
            s.model == Model::Gpt35Turbo16k,
    {
        Settings {
            system_prompt,
            error_message,
            collection_name,
            bot_id,
            retrieval: RetrievalSettings::default(),
            chunk_len: 1800,
            history_limit: 8,
            model: Model::Gpt35Turbo16k,
        }
    }
}

impl Run {
    /// A request for which no message has come in yet.
    pub fn new() -> (run: Run)
        ensures
            run@ == (RunView { stage: Stage::Start, text: Seq::<char>::empty(), restart: false }),
    {
        Run { stage: Stage::Start, text: String::new(), restart: false }
    }

    /// Whether the request has ended.
    pub fn is_finished(&self) -> (done: bool)
        ensures
            done == (self.stage is Finished),
    {
        match self.stage {
            Stage::Finished(_) => true,
            _ => false,
        }
    }
}

/// Whether `text` is the command that starts a new conversation.
pub fn is_reset_command(text: &str) -> (reset: bool)
    ensures
        reset == is_reset_spec(text@),
{
    if text.unicode_len() != 4 {
        return false;
    }
    let c0 = text.get_char(0);
    let c1 = text.get_char(1);
    let c2 = text.get_char(2);
    let c3 = text.get_char(3);
    c0 == '/' && (c1 == 'n' || c1 == 'N') && (c2 == 'e' || c2 == 'E') && (c3 == 'w' || c3 == 'W')
}

/// Whether `id` is among the identities mentioned.
pub fn mentions_id(mentions: &Vec<u64>, id: u64) -> (found: bool)
    ensures
        found == mentions@.contains(id),
{
    let mut i: usize = 0;
    while i < mentions.len()
        invariant
            i <= mentions.len(),
            forall|j: int| 0 <= j < i ==> mentions@[j] != id,
        decreases mentions.len() - i,
    {
        if mentions[i] == id {
            return true;
        }
        i = i + 1;
    }
    false
}

/// Decides what to do with an inbound message.
pub fn classify(msg: &Incoming, bot_id: u64) -> (d: Disposition)
    ensures
        d == classify_spec(msg@, bot_id),
{
    if msg.author_is_bot {
        Disposition::Ignore
    } else if is_reset_command(msg.content.as_str()) {
        Disposition::Restart
    } else if msg.in_guild && !mentions_id(&msg.mentions, bot_id) {
        Disposition::Ignore
    } else {
        Disposition::Answer
    }
}

/// The augmented system prompt for what the search returned, or the reason
/// why there is none: the search failed, or it found nothing relevant, which
/// shows in the prompt being unchanged.
pub fn retrieve(settings: &Settings, found: &Option<Vec<Passage>>) -> (r: Result<String, TurnError>)
    ensures
        match r {
            Ok(prompt) => found is Some && prompt@ == augmented(
                settings@,
                passage_views(found->Some_0@),
            ) && prompt@ != settings@.system_prompt,
            Err(error) => error == (if found is None {
                TurnError::Search
            } else {
                TurnError::NoRelevantContext
            }) && (found is Some ==> augmented(settings@, passage_views(found->Some_0@))
                == settings@.system_prompt),
        },
{
    match found {
        None => Err(TurnError::Search),
        Some(passages) => {
            let prompt = augment_prompt(
                settings.system_prompt.as_str(),
                passages,
                &settings.retrieval,
            );
            if prompt == settings.system_prompt {
                Err(TurnError::NoRelevantContext)
            } else {
                Ok(prompt)
            }
        },
    }
}

/// The actions that hand out a reply in pieces of at most `chunk_len`
/// characters.
pub fn dispatch(reply: &str, chunk_len: usize) -> (actions: Vec<Action>)
    requires
        chunk_len > 0,
    ensures
        action_views(actions@) == dispatch_spec(split_spec(reply@, chunk_len as nat)),
{
    let pieces = sub_strings(reply, chunk_len);
    let ghost target = dispatch_spec(split_spec(reply@, chunk_len as nat));
    let mut actions: Vec<Action> = Vec::new();
    let mut i: usize = 0;
    while i < pieces.len()
        invariant
            i <= pieces.len(),
            chunk_views(pieces@) == split_spec(reply@, chunk_len as nat),
            target == dispatch_spec(split_spec(reply@, chunk_len as nat)),
            actions@.len() == i,
            forall|j: int| 0 <= j < i ==> (#[trigger] actions@[j])@ == target[j],
        decreases pieces.len() - i,
    {
        let piece: String = pieces[i].to_owned();
        proof {
            assert(chunk_views(pieces@)[i as int] == pieces@[i as int]@);
        }
        if i == 0 {
            actions.push(Action::Edit(piece));
        } else {
            actions.push(Action::Send(piece));
        }
        i = i + 1;
    }
    proof {
        assert(chunk_views(pieces@).len() == pieces@.len());
        assert(action_views(actions@) =~= target);
    }
    actions
}

fn fail(settings: &Settings, run: Run, error: TurnError) -> (out: (Run, Vec<Action>))
    ensures
        out.0@ == fail_spec(settings@, run@, error).0,
        action_views(out.1@) == fail_spec(settings@, run@, error).1,
{
    let mut actions: Vec<Action> = Vec::new();
    actions.push(Action::Edit(settings.error_message.clone()));
    proof {
        assert(action_views(actions@) =~= seq![ActionView::Edit(settings@.error_message)]);
    }
    (Run { stage: Stage::Finished(Outcome::Failed(error)), text: run.text, restart: run.restart }, actions)
}

fn embed(run: Run, history: &Vec<Turn>) -> (out: (Run, Vec<Action>))
    ensures
        out.0@ == embed_spec(run@, turn_views(history@)).0,
        action_views(out.1@) == embed_spec(run@, turn_views(history@)).1,
{
    let question = build_question(history, run.text.as_str());
    let mut actions: Vec<Action> = Vec::new();
    actions.push(Action::Embed(question));
    proof {
        assert(action_views(actions@) =~= embed_spec(run@, turn_views(history@)).1);
    }
    (Run { stage: Stage::AwaitEmbedding, text: run.text, restart: run.restart }, actions)
}

fn receive(settings: &Settings, run: Run, msg: Incoming) -> (out: (Run, Vec<Action>))
    ensures
        out.0@ == receive_spec(settings@, run@, msg@).0,
        action_views(out.1@) == receive_spec(settings@, run@, msg@).1,
{
    let mut actions: Vec<Action> = Vec::new();
    match classify(&msg, settings.bot_id) {
        Disposition::Ignore => {
            proof {
                assert(action_views(actions@) =~= Seq::<ActionView>::empty());
            }
            (
                Run {
                    stage: Stage::Finished(Outcome::Ignored),
                    text: run.text,
                    restart: run.restart,
                },
                actions,
            )
        },
        Disposition::Restart => {
            actions.push(Action::Send("Ok, I am starting a new conversation.".to_owned()));
            actions.push(Action::SetRestart(true));
            proof {
                assert(action_views(actions@) =~= seq![
                    ActionView::Send(acknowledgement()),
                    ActionView::SetRestart(true),
                ]);
            }
            (
                Run {
                    stage: Stage::Finished(Outcome::Restarted),
                    text: run.text,
                    restart: run.restart,
                },
                actions,
            )
        },
        Disposition::Answer => {
            actions.push(Action::Placeholder("Typing ...".to_owned()));
            actions.push(Action::ReadRestart);
            proof {
                assert(action_views(actions@) =~= seq![
                    ActionView::Placeholder(placeholder()),
                    ActionView::ReadRestart,
                ]);
            }
            (Run { stage: Stage::AwaitFlag, text: msg.content, restart: run.restart }, actions)
        },
    }
}

fn load_flag(settings: &Settings, run: Run, stored: Option<bool>) -> (out: (Run, Vec<Action>))
    ensures
        out.0@ == flag_spec(settings@, run@, stored).0,
        action_views(out.1@) == flag_spec(settings@, run@, stored).1,
{
    let restart = get_restart(stored);
    if restart {
        let history: Vec<Turn> = Vec::new();
        proof {
            assert(turn_views(history@) =~= Seq::<TurnView>::empty());
        }
        embed(Run { stage: run.stage, text: run.text, restart }, &history)
    } else {
        let mut actions: Vec<Action> = Vec::new();
        actions.push(Action::FetchHistory(settings.history_limit));
        proof {
            assert(action_views(actions@) =~= seq![
                ActionView::FetchHistory(settings@.history_limit),
            ]);
        }
        (Run { stage: Stage::AwaitHistory, text: run.text, restart }, actions)
    }
}

fn embedded(settings: &Settings, run: Run, vectors: Option<usize>) -> (out: (Run, Vec<Action>))
    ensures
        out.0@ == embedded_spec(settings@, run@, vectors).0,
        action_views(out.1@) == embedded_spec(settings@, run@, vectors).1,
{
    let usable = match vectors {
        Some(n) => n > 0,
        None => false,
    };
    if usable {
        let mut actions: Vec<Action> = Vec::new();
        actions.push(
            Action::Search {
                collection: settings.collection_name.clone(),
                limit: settings.retrieval.limit,
            },
        );
        proof {
            assert(action_views(actions@) =~= embedded_spec(settings@, run@, vectors).1);
        }
        (Run { stage: Stage::AwaitSearch, text: run.text, restart: run.restart }, actions)
    } else {
        fail(settings, run, TurnError::Embedding)
    }
}

fn searched(settings: &Settings, run: Run, found: Option<Vec<Passage>>) -> (out: (Run, Vec<Action>))
    ensures
        out.0@ == found_spec(settings@, run@, found_view(found)).0,
        action_views(out.1@) == found_spec(settings@, run@, found_view(found)).1,
{
    match retrieve(settings, &found) {
        Err(error) => fail(settings, run, error),
        Ok(prompt) => {
            let mut actions: Vec<Action> = Vec::new();
            actions.push(
                Action::Complete {
                    text: run.text.clone(),
                    restart: run.restart,
                    system_prompt: prompt,
                    model: settings.model,
                },
            );
            proof {
                assert(action_views(actions@) =~= found_spec(
                    settings@,
                    run@,
                    found_view(found),
                ).1);
            }
            (Run { stage: Stage::AwaitCompletion, text: run.text, restart: run.restart }, actions)
        },
    }
}

fn completed(settings: &Settings, run: Run, reply: Option<String>) -> (out: (Run, Vec<Action>))
    requires
        settings.wf(),
    ensures
        out.0@ == completed_spec(settings@, run@, reply_view(reply)).0,
        action_views(out.1@) == completed_spec(settings@, run@, reply_view(reply)).1,
{
    match reply {
        None => fail(settings, run, TurnError::Completion),
        Some(text) => {
            let mut actions = dispatch(text.as_str(), settings.chunk_len);
            let ghost sent = action_views(actions@);
            if run.restart {
                actions.push(Action::SetRestart(false));
            }
            proof {
                assert(action_views(actions@) =~= sent + closing_spec(run.restart));
            }
            (
                Run {
                    stage: Stage::Finished(Outcome::Answered),
                    text: run.text,
                    restart: run.restart,
                },
                actions,
            )
        },
    }
}

fn unchanged(run: Run) -> (out: (Run, Vec<Action>))
    ensures
        out.0@ == run@,
        action_views(out.1@) == Seq::<ActionView>::empty(),
{
    let actions: Vec<Action> = Vec::new();
    proof {
        assert(action_views(actions@) =~= Seq::<ActionView>::empty());
    }
    (run, actions)
}

/// Takes a request one step further: gives the next stage and the actions
/// that the caller is to perform, in order.
pub fn advance(settings: &Settings, run: Run, event: Event) -> (out: (Run, Vec<Action>))
    requires
        settings.wf(),
    ensures
        out.0@ == step_spec(settings@, run@, event@).0,
        action_views(out.1@) == step_spec(settings@, run@, event@).1,
{
    match event {
        Event::Received(msg) => match run.stage {
            Stage::Start => receive(settings, run, msg),
            _ => unchanged(run),
        },
        Event::Flag(stored) => match run.stage {
            Stage::AwaitFlag => load_flag(settings, run, stored),
            _ => unchanged(run),
        },
        Event::History(turns) => match run.stage {
            Stage::AwaitHistory => embed(run, &turns),
            _ => unchanged(run),
        },
        Event::Embedded(vectors) => match run.stage {
            Stage::AwaitEmbedding => embedded(settings, run, vectors),
            _ => unchanged(run),
        },
        Event::Found(passages) => match run.stage {
            Stage::AwaitSearch => searched(settings, run, passages),
            _ => unchanged(run),
        },
        Event::Completed(reply) => match run.stage {
            Stage::AwaitCompletion => completed(settings, run, reply),
            _ => unchanged(run),
        },
    }
}

/// Handing out a reply never touches the restart flag.
pub proof fn lemma_dispatch_keeps_flag(stored: Option<bool>, pieces: Seq<Seq<char>>)
    ensures
        flag_after(stored, dispatch_spec(pieces)) == stored,
    decreases pieces.len(),
{
    if pieces.len() > 0 {
        assert(dispatch_spec(pieces).drop_last() =~= dispatch_spec(pieces.drop_last()));
        lemma_dispatch_keeps_flag(stored, pieces.drop_last());
    }
}

/// The reset command, from whoever is not a bot, ends the request at once:
/// exactly one message goes out, the acknowledgement, the flag is set, and
/// nothing is asked of the embedding, search or completion services.
pub proof fn lemma_reset_command(
    s: SettingsView,
    run: RunView,
    msg: IncomingView,
    stored: Option<bool>,
)
    requires
        run.stage == Stage::Start,
        !msg.author_is_bot,
        is_reset_spec(msg.content),
    ensures
        step_spec(s, run, EventView::Received(msg)).0.stage == Stage::Finished(Outcome::Restarted),
        step_spec(s, run, EventView::Received(msg)).1 == seq![
            ActionView::Send(acknowledgement()),
            ActionView::SetRestart(true),
        ],
        restart_spec(flag_after(stored, step_spec(s, run, EventView::Received(msg)).1)),
{
    let actions = step_spec(s, run, EventView::Received(msg)).1;
    assert(actions.last() == ActionView::SetRestart(true));
}

/// A step that ends a request in failure asks for one thing: to overwrite the
/// placeholder with the configured error message. The restart flag stays as
/// it was.
pub proof fn lemma_failure_is_one_message(
    s: SettingsView,
    run: RunView,
    event: EventView,
    stored: Option<bool>,
)
    requires
        !(run.stage is Finished),
        step_spec(s, run, event).0.stage is Finished,
        step_spec(s, run, event).0.stage->Finished_0 is Failed,
    ensures
        step_spec(s, run, event).1 == seq![ActionView::Edit(s.error_message)],
        flag_after(stored, step_spec(s, run, event).1) == stored,
{
    let actions = step_spec(s, run, event).1;
    assert(actions == seq![ActionView::Edit(s.error_message)]);
    assert(actions.drop_last() =~= Seq::<ActionView>::empty());
    assert(flag_after(stored, actions.drop_last()) == stored);
}

/// Where no match of the search qualifies, the augmented prompt is the
/// system prompt, and the request fails without a completion being asked for.
pub proof fn lemma_no_context_fallback(s: SettingsView, run: RunView, passages: Seq<PassageView>)
    requires
        run.stage == Stage::AwaitSearch,
        forall|i: int|
            0 <= i < passages.len() ==> !qualifies(
                #[trigger] passages[i],
                s.retrieval.threshold_bits,
            ),
    ensures
        augmented(s, passages) == s.system_prompt,
        step_spec(s, run, EventView::Found(Some(passages))) == fail_spec(
            s,
            run,
            TurnError::NoRelevantContext,
        ),
{
    crate::retriever::lemma_nothing_relevant(
        s.system_prompt,
        passages,
        s.retrieval.threshold_bits,
        s.retrieval.soft_char_limit as nat,
    );
}

/// A turn that began with the flag set clears it when the reply has gone
/// out, and leaves it as it was when the completion failed.
pub proof fn lemma_restarted_turn_clears_flag(
    s: SettingsView,
    run: RunView,
    reply: Option<Seq<char>>,
    stored: Option<bool>,
)
    requires
        run.stage == Stage::AwaitCompletion,
        run.restart,
    ensures
        reply is Some ==> !restart_spec(
            flag_after(stored, step_spec(s, run, EventView::Completed(reply)).1),
        ),
        reply is None ==> flag_after(stored, step_spec(s, run, EventView::Completed(reply)).1)
            == stored,
{
    let actions = step_spec(s, run, EventView::Completed(reply)).1;
    match reply {
        Some(text) => {
            assert(actions.last() == ActionView::SetRestart(false));
        },
        None => {
            assert(actions.drop_last() =~= Seq::<ActionView>::empty());
            assert(flag_after(stored, actions.drop_last()) == stored);
        },
    }
}

/// The flag changes in two steps only: the reset command sets it, and the
/// reply of a turn that began with it set clears it. Every other step leaves
/// in the store what was there.
pub proof fn lemma_flag_changes(s: SettingsView, run: RunView, event: EventView, stored: Option<bool>)
    ensures
        flag_after(stored, step_spec(s, run, event).1) == if run.stage == Stage::Start
            && event is Received && classify_spec(event->Received_0, s.bot_id)
            == Disposition::Restart {
            Some(true)
        } else if run.stage == Stage::AwaitCompletion && event is Completed
            && event->Completed_0 is Some && run.restart {
            Some(false)
        } else {
            stored
        },
{
    let actions = step_spec(s, run, event).1;
    if actions.len() > 0 {
        if run.stage == Stage::AwaitCompletion && event is Completed
            && event->Completed_0 is Some {
            let text = event->Completed_0->Some_0;
            let sent = dispatch_spec(split_spec(text, s.chunk_len as nat));
            lemma_dispatch_keeps_flag(stored, split_spec(text, s.chunk_len as nat));
            if run.restart {
                assert(actions.last() == ActionView::SetRestart(false));
            } else {
                assert(actions =~= sent);
            }
        } else if actions.len() == 1 {
            assert(actions.drop_last() =~= Seq::<ActionView>::empty());
            assert(flag_after(stored, actions.drop_last()) == stored);
        } else {
            assert(actions.len() == 2);
            assert(actions.drop_last().drop_last() =~= Seq::<ActionView>::empty());
            assert(flag_after(stored, actions.drop_last().drop_last()) == stored);
            assert(actions.drop_last().last() == actions[0]);
            assert(flag_after(stored, actions.drop_last()) == stored);
        }
    }
}

/// The flag that was read for a request goes with it to its end: after the
/// store was read, no step changes it.
pub proof fn lemma_restart_is_kept(s: SettingsView, run: RunView, event: EventView)
    ensures
        step_spec(s, run, event).0.restart == if run.stage == Stage::AwaitFlag && event is Flag {
            restart_spec(event->Flag_0)
        } else {
            run.restart
        },
        run.stage != Stage::Start ==> step_spec(s, run, event).0.text == run.text,
{
}

/// A request that has ended stays as it is, and asks for nothing more.
pub proof fn lemma_finished_is_final(s: SettingsView, run: RunView, event: EventView)
    requires
        run.stage is Finished,
    ensures
        step_spec(s, run, event) == (run, Seq::<ActionView>::empty()),
{
}

/// A completion is asked for in one step only: when the search has returned
/// and the prompt was augmented. It is asked with the message as it came in.
pub proof fn lemma_completion_needs_context(s: SettingsView, run: RunView, event: EventView, i: int)
    requires
        0 <= i < step_spec(s, run, event).1.len(),
        step_spec(s, run, event).1[i] is Complete,
    ensures
        run.stage == Stage::AwaitSearch,
        event is Found,
        event->Found_0 is Some,
        augmented(s, event->Found_0->Some_0) != s.system_prompt,
        step_spec(s, run, event).1 == seq![
            ActionView::Complete {
                text: run.text,
                restart: run.restart,
                system_prompt: augmented(s, event->Found_0->Some_0),
                model: s.model,
            },
        ],
{
}

/// The stage reached and the actions asked for, in order, when the events
/// come in one after the other.
pub open spec fn steps_spec(s: SettingsView, run: RunView, events: Seq<EventView>) -> (
    RunView,
    Seq<ActionView>,
)
    decreases events.len(),
{
    if events.len() == 0 {
        (run, Seq::empty())
    } else {
        let first = step_spec(s, run, events.first());
        let rest = steps_spec(s, first.0, events.drop_first());
        (rest.0, first.1 + rest.1)
    }
}

/// Performing two runs of actions one after the other leaves in the store
/// what the second leaves, starting from what the first left.
pub proof fn lemma_flag_after_two_runs(
    stored: Option<bool>,
    first: Seq<ActionView>,
    second: Seq<ActionView>,
)
    ensures
        flag_after(stored, first + second) == flag_after(flag_after(stored, first), second),
    decreases second.len(),
{
    if second.len() == 0 {
        assert(first + second =~= first);
    } else {
        assert((first + second).last() == second.last());
        assert((first + second).drop_last() =~= first + second.drop_last());
        lemma_flag_after_two_runs(stored, first, second.drop_last());
    }
}

/// Whatever comes in after a request has ended, it stays as it ended.
pub proof fn lemma_finished_stays(s: SettingsView, run: RunView, events: Seq<EventView>)
    requires
        run.stage is Finished,
    ensures
        steps_spec(s, run, events) == (run, Seq::<ActionView>::empty()),
    decreases events.len(),
{
    if events.len() > 0 {
        lemma_finished_stays(s, run, events.drop_first());
        assert(Seq::<ActionView>::empty() + Seq::<ActionView>::empty() =~= Seq::<
            ActionView,
        >::empty());
    }
}

/// A request that ends in failure leaves the restart flag as it found it,
/// whatever the events were that led there.
pub proof fn lemma_failed_turn_keeps_flag(
    s: SettingsView,
    run: RunView,
    events: Seq<EventView>,
    stored: Option<bool>,
)
    requires
        steps_spec(s, run, events).0.stage is Finished,
        steps_spec(s, run, events).0.stage->Finished_0 is Failed,
    ensures
        flag_after(stored, steps_spec(s, run, events).1) == stored,
    decreases events.len(),
{
    if events.len() > 0 {
        let first = step_spec(s, run, events.first());
        let rest = steps_spec(s, first.0, events.drop_first());
        lemma_flag_changes(s, run, events.first(), stored);
        lemma_flag_after_two_runs(stored, first.1, rest.1);
        if first.0.stage is Finished {
            lemma_finished_stays(s, first.0, events.drop_first());
        }
        lemma_failed_turn_keeps_flag(s, first.0, events.drop_first(), stored);
    }
}

/// A whole turn that begins with the flag set and in which the embedding,
/// the search and the completion succeed ends with the reply handed out and
/// the flag cleared.
pub proof fn lemma_successful_restart_clears_flag(
    s: SettingsView,
    msg: IncomingView,
    vectors: usize,
    passages: Seq<PassageView>,
    reply: Seq<char>,
)
    requires
        classify_spec(msg, s.bot_id) == Disposition::Answer,
        vectors > 0,
        augmented(s, passages) != s.system_prompt,
    ensures
        ({
            let start = RunView { stage: Stage::Start, text: Seq::empty(), restart: false };
            let events = seq![
                EventView::Received(msg),
                EventView::Flag(Some(true)),
                EventView::Embedded(Some(vectors)),
                EventView::Found(Some(passages)),
                EventView::Completed(Some(reply)),
            ];
            let end = steps_spec(s, start, events);
            &&& end.0.stage == Stage::Finished(Outcome::Answered)
            &&& !restart_spec(flag_after(Some(true), end.1))
        }),
{
    let start = RunView { stage: Stage::Start, text: Seq::empty(), restart: false };
    let e0 = EventView::Received(msg);
    let e1 = EventView::Flag(Some(true));
    let e2 = EventView::Embedded(Some(vectors));
    let e3 = EventView::Found(Some(passages));
    let e4 = EventView::Completed(Some(reply));
    let events = seq![e0, e1, e2, e3, e4];
    let r1 = step_spec(s, start, e0);
    let r2 = step_spec(s, r1.0, e1);
    let r3 = step_spec(s, r2.0, e2);
    let r4 = step_spec(s, r3.0, e3);
    let r5 = step_spec(s, r4.0, e4);
    assert(r4.0.stage == Stage::AwaitCompletion && r4.0.restart);
    assert(r5.0.stage == Stage::Finished(Outcome::Answered));
    let t1 = events.drop_first();
    let t2 = t1.drop_first();
    let t3 = t2.drop_first();
    let t4 = t3.drop_first();
    let t5 = t4.drop_first();
    assert(t1.first() == e1 && t2.first() == e2 && t3.first() == e3 && t4.first() == e4);
    assert(t5.len() == 0);
    assert(steps_spec(s, r5.0, t5) == (r5.0, Seq::<ActionView>::empty()));
    assert(steps_spec(s, r4.0, t4) == (r5.0, r5.1 + Seq::<ActionView>::empty()));
    assert(r5.1 + Seq::<ActionView>::empty() =~= r5.1);
    assert(steps_spec(s, r3.0, t3) == (r5.0, r4.1 + r5.1));
    assert(steps_spec(s, r2.0, t2) == (r5.0, r3.1 + (r4.1 + r5.1)));
    assert(steps_spec(s, r1.0, t1) == (r5.0, r2.1 + (r3.1 + (r4.1 + r5.1))));
    assert(steps_spec(s, start, events) == (r5.0, r1.1 + (r2.1 + (r3.1 + (r4.1 + r5.1)))));
    let all = steps_spec(s, start, events).1;
    assert(r5.1.last() == ActionView::SetRestart(false));
    assert(all.last() == r5.1.last());
}

/// The placeholder is sent in the first step of a request that is answered,
/// and in no other.
pub proof fn lemma_placeholder_comes_first(s: SettingsView, run: RunView, event: EventView, i: int)
    requires
        0 <= i < step_spec(s, run, event).1.len(),
        step_spec(s, run, event).1[i] is Placeholder,
    ensures
        run.stage == Stage::Start,
        step_spec(s, run, event).0.stage == Stage::AwaitFlag,
        step_spec(s, run, event).1 == seq![
            ActionView::Placeholder(placeholder()),
            ActionView::ReadRestart,
        ],
{
}

/// The placeholder is overwritten only in a step that is taken after it was
/// sent, and only by the first action of that step, which ends the request.
pub proof fn lemma_edit_follows_placeholder(
    s: SettingsView,
    run: RunView,
    event: EventView,
    i: int,
)
    requires
        0 <= i < step_spec(s, run, event).1.len(),
        step_spec(s, run, event).1[i] is Edit,
    ensures
        i == 0,
        run.stage == Stage::AwaitEmbedding || run.stage == Stage::AwaitSearch || run.stage
            == Stage::AwaitCompletion,
        step_spec(s, run, event).0.stage is Finished,
{
}

} // verus!
