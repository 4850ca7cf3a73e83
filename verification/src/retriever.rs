//! Building the text to embed and the system prompt augmented with the
//! passages that a similarity search found.

use crate::score::{exceeds_spec, score_exceeds, DEFAULT_THRESHOLD_BITS};
use vstd::prelude::*;
use vstd::string::*;

verus! {

/// Who wrote a turn of the conversation.
#[derive(Clone, Copy, Debug, PartialEq, Eq, Structural)]
pub enum Role {
    System,
    User,
    Assistant,
}

/// One earlier turn of the conversation.
#[derive(Clone, Debug)]
pub struct Turn {
    pub role: Role,
    pub content: String,
}

pub struct TurnView {
    pub role: Role,
    pub content: Seq<char>,
}

impl View for Turn {
    type V = TurnView;

    open spec fn view(&self) -> TurnView {
        TurnView { role: self.role, content: self.content@ }
    }
}

/// One match of the similarity search. A match whose payload holds no text
/// has `text == None` and is never used.
#[derive(Clone, Debug)]
pub struct Passage {
    pub score_bits: u32,
    pub text: Option<String>,
}

pub struct PassageView {
    pub score_bits: u32,
    pub text: Option<Seq<char>>,
}

impl View for Passage {
    type V = PassageView;

    open spec fn view(&self) -> PassageView {
        PassageView {
            score_bits: self.score_bits,
            text: match self.text {
                Some(t) => Some(t@),
                None => None,
            },
        }
    }
}

/// The limits that govern retrieval.
#[derive(Clone, Copy, Debug)]
pub struct RetrievalSettings {
    /// How many matches to ask the index for.
    pub limit: u64,
    /// Bit pattern of the score that a passage must exceed.
    pub threshold_bits: u32,
    /// Length of the prompt, in characters, past which nothing is appended.
    pub soft_char_limit: usize,
}

impl Default for RetrievalSettings {
    fn default() -> (s: RetrievalSettings)
        ensures
            s.limit == 5,
            s.threshold_bits == DEFAULT_THRESHOLD_BITS,
            s.soft_char_limit == 30000,
    {
        RetrievalSettings {
            limit: 5,
            threshold_bits: DEFAULT_THRESHOLD_BITS,
            soft_char_limit: 30000,
        }
    }
}

pub open spec fn turn_views(turns: Seq<Turn>) -> Seq<TurnView> {
    Seq::new(turns.len(), |i: int| turns[i]@)
}

pub open spec fn passage_views(passages: Seq<Passage>) -> Seq<PassageView> {
    Seq::new(passages.len(), |i: int| passages[i]@)
}

pub open spec fn newline() -> Seq<char> {
    seq!['\n']
}

/// The text to embed: every user turn of the history on a line of its own,
/// oldest first, and the current message as the last line.
pub open spec fn question_spec(history: Seq<TurnView>, current: Seq<char>) -> Seq<char>
    decreases history.len(),
{
    if history.len() == 0 {
        current
    } else if history.first().role == Role::User {
        history.first().content + newline() + question_spec(history.drop_first(), current)
    } else {
        question_spec(history.drop_first(), current)
    }
}

/// Whether a passage is appended when its turn comes.
pub open spec fn qualifies(p: PassageView, threshold_bits: u32) -> bool {
    p.text is Some && exceeds_spec(p.score_bits, threshold_bits)
}

/// The prompt after one passage had its turn.
pub open spec fn append_spec(prompt: Seq<char>, p: PassageView, threshold_bits: u32) -> Seq<char> {
    if qualifies(p, threshold_bits) {
        prompt + newline() + p.text->Some_0
    } else {
        prompt
    }
}

/// The prompt after the passages had their turns in the given order. Before
/// each turn the prompt's length is held against the soft limit; once it is
/// over, the prompt stays as it is.
pub open spec fn augment_spec(
    prompt: Seq<char>,
    passages: Seq<PassageView>,
    threshold_bits: u32,
    soft_char_limit: nat,
) -> Seq<char>
    decreases passages.len(),
{
    if passages.len() == 0 || prompt.len() > soft_char_limit {
        prompt
    } else {
        augment_spec(
            append_spec(prompt, passages.first(), threshold_bits),
            passages.drop_first(),
            threshold_bits,
            soft_char_limit,
        )
    }
}

/// Joins the user turns of `history` and the current message into the text
/// whose embedding is searched for.
pub fn build_question(history: &Vec<Turn>, current: &str) -> (question: String)
    ensures
        question@ == question_spec(turn_views(history@), current@),
{
    let mut question = String::new();
    let mut i: usize = 0;
    proof {
        assert(turn_views(history@).skip(0) =~= turn_views(history@));
        assert(question@ + question_spec(turn_views(history@), current@) =~= question_spec(
            turn_views(history@),
            current@,
        ));
    }
    while i < history.len()
        invariant
            i <= history.len(),
            question_spec(turn_views(history@), current@) == question@ + question_spec(
                turn_views(history@).skip(i as int),
                current@,
            ),
        decreases history.len() - i,
    {
        let ghost rest = turn_views(history@).skip(i as int);
        let ghost before = question@;
        proof {
            assert(rest.first() == history@[i as int]@);
            assert(rest.drop_first() =~= turn_views(history@).skip(i + 1));
        }
        let turn = &history[i];
        if turn.role == Role::User {
            question.append(turn.content.as_str());
            question.append("\n");
            proof {
                reveal_strlit("\n");
                assert("\n"@ =~= newline());
                let tail = question_spec(rest.drop_first(), current@);
                assert(before + (turn.content@ + newline() + tail) =~= (before + turn.content@
                    + newline()) + tail);
            }
        }
        i = i + 1;
    }
    question.append(current);
    proof {
        assert(turn_views(history@).skip(i as int).len() == 0);
    }
    question
}

/// Appends to `system_prompt` the text of every passage whose score exceeds the
/// threshold, each after a newline, in the order given, until the prompt is
/// longer than the soft limit.
pub fn augment_prompt(system_prompt: &str, passages: &Vec<Passage>, settings: &RetrievalSettings) -> (prompt: String)
    ensures
        prompt@ == augment_spec(
            system_prompt@,
            passage_views(passages@),
            settings.threshold_bits,
            settings.soft_char_limit as nat,
        ),
{
    let mut prompt = system_prompt.to_owned();
    let mut i: usize = 0;
    let ghost all = passage_views(passages@);
    let ghost t = settings.threshold_bits;
    let ghost limit = settings.soft_char_limit as nat;
    proof {
        assert(all.skip(0) =~= all);
    }
    while i < passages.len()
        invariant
            i <= passages.len(),
            all == passage_views(passages@),
            t == settings.threshold_bits,
            limit == settings.soft_char_limit as nat,
            augment_spec(system_prompt@, all, t, limit) == augment_spec(
                prompt@,
                all.skip(i as int),
                t,
                limit,
            ),
        decreases passages.len() - i,
    {
        if prompt.as_str().unicode_len() > settings.soft_char_limit {
            return prompt;
        }
        let ghost rest = all.skip(i as int);
        let ghost before = prompt@;
        proof {
            assert(rest.first() == passages@[i as int]@);
            assert(rest.drop_first() =~= all.skip(i + 1));
        }
        let p = &passages[i];
        match &p.text {
            Some(text) => {
                if score_exceeds(p.score_bits, settings.threshold_bits) {
                    prompt.append("\n");
                    prompt.append(text.as_str());
                    proof {
                        reveal_strlit("\n");
                        assert("\n"@ =~= newline());
                    }
                }
            },
            None => {},
        }
        i = i + 1;
    }
    proof {
        assert(all.skip(i as int).len() == 0);
    }
    prompt
}

/// Taking the passages in two runs gives what taking them in one run gives.
pub proof fn lemma_augment_in_two_runs(
    prompt: Seq<char>,
    first: Seq<PassageView>,
    second: Seq<PassageView>,
    threshold_bits: u32,
    soft_char_limit: nat,
)
    ensures
        augment_spec(prompt, first + second, threshold_bits, soft_char_limit) == augment_spec(
            augment_spec(prompt, first, threshold_bits, soft_char_limit),
            second,
            threshold_bits,
            soft_char_limit,
        ),
    decreases first.len(),
{
    if first.len() == 0 {
        assert(first + second =~= second);
        if prompt.len() > soft_char_limit {
            lemma_over_limit_is_final(prompt, second, threshold_bits, soft_char_limit);
        }
    } else if prompt.len() > soft_char_limit {
        lemma_over_limit_is_final(prompt, second, threshold_bits, soft_char_limit);
    } else {
        assert((first + second).first() == first.first());
        assert((first + second).drop_first() =~= first.drop_first() + second);
        lemma_augment_in_two_runs(
            append_spec(prompt, first.first(), threshold_bits),
            first.drop_first(),
            second,
            threshold_bits,
            soft_char_limit,
        );
    }
}

/// A prompt that is over the soft limit takes no passage, whatever its score.
pub proof fn lemma_over_limit_is_final(
    prompt: Seq<char>,
    passages: Seq<PassageView>,
    threshold_bits: u32,
    soft_char_limit: nat,
)
    requires
        prompt.len() > soft_char_limit,
    ensures
        augment_spec(prompt, passages, threshold_bits, soft_char_limit) == prompt,
{
}

/// Once the passages taken so far have brought the prompt over the soft limit,
/// the passages that follow change nothing.
pub proof fn lemma_budget_stops_appending(
    prompt: Seq<char>,
    taken: Seq<PassageView>,
    later: Seq<PassageView>,
    threshold_bits: u32,
    soft_char_limit: nat,
)
    requires
        augment_spec(prompt, taken, threshold_bits, soft_char_limit).len() > soft_char_limit,
    ensures
        augment_spec(prompt, taken + later, threshold_bits, soft_char_limit) == augment_spec(
            prompt,
            taken,
            threshold_bits,
            soft_char_limit,
        ),
{
    lemma_augment_in_two_runs(prompt, taken, later, threshold_bits, soft_char_limit);
    lemma_over_limit_is_final(
        augment_spec(prompt, taken, threshold_bits, soft_char_limit),
        later,
        threshold_bits,
        soft_char_limit,
    );
}

/// The augmented prompt starts with the prompt it was made from. It is that
/// prompt itself exactly when no passage was appended, that is when it is no
/// longer.
pub proof fn lemma_augment_extends(
    prompt: Seq<char>,
    passages: Seq<PassageView>,
    threshold_bits: u32,
    soft_char_limit: nat,
)
    ensures
        prompt.is_prefix_of(augment_spec(prompt, passages, threshold_bits, soft_char_limit)),
        augment_spec(prompt, passages, threshold_bits, soft_char_limit) == prompt
            <==> augment_spec(prompt, passages, threshold_bits, soft_char_limit).len()
            == prompt.len(),
    decreases passages.len(),
{
    let out = augment_spec(prompt, passages, threshold_bits, soft_char_limit);
    if passages.len() == 0 || prompt.len() > soft_char_limit {
        assert(prompt.is_prefix_of(prompt));
    } else {
        let next = append_spec(prompt, passages.first(), threshold_bits);
        lemma_augment_extends(next, passages.drop_first(), threshold_bits, soft_char_limit);
        assert(prompt.is_prefix_of(next));
        assert(prompt.is_prefix_of(out));
        if out.len() == prompt.len() {
            assert(out =~= prompt);
        }
    }
}

/// Where no passage qualifies, the augmented prompt is the prompt itself.
pub proof fn lemma_nothing_relevant(
    prompt: Seq<char>,
    passages: Seq<PassageView>,
    threshold_bits: u32,
    soft_char_limit: nat,
)
    requires
        forall|i: int| 0 <= i < passages.len() ==> !qualifies(#[trigger] passages[i], threshold_bits),
    ensures
        augment_spec(prompt, passages, threshold_bits, soft_char_limit) == prompt,
    decreases passages.len(),
{
    if passages.len() > 0 && prompt.len() <= soft_char_limit {
        assert(!qualifies(passages[0], threshold_bits));
        let rest = passages.drop_first();
        assert forall|i: int| 0 <= i < rest.len() implies !qualifies(
            #[trigger] rest[i],
            threshold_bits,
        ) by {
            assert(rest[i] == passages[i + 1]);
        }
        lemma_nothing_relevant(prompt, rest, threshold_bits, soft_char_limit);
    }
}

/// Where the prompt is within the soft limit and the first passage qualifies,
/// the augmented prompt differs from the prompt.
pub proof fn lemma_relevant_passage_changes_prompt(
    prompt: Seq<char>,
    passages: Seq<PassageView>,
    threshold_bits: u32,
    soft_char_limit: nat,
)
    requires
        passages.len() > 0,
        prompt.len() <= soft_char_limit,
        qualifies(passages[0], threshold_bits),
    ensures
        augment_spec(prompt, passages, threshold_bits, soft_char_limit) != prompt,
{
    let next = append_spec(prompt, passages.first(), threshold_bits);
    lemma_augment_extends(next, passages.drop_first(), threshold_bits, soft_char_limit);
    assert(next.len() > prompt.len());
}

} // verus!
