//! Answer selection: which source decides the answer, the prompt put to a
//! language model, the reading of its reply, and the hint shown to a player.

use vstd::prelude::*;
use crate::json::{JsonData, json_data, field, str_or_empty, u64_of, array_of,
    get_array, get_str, get_u64, json_text_parse, parse_json};
use crate::text::{decimal, trim, strip_prefixes, strip_suffixes, push_str, push_decimal, push_char,
    chars_of, trim_str, strip_prefixes_str, strip_suffixes_str};
use crate::types::{Answer, AnswerView, Question, QuestionView, QuestionType, answers_view};

verus! {

/// Where the answer to a question comes from.
#[derive(Debug, Clone, Copy, PartialEq, Eq, Structural)]
pub enum AnswerSource {
    /// The question set marks this answer correct.
    Known(usize),
    /// A language model is configured and is to be asked.
    AskLlm,
    /// Nothing is known and nothing can be asked.
    Fallback,
}

/// The answer chosen for a question.
#[derive(Debug, Clone, Copy, PartialEq, Eq, Structural)]
pub enum AnswerChoice {
    /// The answer known from the question set.
    Known(usize),
    /// The answer a language model gave.
    Llm(usize),
    /// The first answer, picked for want of any other.
    Fallback,
}

/// The index that a choice selects; the fallback picks the first answer.
pub open spec fn choice_index(c: AnswerChoice) -> usize {
    match c {
        AnswerChoice::Known(i) => i,
        AnswerChoice::Llm(i) => i,
        AnswerChoice::Fallback => 0,
    }
}

/// The source that decides a question: a known correct answer first, then a
/// language model where one is configured, else the fallback.
pub open spec fn answer_source(q: QuestionView, endpoint_given: bool, key_given: bool) -> AnswerSource {
    match q.correct_index {
        Some(i) => AnswerSource::Known(i),
        None => if endpoint_given && key_given {
            AnswerSource::AskLlm
        } else {
            AnswerSource::Fallback
        },
    }
}

/// Selects where the answer to a question comes from.  Priority: the known
/// correct answer, then the language model (when both its endpoint and its
/// key are given), then the first answer.
pub fn select_answer(question: &Question, llm_endpoint: Option<&str>, llm_api_key: Option<&str>) -> (r: AnswerSource)
    ensures
        r == answer_source(question@, llm_endpoint is Some, llm_api_key is Some),
        match question.correct_index {
            Some(i) => r == AnswerSource::Known(i),
            None => (r == AnswerSource::AskLlm) == (llm_endpoint is Some && llm_api_key is Some)
                && (r == AnswerSource::AskLlm || r == AnswerSource::Fallback),
        },
{
    match question.correct_index {
        Some(i) => AnswerSource::Known(i),
        None => match (llm_endpoint, llm_api_key) {
            (Some(_), Some(_)) => AnswerSource::AskLlm,
            _ => AnswerSource::Fallback,
        },
    }
}

/// The choice once the source is settled: a known answer stands; the
/// model's answer is taken when it gave one; otherwise the fallback.
pub open spec fn settled_choice(source: AnswerSource, llm_answer: Option<usize>) -> AnswerChoice {
    match source {
        AnswerSource::Known(i) => AnswerChoice::Known(i),
        AnswerSource::AskLlm => match llm_answer {
            Some(i) => AnswerChoice::Llm(i),
            None => AnswerChoice::Fallback,
        },
        AnswerSource::Fallback => AnswerChoice::Fallback,
    }
}

impl AnswerChoice {
    /// The choice once the source is settled (see `settled_choice`).
    pub fn settle(source: AnswerSource, llm_answer: Option<usize>) -> (r: AnswerChoice)
        ensures
            r == settled_choice(source, llm_answer),
            match source {
                AnswerSource::Known(i) => r == AnswerChoice::Known(i) && choice_index(r) == i,
                AnswerSource::AskLlm => match llm_answer {
                    Some(i) => r == AnswerChoice::Llm(i) && choice_index(r) == i,
                    None => r == AnswerChoice::Fallback && choice_index(r) == 0,
                },
                AnswerSource::Fallback => r == AnswerChoice::Fallback && choice_index(r) == 0,
            },
    {
        match source {
            AnswerSource::Known(i) => AnswerChoice::Known(i),
            AnswerSource::AskLlm => match llm_answer {
                Some(i) => AnswerChoice::Llm(i),
                None => AnswerChoice::Fallback,
            },
            AnswerSource::Fallback => AnswerChoice::Fallback,
        }
    }

    /// The index of the chosen answer.
    pub fn index(&self) -> (r: usize)
        ensures
            r == choice_index(*self),
    {
        match self {
            AnswerChoice::Known(i) => *i,
            AnswerChoice::Llm(i) => *i,
            AnswerChoice::Fallback => 0,
        }
    }
}

/// A known correct answer is never overridden: whatever model is configured
/// and whatever it would say, the answer chosen for a question with a known
/// answer is that answer.
pub proof fn lemma_known_answer_wins(q: QuestionView, endpoint_given: bool, key_given: bool, llm_answer: Option<usize>, i: usize)
    requires
        q.correct_index == Some(i),
    ensures
        choice_index(settled_choice(answer_source(q, endpoint_given, key_given), llm_answer)) == i,
{
}

/// The model's answer is used: where the model is asked and answers `i`,
/// the chosen index is `i`; where it gives no answer, the first answer.
pub proof fn lemma_llm_answer_used(i: usize)
    ensures
        choice_index(settled_choice(AnswerSource::AskLlm, Some(i))) == i,
        settled_choice(AnswerSource::AskLlm, Some(i)) == AnswerChoice::Llm(i),
        choice_index(settled_choice(AnswerSource::AskLlm, None)) == 0,
{
}

/// Without a known answer and without a model, the first answer is chosen.
pub proof fn lemma_fallback_is_first(q: QuestionView, endpoint_given: bool, key_given: bool, llm_answer: Option<usize>)
    requires
        q.correct_index is None,
        !(endpoint_given && key_given),
    ensures
        choice_index(settled_choice(answer_source(q, endpoint_given, key_given), llm_answer)) == 0,
{
}

/// The instructions put before every question sent to the model.
pub const LLM_INSTRUCTIONS: &'static str = "You are a quiz answering assistant. Given a question and multiple choice answers, respond with ONLY valid JSON: {\"answer_index\": <int>, \"confidence\": <0.0-1.0>, \"reasoning\": \"<brief>\"}. No other text. No markdown.";

/// The most tokens the model may answer with.
pub const LLM_MAX_TOKENS: u32 = 256;

/// The line that lists answer `i`: `<i>. <text>`.
pub open spec fn choice_line(i: nat, text: Seq<char>) -> Seq<char> {
    decimal(i) + ". "@ + text
}

/// The lines of the first `n` answers, joined by newlines.
pub open spec fn choice_lines(answers: Seq<AnswerView>, n: nat) -> Seq<char>
    decreases n,
{
    if n == 0 {
        Seq::empty()
    } else if n == 1 {
        choice_line(0, answers[0].text)
    } else {
        choice_lines(answers, (n - 1) as nat) + "\n"@ + choice_line((n - 1) as nat, answers[n - 1].text)
    }
}

/// The message put to the model for a question: the instructions, then the
/// question, its numbered choices, and the request to pick one.
pub open spec fn llm_prompt_text(q: QuestionView) -> Seq<char> {
    LLM_INSTRUCTIONS@ + "\n\n"@ + "Question: "@ + q.text + "\n\nChoices:\n"@ + choice_lines(
        q.answers,
        q.answers.len(),
    ) + "\n\nPick the correct answer."@
}

/// The request for an answer: model, token limit, and the one user message.
#[derive(Debug, Clone)]
pub struct LlmPayload {
    pub model: String,
    pub max_tokens: u32,
    pub role: String,
    pub content: String,
}

/// Lines joined by newlines (no newline after the last).
pub open spec fn join_lines(lines: Seq<Seq<char>>) -> Seq<char>
    decreases lines.len(),
{
    if lines.len() == 0 {
        Seq::empty()
    } else if lines.len() == 1 {
        lines[0]
    } else {
        join_lines(lines.drop_last()) + "\n"@ + lines.last()
    }
}

/// The numbered choice lines of a question: line `i` is `<i>. <text of answer i>`.
pub open spec fn numbered_choices(answers: Seq<AnswerView>) -> Seq<Seq<char>> {
    Seq::new(answers.len(), |i: int| decimal(i as nat) + ". "@ + answers[i].text)
}

/// `x` occurs somewhere in `s`.
pub open spec fn occurs_in(x: Seq<char>, s: Seq<char>) -> bool {
    exists|p: int| 0 <= p && p + x.len() <= s.len() && #[trigger] s.subrange(p, p + x.len()) == x
}

/// The choice list of the prompt is the numbered lines of all the answers,
/// one line per answer, in order, joined by newlines.
pub proof fn lemma_choice_lines_are_numbered(a: Seq<AnswerView>, n: nat)
    requires
        n <= a.len(),
    ensures
        choice_lines(a, n) == join_lines(numbered_choices(a).take(n as int)),
    decreases n,
{
    let lines = numbered_choices(a).take(n as int);
    if n == 1 {
        assert(lines[0] == choice_line(0, a[0].text));
    } else if n >= 2 {
        lemma_choice_lines_are_numbered(a, (n - 1) as nat);
        assert(lines.drop_last() =~= numbered_choices(a).take(n - 1));
        assert(lines.last() == choice_line((n - 1) as nat, a[n - 1].text));
    }
}

/// Every line of a join occurs in the joined text.
pub proof fn lemma_join_contains(lines: Seq<Seq<char>>, i: int)
    requires
        0 <= i < lines.len(),
    ensures
        occurs_in(lines[i], join_lines(lines)),
    decreases lines.len(),
{
    let j = join_lines(lines);
    reveal_strlit("\n");
    if lines.len() == 1 {
        assert(i == 0);
        assert(j.subrange(0, lines[0].len() as int) =~= lines[0]);
        assert(j.subrange(0int, 0int + lines[i].len()) == lines[i]);
    } else if i == lines.len() - 1 {
        let h = join_lines(lines.drop_last());
        let p: int = h.len() as int + 1;
        assert(j == h + "\n"@ + lines.last());
        assert(lines.last() == lines[i]);
        assert(j.subrange(p, p + lines[i].len()) =~= lines[i]);
        assert(p + lines[i].len() <= j.len());
    } else {
        let init = lines.drop_last();
        lemma_join_contains(init, i);
        assert(init[i] == lines[i]);
        let h = join_lines(init);
        let p = choose|p: int|
            0 <= p && p + lines[i].len() <= h.len() && #[trigger] h.subrange(p, p + lines[i].len())
                == lines[i];
        assert(j == h + "\n"@ + lines.last());
        assert(j.subrange(p, p + lines[i].len()) =~= h.subrange(p, p + lines[i].len()));
        assert(j.subrange(p, p + lines[i].len()) == lines[i]);
    }
}

/// Builds the message put to the model for a question.
pub fn llm_prompt(question: &Question) -> (r: String)
    ensures
        r@ == llm_prompt_text(question@),
        r@ == LLM_INSTRUCTIONS@ + "\n\n"@ + "Question: "@ + question@.text + "\n\nChoices:\n"@
            + join_lines(numbered_choices(question@.answers)) + "\n\nPick the correct answer."@,
        forall|i: int|
            0 <= i < question@.answers.len() ==> occurs_in(
                #[trigger] numbered_choices(question@.answers)[i],
                r@,
            ),
{
    let mut s = String::new();
    push_str(&mut s, LLM_INSTRUCTIONS);
    push_str(&mut s, "\n\n");
    push_str(&mut s, "Question: ");
    push_str(&mut s, question.text.as_str());
    push_str(&mut s, "\n\nChoices:\n");
    let ghost head = s@;
    let ghost answers = answers_view(question.answers@);
    let mut i: usize = 0;
    while i < question.answers.len()
        invariant
            answers == answers_view(question.answers@),
            i <= question.answers@.len(),
            s@ == head + choice_lines(answers, i as nat),
        decreases question.answers@.len() - i,
    {
        if i > 0 {
            push_str(&mut s, "\n");
        }
        push_decimal(&mut s, i as u64);
        push_str(&mut s, ". ");
        push_str(&mut s, question.answers[i].text.as_str());
        assert(answers[i as int].text == question.answers@[i as int].text@);
        i = i + 1;
        assert(s@ =~= head + choice_lines(answers, i as nat));
    }
    let ghost before_tail = s@;
    push_str(&mut s, "\n\nPick the correct answer.");
    assert(s@ =~= llm_prompt_text(question@));
    proof {
        let n = answers.len();
        lemma_choice_lines_are_numbered(answers, n);
        let lines = numbered_choices(answers);
        assert(lines.take(n as int) =~= lines);
        assert(s@ =~= head + join_lines(lines) + "\n\nPick the correct answer."@);
        assert forall|k: int| 0 <= k < n implies occurs_in(#[trigger] lines[k], s@) by {
            lemma_join_contains(lines, k);
            let j = join_lines(lines);
            let p = choose|p: int|
                0 <= p && p + lines[k].len() <= j.len() && #[trigger] j.subrange(p, p + lines[k].len())
                    == lines[k];
            let q = head.len() + p;
            assert(s@.subrange(q, q + lines[k].len()) =~= j.subrange(p, p + lines[k].len()));
        }
    }
    s
}

/// Builds the request that asks the given model about a question.
pub fn build_llm_payload(model_name: &str, question: &Question) -> (r: LlmPayload)
    ensures
        r.model@ == model_name@,
        r.max_tokens == LLM_MAX_TOKENS,
        r.role@ == "user"@,
        r.content@ == llm_prompt_text(question@),
        r.content@ == LLM_INSTRUCTIONS@ + "\n\n"@ + "Question: "@ + question@.text + "\n\nChoices:\n"@
            + join_lines(numbered_choices(question@.answers)) + "\n\nPick the correct answer."@,
        forall|i: int|
            0 <= i < question@.answers.len() ==> occurs_in(
                #[trigger] numbered_choices(question@.answers)[i],
                r.content@,
            ),
{
    let mut model = String::new();
    push_str(&mut model, model_name);
    let mut role = String::new();
    push_str(&mut role, "user");
    LlmPayload { model, max_tokens: LLM_MAX_TOKENS, role, content: llm_prompt(question) }
}

/// The text of the model's reply, `content[0].text`, trimmed; empty where it
/// is missing.
pub open spec fn reply_text(body: JsonData) -> Seq<char> {
    trim(
        match array_of(field(body, "content"@)) {
            Some(a) => if a.len() > 0 {
                str_or_empty(field(a[0], "text"@))
            } else {
                Seq::empty()
            },
            None => Seq::empty(),
        },
    )
}

/// A reply with its Markdown code fences removed: leading ```` ```json ````
/// and ```` ``` ```` fences, trailing ```` ``` ```` fences, then white space.
pub open spec fn without_fences(t: Seq<char>) -> Seq<char> {
    trim(strip_suffixes(strip_prefixes(strip_prefixes(t, "```json"@), "```"@), "```"@))
}

/// The answer index a parsed reply names; 0 where it names none.
pub open spec fn reply_index(d: JsonData) -> usize {
    match u64_of(field(d, "answer_index"@)) {
        Some(u) => u as usize,
        None => 0,
    }
}

/// Why the model's reply gave no answer.
#[derive(Debug, Clone, Copy, PartialEq, Eq, Structural)]
pub enum LlmError {
    /// The reply text is not a JSON document.
    InvalidJson,
    /// The reply names an answer that the question does not have.
    IndexOutOfBounds(usize),
}

/// What a reply body means for a question with `count` answers.
pub open spec fn reply_outcome(body: JsonData, count: nat) -> Result<usize, LlmError> {
    match json_text_parse(without_fences(reply_text(body))) {
        None => Err(LlmError::InvalidJson),
        Some(d) => if (reply_index(d) as nat) < count {
            Ok(reply_index(d))
        } else {
            Err(LlmError::IndexOutOfBounds(reply_index(d)))
        },
    }
}

/// A reply that parses, and whose `answer_index` names one of the answers,
/// is accepted with that index; a reply without `answer_index` is accepted
/// as the first answer; an accepted index is always one of the answers.
pub proof fn lemma_reply_in_range_accepted(body: JsonData, count: nat, d: JsonData)
    requires
        json_text_parse(without_fences(reply_text(body))) == Some(d),
    ensures
        match u64_of(field(d, "answer_index"@)) {
            Some(k) => (k as usize) < count ==> reply_outcome(body, count) == Ok::<usize, LlmError>(
                k as usize,
            ),
            None => 0 < count ==> reply_outcome(body, count) == Ok::<usize, LlmError>(0),
        },
        reply_outcome(body, count) matches Ok(i) ==> i < count,
{
}

/// The model's answer: the index it chose and its parsed reply.
pub struct LlmVerdict {
    pub answer_index: usize,
    pub reply: serde_json::Value,
}

/// The trimmed text of the model's reply.
fn reply_text_of(body: &serde_json::Value) -> (r: String)
    ensures
        r@ == reply_text(json_data(*body)),
{
    let raw: &str = match get_array(body, "content") {
        Some(a) => if a.len() > 0 {
            match get_str(&a[0], "text") {
                Some(t) => t,
                None => "",
            }
        } else {
            ""
        },
        None => "",
    };
    proof {
        reveal_strlit("");
        match array_of(field(json_data(*body), "content"@)) {
            Some(a) => if a.len() > 0 {
                assert(raw@ == str_or_empty(field(a[0], "text"@)));
            } else {
                assert(raw@ =~= Seq::<char>::empty());
            },
            None => {
                assert(raw@ =~= Seq::<char>::empty());
            },
        }
    }
    trim_str(raw)
}

/// The reply with its code fences removed.
pub fn strip_code_fences(text: &str) -> (r: String)
    ensures
        r@ == without_fences(text@),
{
    proof {
        reveal_strlit("```json");
        reveal_strlit("```");
    }
    let a = strip_prefixes_str(text, "```json");
    let b = strip_prefixes_str(a.as_str(), "```");
    let c = strip_suffixes_str(b.as_str(), "```");
    trim_str(c.as_str())
}

/// Reads the model's reply for a question with `answer_count` answers: the
/// reply text is stripped of code fences and parsed as JSON; its
/// `answer_index` (0 where missing) must name one of the answers.
pub fn interpret_llm_reply(body: &serde_json::Value, answer_count: usize) -> (r: Result<LlmVerdict, LlmError>)
    ensures
        match r {
            Ok(v) => reply_outcome(json_data(*body), answer_count as nat) == Ok::<usize, LlmError>(
                v.answer_index,
            ) && json_text_parse(without_fences(reply_text(json_data(*body)))) == Some(
                json_data(v.reply),
            ),
            Err(e) => reply_outcome(json_data(*body), answer_count as nat) == Err::<usize, LlmError>(
                e,
            ),
        },
        match json_text_parse(without_fences(reply_text(json_data(*body)))) {
            Some(d) => match u64_of(field(d, "answer_index"@)) {
                Some(k) => (k as usize) < answer_count ==> (r matches Ok(v) && v.answer_index == k as usize),
                None => 0 < answer_count ==> (r matches Ok(v) && v.answer_index == 0),
            },
            None => r is Err && r->Err_0 == LlmError::InvalidJson,
        },
        r matches Ok(v) ==> v.answer_index < answer_count,
{
    let text = reply_text_of(body);
    let clean = strip_code_fences(text.as_str());
    let parsed = match parse_json(clean.as_str()) {
        Some(v) => v,
        None => return Err(LlmError::InvalidJson),
    };
    match reply_index_outcome(&parsed, answer_count) {
        Ok(idx) => Ok(LlmVerdict { answer_index: idx, reply: parsed }),
        Err(e) => Err(e),
    }
}

/// The answer a parsed reply names for a question with `answer_count`
/// answers: its `answer_index` (0 where missing), which must be one of the
/// answers.
pub fn reply_index_outcome(parsed: &serde_json::Value, answer_count: usize) -> (r: Result<usize, LlmError>)
    ensures
        (reply_index(json_data(*parsed)) as nat) < answer_count ==> r == Ok::<usize, LlmError>(
            reply_index(json_data(*parsed)),
        ),
        (reply_index(json_data(*parsed)) as nat) >= answer_count ==> r == Err::<usize, LlmError>(
            LlmError::IndexOutOfBounds(reply_index(json_data(*parsed))),
        ),
        match u64_of(field(json_data(*parsed), "answer_index"@)) {
            Some(k) => (k as usize) < answer_count ==> r == Ok::<usize, LlmError>(k as usize),
            None => 0 < answer_count ==> r == Ok::<usize, LlmError>(0),
        },
        r matches Ok(i) ==> i < answer_count,
{
    let idx: usize = match get_u64(parsed, "answer_index") {
        Some(u) => u as usize,
        None => 0,
    };
    if idx >= answer_count {
        return Err(LlmError::IndexOutOfBounds(idx));
    }
    Ok(idx)
}

/// The line of answer `i` in a hint: a check mark before the chosen answer.
pub open spec fn hint_line(i: nat, text: Seq<char>, chosen: bool) -> Seq<char> {
    "  "@ + (if chosen { "✅"@ } else { "  "@ }) + " "@ + decimal(i) + ". "@ + text
}

/// The answer lines of a hint for the first `n` answers, each after a newline.
pub open spec fn hint_lines(answers: Seq<AnswerView>, n: nat, chosen: nat) -> Seq<char>
    decreases n,
{
    if n == 0 {
        Seq::empty()
    } else {
        hint_lines(answers, (n - 1) as nat, chosen) + "\n"@ + hint_line(
            (n - 1) as nat,
            answers[n - 1].text,
            n - 1 == chosen,
        )
    }
}

/// A hint up to its confidence line: the question, a blank line, every
/// answer with the chosen one marked, and a blank line.
pub open spec fn hint_body(q: QuestionView, chosen: nat) -> Seq<char> {
    "\n❓ "@ + q.text + "\n"@ + hint_lines(q.answers, q.answers.len(), chosen) + "\n\n"@
}

/// Formats a question for hint mode, up to the confidence line that follows.
pub fn format_hint_body(question: &Question, answer_idx: usize) -> (r: String)
    ensures
        r@ == hint_body(question@, answer_idx as nat),
{
    let mut s = String::new();
    push_str(&mut s, "\n❓ ");
    push_str(&mut s, question.text.as_str());
    push_str(&mut s, "\n");
    let ghost head = s@;
    let ghost answers = answers_view(question.answers@);
    let mut i: usize = 0;
    while i < question.answers.len()
        invariant
            answers == answers_view(question.answers@),
            i <= question.answers@.len(),
            s@ == head + hint_lines(answers, i as nat, answer_idx as nat),
        decreases question.answers@.len() - i,
    {
        push_str(&mut s, "\n");
        push_str(&mut s, "  ");
        if i == answer_idx {
            push_str(&mut s, "✅");
        } else {
            push_str(&mut s, "  ");
        }
        push_str(&mut s, " ");
        push_decimal(&mut s, i as u64);
        push_str(&mut s, ". ");
        push_str(&mut s, question.answers[i].text.as_str());
        assert(answers[i as int].text == question.answers@[i as int].text@);
        i = i + 1;
        assert(s@ =~= head + hint_lines(answers, i as nat, answer_idx as nat));
    }
    push_str(&mut s, "\n\n");
    assert(s@ =~= hint_body(question@, answer_idx as nat));
    s
}

/// The pieces of a text separated by `sep` (`str::split` with a character).
pub open spec fn split_on(s: Seq<char>, sep: char) -> Seq<Seq<char>>
    decreases s.len(),
{
    if s.len() == 0 {
        seq![Seq::empty()]
    } else {
        let p = split_on(s.drop_last(), sep);
        if s.last() == sep {
            p.push(Seq::empty())
        } else {
            p.update(p.len() - 1, p.last().push(s.last()))
        }
    }
}

/// A split always has at least one piece.
pub proof fn lemma_split_nonempty(s: Seq<char>, sep: char)
    ensures
        split_on(s, sep).len() >= 1,
    decreases s.len(),
{
    if s.len() > 0 {
        lemma_split_nonempty(s.drop_last(), sep);
    }
}

/// The answers given on the command line: the comma-separated pieces,
/// trimmed, numbered from 0, none marked correct.
pub open spec fn cli_answers(choices: Seq<char>) -> Seq<AnswerView> {
    let pieces = split_on(choices, ',');
    Seq::new(pieces.len(), |i: int| AnswerView { index: i as usize, text: trim(pieces[i]), is_correct: false })
}

/// The pieces of a text separated by commas.
fn split_commas(s: &str) -> (r: Vec<String>)
    ensures
        r@.map_values(|p: String| p@) == split_on(s@, ','),
{
    let cs = chars_of(s);
    let mut pieces: Vec<String> = Vec::new();
    let mut cur = String::new();
    let mut i: usize = 0;
    proof {
        lemma_split_nonempty(Seq::<char>::empty(), ',');
    }
    while i < cs.len()
        invariant
            cs@ == s@,
            i <= cs@.len(),
            pieces@.map_values(|p: String| p@).push(cur@) == split_on(cs@.take(i as int), ','),
        decreases cs@.len() - i,
    {
        let c = cs[i];
        let ghost prev = split_on(cs@.take(i as int), ',');
        assert(cs@.take(i + 1).drop_last() =~= cs@.take(i as int));
        if c == ',' {
            let mut next = String::new();
            std::mem::swap(&mut next, &mut cur);
            let ghost before = pieces@.map_values(|p: String| p@);
            pieces.push(next);
            assert(pieces@.map_values(|p: String| p@) =~= before.push(next@));
        } else {
            push_char(&mut cur, c);
            let ghost before = pieces@.map_values(|p: String| p@);
            assert(before.push(cur@) =~= prev.update(prev.len() - 1, prev.last().push(c)));
        }
        i = i + 1;
        assert(pieces@.map_values(|p: String| p@).push(cur@) =~= split_on(cs@.take(i as int), ','));
    }
    assert(cs@.take(i as int) =~= s@);
    let ghost before = pieces@.map_values(|p: String| p@);
    pieces.push(cur);
    assert(pieces@.map_values(|p: String| p@) =~= before.push(cur@));
    pieces
}

/// The question asked from the command line: id `cli`, the given text, and
/// the comma-separated choices, trimmed, none known to be correct.
pub fn question_from_cli(text: &str, choices: &str) -> (r: Question)
    ensures
        r@.id == "cli"@,
        r@.text == text@,
        r@.answers == cli_answers(choices@),
        r@.correct_index is None,
        r@.question_type == QuestionType::MultipleChoice,
        r@.time_limit is None,
{
    let pieces = split_commas(choices);
    let ghost ps = split_on(choices@, ',');
    let mut answers: Vec<Answer> = Vec::new();
    let mut i: usize = 0;
    while i < pieces.len()
        invariant
            pieces@.map_values(|p: String| p@) == ps,
            ps == split_on(choices@, ','),
            i <= pieces@.len(),
            answers_view(answers@) =~= cli_answers(choices@).take(i as int),
        decreases pieces@.len() - i,
    {
        let t = trim_str(pieces[i].as_str());
        assert(pieces@[i as int]@ == ps[i as int]);
        assert(ps.len() == pieces@.len());
        let ghost want = AnswerView { index: i, text: trim(ps[i as int]), is_correct: false };
        assert(cli_answers(choices@)[i as int] == want);
        let ghost before = answers_view(answers@);
        answers.push(Answer { index: i, text: t, is_correct: false });
        assert(answers_view(answers@) =~= before.push(want));
        i = i + 1;
        assert(answers_view(answers@) =~= cli_answers(choices@).take(i as int));
    }
    assert(cli_answers(choices@).take(i as int) =~= cli_answers(choices@));
    let mut id = String::new();
    push_str(&mut id, "cli");
    let mut t = String::new();
    push_str(&mut t, text);
    Question {
        id,
        text: t,
        answers,
        correct_index: None,
        question_type: QuestionType::MultipleChoice,
        time_limit: None,
    }
}

} // verus!
