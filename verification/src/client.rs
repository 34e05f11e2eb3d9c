//! The Blooket service: its endpoints, the reading of its replies, and the
//! parsing of question sets.

use vstd::prelude::*;
use crate::json::{
    JsonData, json_data, field, field_or, str_of, str_or_empty, bool_or_false, u64_of, array_of,
    data_of_all, get_str, get_str_either, get_bool_or_false, get_u64, get_array,
};
use crate::text::{lowercase, decimal, push_str, push_decimal, str_eq, to_lowercase};
use crate::types::{Answer, AnswerView, Question, QuestionView, QuestionType, answers_view, questions_view};

verus! {

/// The base address of the Blooket REST service.
pub const BLOOKET_API: &'static str = "https://fb-rest.blooket.com";

/// The base address of the Blooket database service.
pub const BLOOKET_DB: &'static str = "https://fb-db.blooket.com";

/// An HTTP status in the success class (200 to 299).
pub open spec fn is_success(status: u16) -> bool {
    200 <= status <= 299
}

/// A refusal by the service.
#[derive(Debug, Clone, Copy, PartialEq, Eq, Structural)]
pub enum ClientError {
    /// The PIN lookup failed: the PIN is invalid or the game is not active.
    InvalidPin(u16),
    /// The service refused to let the player join.
    JoinRejected(u16),
}

/// The answer a question set gives at index `j` of a question's choices.
pub open spec fn answer_from_data(c: JsonData, j: int) -> AnswerView {
    AnswerView {
        index: j as usize,
        text: str_or_empty(field_or(c, "answer"@, "text"@)),
        is_correct: bool_or_false(field(c, "correct"@)),
    }
}

/// The answer choices of a question in a question set.
pub open spec fn answers_from_data(q: JsonData) -> Seq<AnswerView> {
    match array_of(field(q, "answers"@)) {
        Some(cs) => Seq::new(cs.len(), |j: int| answer_from_data(cs[j], j)),
        None => Seq::empty(),
    }
}

/// The index of the last answer marked correct.
pub open spec fn last_correct(answers: Seq<AnswerView>) -> Option<usize>
    decreases answers.len(),
{
    if answers.len() == 0 {
        None
    } else if answers.last().is_correct {
        Some((answers.len() - 1) as usize)
    } else {
        last_correct(answers.drop_last())
    }
}

/// The kind of a question, from its answers: two answers one of which reads
/// "true" in lowercase make a true/false question, no answers a typed one.
pub open spec fn classify(answers: Seq<AnswerView>) -> QuestionType {
    if answers.len() == 2 && (lowercase(answers[0].text) == "true"@ || lowercase(answers[1].text)
        == "true"@) {
        QuestionType::TrueFalse
    } else if answers.len() == 0 {
        QuestionType::TypeAnswer
    } else {
        QuestionType::MultipleChoice
    }
}

/// The text of a question (member `question`, else `text`).
pub open spec fn question_text(q: JsonData) -> Seq<char> {
    str_or_empty(field_or(q, "question"@, "text"@))
}

/// The id of the question at index `i`: its `id` member, else `q<i>`.
pub open spec fn question_id(q: JsonData, i: nat) -> Seq<char> {
    match str_of(field(q, "id"@)) {
        Some(s) => s,
        None => "q"@ + decimal(i),
    }
}

/// The time limit of a question, `timeLimit` cut to 32 bits.
pub open spec fn time_limit_of(q: JsonData) -> Option<u32> {
    match u64_of(field(q, "timeLimit"@)) {
        Some(t) => Some(t as u32),
        None => None,
    }
}

/// The question that a question set gives at index `i`.
pub open spec fn question_from_data(q: JsonData, i: nat) -> QuestionView {
    let answers = answers_from_data(q);
    QuestionView {
        id: question_id(q, i),
        text: question_text(q),
        answers: answers,
        correct_index: last_correct(answers),
        question_type: classify(answers),
        time_limit: time_limit_of(q),
    }
}

/// The questions among the first `n` entries of a question set; entries
/// without text are skipped.
pub open spec fn questions_from_entries(qs: Seq<JsonData>, n: nat) -> Seq<QuestionView>
    decreases n,
{
    if n == 0 {
        Seq::empty()
    } else {
        let prev = questions_from_entries(qs, (n - 1) as nat);
        if question_text(qs[n - 1]).len() == 0 {
            prev
        } else {
            prev.push(question_from_data(qs[n - 1], (n - 1) as nat))
        }
    }
}

/// The questions of a question set document.
pub open spec fn question_set(data: JsonData) -> Seq<QuestionView> {
    match array_of(field(data, "questions"@)) {
        Some(qs) => questions_from_entries(qs, qs.len()),
        None => Seq::empty(),
    }
}

/// A question whose stated correct answer is one of its choices, whose
/// choices are numbered by their position, and whose kind fits its choices.
pub open spec fn well_formed_question(q: QuestionView) -> bool {
    &&& forall|k: int| 0 <= k < q.answers.len() ==> #[trigger] q.answers[k].index == k
    &&& q.correct_index matches Some(c) ==> c < q.answers.len() && q.answers[c as int].is_correct
    &&& q.correct_index matches Some(c) ==> forall|k: int|
        c < k < q.answers.len() ==> !(#[trigger] q.answers[k].is_correct)
    &&& q.correct_index is None ==> forall|k: int|
        0 <= k < q.answers.len() ==> !(#[trigger] q.answers[k].is_correct)
    &&& (q.question_type == QuestionType::TypeAnswer) == (q.answers.len() == 0)
    &&& q.question_type == QuestionType::TrueFalse ==> q.answers.len() == 2
}

/// A well-formed question with a non-empty text.
pub open spec fn parsed_question_ok(q: QuestionView) -> bool {
    well_formed_question(q) && q.text.len() > 0
}

/// The correct index is the last answer marked correct: it is one of the
/// answers, it is marked correct, no later answer is marked correct, and it
/// is missing only where no answer at all is marked correct.
pub proof fn lemma_last_correct(a: Seq<AnswerView>)
    requires
        a.len() <= usize::MAX,
    ensures
        last_correct(a) matches Some(c) ==> c < a.len() && a[c as int].is_correct,
        last_correct(a) matches Some(c) ==> forall|k: int|
            c < k < a.len() ==> !(#[trigger] a[k].is_correct),
        last_correct(a) is None ==> forall|k: int| 0 <= k < a.len() ==> !(#[trigger] a[k].is_correct),
    decreases a.len(),
{
    if a.len() > 0 {
        let p = a.drop_last();
        lemma_last_correct(p);
        if !a.last().is_correct {
            assert forall|k: int| 0 <= k < a.len() - 1 implies #[trigger] a[k].is_correct == p[k].is_correct by {}
        }
    }
}

/// An answer marked correct is never lost: wherever answer `k` is marked
/// correct, the correct index is known, is at least `k`, and names an answer
/// marked correct.
pub proof fn lemma_marked_answer_known(a: Seq<AnswerView>, k: int)
    requires
        a.len() <= usize::MAX,
        0 <= k < a.len(),
        a[k].is_correct,
    ensures
        last_correct(a) matches Some(c) && k <= c < a.len() && a[c as int].is_correct,
{
    lemma_last_correct(a);
}

/// The string value of a member, or the empty string.
fn str_member_or_empty(v: &serde_json::Value, first: &str, second: &str) -> (r: String)
    ensures
        r@ == str_or_empty(field_or(json_data(*v), first@, second@)),
{
    match get_str_either(v, first, second) {
        Some(s) => {
            let mut r = String::new();
            push_str(&mut r, s);
            r
        },
        None => String::new(),
    }
}

/// Whether a text reads "true" once lowercased (its `str::to_lowercase`
/// form is exactly `true`).
pub fn text_reads_true(s: &str) -> (r: bool)
    ensures
        r == (lowercase(s@) == "true"@),
{
    let low = to_lowercase(s);
    str_eq(low.as_str(), "true")
}

/// The kind of a question with the given answers.
pub fn classify_answers(answers: &Vec<Answer>) -> (r: QuestionType)
    ensures
        r == classify(answers_view(answers@)),
{
    if answers.len() == 2 && (text_reads_true(answers[0].text.as_str()) || text_reads_true(answers[1].text.as_str())) {
        QuestionType::TrueFalse
    } else if answers.len() == 0 {
        QuestionType::TypeAnswer
    } else {
        QuestionType::MultipleChoice
    }
}

/// The time limit of a question entry.
fn time_limit_member(q: &serde_json::Value) -> (r: Option<u32>)
    ensures
        r == time_limit_of(json_data(*q)),
{
    match get_u64(q, "timeLimit") {
        Some(t) => Some(t as u32),
        None => None,
    }
}

/// The answer choices of a question entry, with the index of the last one
/// marked correct.
fn parse_choices(q: &serde_json::Value) -> (r: (Vec<Answer>, Option<usize>))
    ensures
        answers_view(r.0@) == answers_from_data(json_data(*q)),
        r.1 == last_correct(answers_from_data(json_data(*q))),
        forall|k: int| 0 <= k < r.0@.len() ==> #[trigger] r.0@[k].index == k,
{
    let mut answers: Vec<Answer> = Vec::new();
    let mut correct_index: Option<usize> = None;
    match get_array(q, "answers") {
        Some(choices) => {
            let ghost cs = data_of_all(choices@);
            let mut j: usize = 0;
            while j < choices.len()
                invariant
                    cs == data_of_all(choices@),
                    j <= choices@.len(),
                    answers_view(answers@) =~= Seq::new(
                        j as nat,
                        |k: int| answer_from_data(cs[k], k),
                    ),
                    correct_index == last_correct(answers_view(answers@)),
                    answers@.len() == j,
                    forall|k: int| 0 <= k < answers@.len() ==> #[trigger] answers@[k].index == k,
                decreases choices@.len() - j,
            {
                let choice = &choices[j];
                let text = str_member_or_empty(choice, "answer", "text");
                let is_correct = get_bool_or_false(choice, "correct");
                if is_correct {
                    correct_index = Some(j);
                }
                let ghost before = answers_view(answers@);
                answers.push(Answer { index: j, text, is_correct });
                assert(answers_view(answers@) =~= before.push(answer_from_data(cs[j as int], j as int)));
                assert(answers_view(answers@).drop_last() =~= before);
                j = j + 1;
            }
        },
        None => {
            assert(answers_view(answers@) =~= Seq::<AnswerView>::empty());
        },
    }
    (answers, correct_index)
}

/// The id of the question entry at index `i`.
fn question_id_member(q: &serde_json::Value, i: usize) -> (r: String)
    ensures
        r@ == question_id(json_data(*q), i as nat),
{
    match get_str(q, "id") {
        Some(s) => {
            let mut r = String::new();
            push_str(&mut r, s);
            r
        },
        None => {
            let mut r = String::new();
            push_str(&mut r, "q");
            push_decimal(&mut r, i as u64);
            r
        },
    }
}

/// Parses a Blooket question set document into questions.  Entries without
/// text are skipped; an answer's text is its `answer` member, else its `text`
/// member; the correct index is the last answer marked `correct`.
pub fn parse_question_set(data: &serde_json::Value) -> (r: Vec<Question>)
    ensures
        questions_view(r@) == question_set(json_data(*data)),
        forall|k: int| 0 <= k < r@.len() ==> #[trigger] parsed_question_ok(r@[k]@),
{
    let mut questions: Vec<Question> = Vec::new();
    let qs = match get_array(data, "questions") {
        Some(a) => a,
        None => {
            assert(questions_view(questions@) =~= Seq::<QuestionView>::empty());
            return questions;
        },
    };
    let ghost entries = data_of_all(qs@);
    let mut i: usize = 0;
    while i < qs.len()
        invariant
            entries == data_of_all(qs@),
            i <= qs@.len(),
            questions_view(questions@) == questions_from_entries(entries, i as nat),
            forall|k: int| 0 <= k < questions@.len() ==> #[trigger] parsed_question_ok(questions@[k]@),
        decreases qs@.len() - i,
    {
        let q = &qs[i];
        let ghost d = entries[i as int];
        assert(d == json_data(*q));
        let text = str_member_or_empty(q, "question", "text");
        if !text.as_str().is_empty() {
            let (answers, correct_index) = parse_choices(q);
            let question_type = classify_answers(&answers);
            let id = question_id_member(q, i);
            let time_limit = time_limit_member(q);
            let n_answers = answers.len();
            proof {
                lemma_last_correct(answers_view(answers@));
            }
            let question = Question { id, text, answers, correct_index, question_type, time_limit };
            assert(well_formed_question(question@));
            assert(question@ =~= question_from_data(d, i as nat));
            let ghost before = questions_view(questions@);
            let ghost qv = question@;
            assert(qv.text.len() > 0);
            let ghost old_questions = questions@;
            questions.push(question);
            assert forall|k: int| 0 <= k < questions@.len() implies #[trigger] parsed_question_ok(questions@[k]@) by {
                if k < old_questions.len() {
                    assert(questions@[k] == old_questions[k]);
                } else {
                    assert(questions@[k]@ == qv);
                }
            }
            assert(questions_view(questions@) =~= before.push(question_from_data(d, i as nat)));
        }
        i = i + 1;
    }
    questions
}

/// Whether an HTTP status is in the success class.
pub fn status_is_success(status: u16) -> (r: bool)
    ensures
        r == is_success(status),
{
    200 <= status && status <= 299
}

/// The address that looks a game PIN up.
pub fn pin_lookup_url(pin: &str) -> (r: String)
    ensures
        r@ == BLOOKET_API@ + "/games/pin?pin="@ + pin@,
{
    let mut s = String::new();
    push_str(&mut s, BLOOKET_API);
    push_str(&mut s, "/games/pin?pin=");
    push_str(&mut s, pin);
    s
}

/// The address of a public question set.
pub fn question_set_url(set_id: &str) -> (r: String)
    ensures
        r@ == BLOOKET_API@ + "/sets/public?id="@ + set_id@,
{
    let mut s = String::new();
    push_str(&mut s, BLOOKET_API);
    push_str(&mut s, "/sets/public?id=");
    push_str(&mut s, set_id);
    s
}

/// The address that joins a game.
pub fn join_url() -> (r: String)
    ensures
        r@ == BLOOKET_API@ + "/games/join"@,
{
    let mut s = String::new();
    push_str(&mut s, BLOOKET_API);
    push_str(&mut s, "/games/join");
    s
}

/// The address that answers are submitted to.
pub fn answer_url() -> (r: String)
    ensures
        r@ == BLOOKET_API@ + "/games/answer"@,
{
    let mut s = String::new();
    push_str(&mut s, BLOOKET_API);
    push_str(&mut s, "/games/answer");
    s
}

/// The address of the state of a joined game.
pub fn game_state_url(game_token: &str) -> (r: String)
    ensures
        r@ == BLOOKET_API@ + "/games/state?token="@ + game_token@,
{
    let mut s = String::new();
    push_str(&mut s, BLOOKET_API);
    push_str(&mut s, "/games/state?token=");
    push_str(&mut s, game_token);
    s
}

/// Reads the status of a PIN lookup: the game is valid and joinable only on
/// a success status.
pub fn check_pin_status(status: u16) -> (r: Result<(), ClientError>)
    ensures
        r is Ok <==> is_success(status),
        r is Err ==> r == Err::<(), ClientError>(ClientError::InvalidPin(status)),
{
    if status_is_success(status) {
        Ok(())
    } else {
        Err(ClientError::InvalidPin(status))
    }
}

/// The questions a question-set reply gives: none unless the status is a
/// success, else the parsed set.
pub fn questions_from_reply(status: u16, data: &serde_json::Value) -> (r: Vec<Question>)
    ensures
        !is_success(status) ==> r@.len() == 0,
        is_success(status) ==> questions_view(r@) == question_set(json_data(*data)),
{
    if status_is_success(status) {
        parse_question_set(data)
    } else {
        Vec::new()
    }
}

/// The token a join reply gives: the join is refused unless the status is
/// a success; the token is the `token` member, empty where it is missing.
pub fn join_token(status: u16, body: &serde_json::Value) -> (r: Result<String, ClientError>)
    ensures
        match r {
            Ok(t) => is_success(status) && t@ == str_or_empty(field(json_data(*body), "token"@)),
            Err(e) => !is_success(status) && e == ClientError::JoinRejected(status),
        },
{
    if !status_is_success(status) {
        return Err(ClientError::JoinRejected(status));
    }
    match get_str(body, "token") {
        Some(t) => {
            let mut r = String::new();
            push_str(&mut r, t);
            Ok(r)
        },
        None => Ok(String::new()),
    }
}

/// The payload that submits an answer.
#[derive(Debug, Clone)]
pub struct AnswerPayload {
    pub token: String,
    pub question_id: String,
    pub answer: usize,
    pub time_taken: u64,
    pub id: String,
}

/// Builds the payload that submits answer `answer_index` to a question,
/// with the time taken and the player's id.
pub fn build_answer_payload(
    game_token: &str,
    question_id: &str,
    answer_index: usize,
    time_taken_ms: u64,
    player_id: &str,
) -> (r: AnswerPayload)
    ensures
        r.token@ == game_token@,
        r.question_id@ == question_id@,
        r.answer == answer_index,
        r.time_taken == time_taken_ms,
        r.id@ == player_id@,
{
    let mut token = String::new();
    push_str(&mut token, game_token);
    let mut qid = String::new();
    push_str(&mut qid, question_id);
    let mut id = String::new();
    push_str(&mut id, player_id);
    AnswerPayload { token, question_id: qid, answer: answer_index, time_taken: time_taken_ms, id }
}

/// What a PIN lookup says of a game: its question set and its mode.
#[derive(Debug, Clone)]
pub struct GameInfo {
    pub set_id: String,
    pub game_mode: String,
}

/// Reads a PIN lookup reply: `setId` (empty where missing) and `gameMode`
/// (`unknown` where missing).
pub fn game_info_summary(info: &serde_json::Value) -> (r: GameInfo)
    ensures
        r.set_id@ == str_or_empty(field(json_data(*info), "setId"@)),
        r.game_mode@ == (match str_of(field(json_data(*info), "gameMode"@)) {
            Some(m) => m,
            None => "unknown"@,
        }),
{
    let mut set_id = String::new();
    match get_str(info, "setId") {
        Some(s) => push_str(&mut set_id, s),
        None => {},
    }
    let mut game_mode = String::new();
    match get_str(info, "gameMode") {
        Some(m) => push_str(&mut game_mode, m),
        None => push_str(&mut game_mode, "unknown"),
    }
    GameInfo { set_id, game_mode }
}

/// A string member, or `?` where it is missing.
pub open spec fn str_or_question_mark(d: JsonData, key: Seq<char>) -> Seq<char> {
    match str_of(field(d, key)) {
        Some(s) => s,
        None => "?"@,
    }
}

/// What a PIN check reports of a game: its mode and its host, `?` where the
/// lookup reply does not say.
pub fn pin_check_summary(info: &serde_json::Value) -> (r: (String, String))
    ensures
        r.0@ == str_or_question_mark(json_data(*info), "gameMode"@),
        r.1@ == str_or_question_mark(json_data(*info), "host"@),
{
    let mut mode = String::new();
    match get_str(info, "gameMode") {
        Some(m) => push_str(&mut mode, m),
        None => push_str(&mut mode, "?"),
    }
    let mut host = String::new();
    match get_str(info, "host") {
        Some(h) => push_str(&mut host, h),
        None => push_str(&mut host, "?"),
    }
    (mode, host)
}

/// Whether a game's question set is to be fetched: only where the game
/// names one.
pub fn should_fetch_questions(set_id: &str) -> (r: bool)
    ensures
        r == (set_id@.len() > 0),
{
    !set_id.is_empty()
}

} // verus!
