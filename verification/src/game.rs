//! The decisions of the game loop: reading the live question out of a game
//! snapshot, what to do after each poll, how to answer in each mode, and how
//! a graded answer changes the score.

use vstd::prelude::*;
use crate::json::{JsonData, json_data, field, field_or, str_of, str_or_empty, bool_or_false,
    i64_of, array_of, data_of_all, get_str, get_str_either, get_bool_or_false, get_i64, get_array,
    json_get};
use crate::text::{push_str, str_eq, take_chars};
use crate::types::{AutoMode, Answer, AnswerView, Question, QuestionView, QuestionType, GameState,
    answers_view, questions_view, opt_question_view};
use crate::client::time_limit_of;
use crate::crypto::{human_delay_ms, jittered_delay, delay_base_ok};

verus! {

/// Pause after a failed poll, in milliseconds.
pub const POLL_RETRY_MS: u64 = 500;

/// Pause when the snapshot shows no question, in milliseconds.
pub const NO_QUESTION_WAIT_MS: u64 = 300;

/// Pause when the snapshot still shows the question just answered.
pub const SAME_QUESTION_WAIT_MS: u64 = 200;

/// Pause after showing a hint, in milliseconds.
pub const HINT_PAUSE_MS: u64 = 2000;

/// Answer delay in speed mode, in milliseconds: none.
pub const SPEED_DELAY_MS: u64 = 0;

/// A live answer choice, numbered by its position; its correctness is unknown.
pub open spec fn live_answer(a: JsonData, i: int) -> AnswerView {
    AnswerView {
        index: i as usize,
        text: str_or_empty(field_or(a, "answer"@, "text"@)),
        is_correct: false,
    }
}

/// The first pre-fetched question with the given id.
pub open spec fn find_prefetched(pre: Seq<QuestionView>, id: Seq<char>) -> Option<QuestionView>
    decreases pre.len(),
{
    if pre.len() == 0 {
        None
    } else if pre[0].id == id {
        Some(pre[0])
    } else {
        find_prefetched(pre.drop_first(), id)
    }
}

/// The question a game snapshot shows: its `currentQuestion` must have a
/// string `id`; a pre-fetched question with that id is taken as it is;
/// otherwise the question needs a string `question` and an `answers` array,
/// and its correct answer is unknown.
pub open spec fn snapshot_question(state: JsonData, pre: Seq<QuestionView>) -> Option<QuestionView> {
    match field(state, "currentQuestion"@) {
        None => None,
        Some(qd) => match str_of(field(qd, "id"@)) {
            None => None,
            Some(id) => match find_prefetched(pre, id) {
                Some(q) => Some(q),
                None => match str_of(field(qd, "question"@)) {
                    None => None,
                    Some(text) => match array_of(field(qd, "answers"@)) {
                        None => None,
                        Some(raw) => Some(
                            QuestionView {
                                id: id,
                                text: text,
                                answers: Seq::new(raw.len(), |i: int| live_answer(raw[i], i)),
                                correct_index: None,
                                question_type: QuestionType::MultipleChoice,
                                time_limit: time_limit_of(qd),
                            },
                        ),
                    },
                },
            },
        },
    }
}

/// The first pre-fetched question with an id is one of the pre-fetched
/// questions, has that id, and no earlier one has it; there is none only
/// where no pre-fetched question has that id.
pub proof fn lemma_find_prefetched(pre: Seq<QuestionView>, id: Seq<char>)
    ensures
        match find_prefetched(pre, id) {
            Some(q) => exists|k: int|
                0 <= k < pre.len() && #[trigger] pre[k] == q && q.id == id && forall|j: int|
                    0 <= j < k ==> (#[trigger] pre[j]).id != id,
            None => forall|k: int| 0 <= k < pre.len() ==> (#[trigger] pre[k]).id != id,
        },
    decreases pre.len(),
{
    if pre.len() > 0 {
        let rest = pre.drop_first();
        lemma_find_prefetched(rest, id);
        if pre[0].id != id {
            match find_prefetched(rest, id) {
                Some(q) => {
                    let k = choose|k: int|
                        0 <= k < rest.len() && #[trigger] rest[k] == q && q.id == id && forall|j: int|
                            0 <= j < k ==> (#[trigger] rest[j]).id != id;
                    assert(pre[k + 1] == q);
                    assert forall|j: int| 0 <= j < k + 1 implies (#[trigger] pre[j]).id != id by {
                        if j > 0 {
                            assert(pre[j] == rest[j - 1]);
                        }
                    }
                },
                None => {
                    assert forall|k: int| 0 <= k < pre.len() implies (#[trigger] pre[k]).id != id by {
                        if k > 0 {
                            assert(pre[k] == rest[k - 1]);
                        }
                    }
                },
            }
        } else {
            assert(pre[0] == pre[0]);
        }
    }
}

/// What the question a snapshot shows must satisfy: it needs a
/// `currentQuestion` with a string `id`, and has that id; where a pre-fetched
/// question has that id, it is the first such pre-fetched question; otherwise
/// it is there exactly where the snapshot gives a string `question` and an
/// `answers` array, and it then has that text, one answer per element
/// numbered by position, none marked correct, and no known correct answer.
pub open spec fn snapshot_question_laws(state: JsonData, pre: Seq<QuestionView>, r: Option<QuestionView>) -> bool {
    match field(state, "currentQuestion"@) {
        None => r is None,
        Some(qd) => match str_of(field(qd, "id"@)) {
            None => r is None,
            Some(id) => {
                &&& r matches Some(q) ==> q.id == id
                &&& (exists|k: int| 0 <= k < pre.len() && (#[trigger] pre[k]).id == id) ==> (
                r matches Some(q) && exists|k: int|
                    0 <= k < pre.len() && #[trigger] pre[k] == q && forall|j: int|
                        0 <= j < k ==> (#[trigger] pre[j]).id != id)
                &&& (forall|k: int| 0 <= k < pre.len() ==> (#[trigger] pre[k]).id != id) ==> {
                    &&& (r is Some <==> (str_of(field(qd, "question"@)) is Some && array_of(
                        field(qd, "answers"@),
                    ) is Some))
                    &&& r matches Some(q) ==> {
                        &&& str_of(field(qd, "question"@)) == Some(q.text)
                        &&& q.correct_index is None
                        &&& q.answers.len() == array_of(field(qd, "answers"@))->0.len()
                        &&& forall|i: int|
                            0 <= i < q.answers.len() ==> (#[trigger] q.answers[i]).index == i
                                && !q.answers[i].is_correct
                    }
                }
            },
        },
    }
}

/// The question a snapshot shows satisfies `snapshot_question_laws`.
pub proof fn lemma_snapshot_question(state: JsonData, pre: Seq<QuestionView>)
    requires
        snapshot_question(state, pre) matches Some(q) ==> q.answers.len() <= usize::MAX,
    ensures
        snapshot_question_laws(state, pre, snapshot_question(state, pre)),
{
    match field(state, "currentQuestion"@) {
        None => {},
        Some(qd) => match str_of(field(qd, "id"@)) {
            None => {},
            Some(id) => {
                lemma_find_prefetched(pre, id);
            },
        },
    }
}

/// The first pre-fetched question with the given id, copied.
fn find_prefetched_copy(prefetched: &Vec<Question>, id: &str) -> (r: Option<Question>)
    ensures
        opt_question_view(r) == find_prefetched(questions_view(prefetched@), id@),
{
    let ghost pre = questions_view(prefetched@);
    let mut k: usize = 0;
    assert(pre.skip(0) =~= pre);
    while k < prefetched.len()
        invariant
            pre == questions_view(prefetched@),
            k <= prefetched@.len(),
            find_prefetched(pre, id@) == find_prefetched(pre.skip(k as int), id@),
        decreases prefetched@.len() - k,
    {
        assert(pre.skip(k as int)[0] == prefetched@[k as int]@);
        if str_eq(prefetched[k].id.as_str(), id) {
            return Some(prefetched[k].copy());
        }
        assert(pre.skip(k as int).drop_first() =~= pre.skip(k + 1));
        k = k + 1;
    }
    None
}

/// Reads the question a game snapshot shows (see `snapshot_question`).
pub fn extract_question(state: &serde_json::Value, prefetched: &Vec<Question>) -> (r: Option<Question>)
    ensures
        opt_question_view(r) == snapshot_question(json_data(*state), questions_view(prefetched@)),
        snapshot_question_laws(json_data(*state), questions_view(prefetched@), opt_question_view(r)),
{
    let r = read_snapshot_question(state, prefetched);
    let n_answers: usize = match &r {
        Some(q) => q.answers.len(),
        None => 0,
    };
    proof {
        lemma_snapshot_question(json_data(*state), questions_view(prefetched@));
    }
    r
}

/// Reads the question a game snapshot shows.
fn read_snapshot_question(state: &serde_json::Value, prefetched: &Vec<Question>) -> (r: Option<Question>)
    ensures
        opt_question_view(r) == snapshot_question(json_data(*state), questions_view(prefetched@)),
{
    let q_data = match json_get(state, "currentQuestion") {
        Some(q) => q,
        None => return None,
    };
    let q_id = match get_str(q_data, "id") {
        Some(s) => s,
        None => return None,
    };
    match find_prefetched_copy(prefetched, q_id) {
        Some(q) => return Some(q),
        None => {},
    }
    let text = match get_str(q_data, "question") {
        Some(s) => s,
        None => return None,
    };
    let answers_raw = match get_array(q_data, "answers") {
        Some(a) => a,
        None => return None,
    };
    let ghost raw = data_of_all(answers_raw@);
    let mut answers: Vec<Answer> = Vec::new();
    let mut i: usize = 0;
    while i < answers_raw.len()
        invariant
            raw == data_of_all(answers_raw@),
            i <= answers_raw@.len(),
            answers_view(answers@) =~= Seq::new(i as nat, |k: int| live_answer(raw[k], k)),
        decreases answers_raw@.len() - i,
    {
        let a = &answers_raw[i];
        let t = match get_str_either(a, "answer", "text") {
            Some(s) => {
                let mut r = String::new();
                push_str(&mut r, s);
                r
            },
            None => String::new(),
        };
        let ghost before = answers_view(answers@);
        answers.push(Answer { index: i, text: t, is_correct: false });
        assert(answers_view(answers@) =~= before.push(live_answer(raw[i as int], i as int)));
        i = i + 1;
    }
    let time_limit = match crate::json::get_u64(q_data, "timeLimit") {
        Some(t) => Some(t as u32),
        None => None,
    };
    let mut id = String::new();
    push_str(&mut id, q_id);
    let mut t = String::new();
    push_str(&mut t, text);
    Some(
        Question {
            id,
            text: t,
            answers,
            correct_index: None,
            question_type: QuestionType::MultipleChoice,
            time_limit,
        },
    )
}

/// What the loop does after a poll.
pub enum LoopAction {
    /// The game is over.
    Finish,
    /// Poll again after this many milliseconds.
    Wait(u64),
    /// Answer this question, which is now the current one.
    Answer(Question),
}

/// What the loop does after a poll, as values.
pub enum LoopStep {
    Finish,
    Wait(u64),
    Answer(QuestionView),
}

impl View for LoopAction {
    type V = LoopStep;

    open spec fn view(&self) -> LoopStep {
        match self {
            LoopAction::Finish => LoopStep::Finish,
            LoopAction::Wait(ms) => LoopStep::Wait(*ms),
            LoopAction::Answer(q) => LoopStep::Answer(q@),
        }
    }
}

/// The contents of an optional snapshot.
pub open spec fn snapshot_data(s: Option<&serde_json::Value>) -> Option<JsonData> {
    match s {
        Some(v) => Some(json_data(*v)),
        None => None,
    }
}

/// The decision after a poll: a failed poll is retried after 500 ms; a
/// finished game ends the loop; with no question shown the loop waits 300 ms;
/// the question already being answered is skipped after 200 ms; any other
/// question is answered.
pub open spec fn poll_step(current: Option<QuestionView>, snapshot: Option<JsonData>, pre: Seq<QuestionView>) -> LoopStep {
    match snapshot {
        None => LoopStep::Wait(POLL_RETRY_MS),
        Some(d) => if bool_or_false(field(d, "gameOver"@)) {
            LoopStep::Finish
        } else {
            match snapshot_question(d, pre) {
                None => LoopStep::Wait(NO_QUESTION_WAIT_MS),
                Some(q) => if current matches Some(c) && c.id == q.id {
                    LoopStep::Wait(SAME_QUESTION_WAIT_MS)
                } else {
                    LoopStep::Answer(q)
                },
            }
        },
    }
}

/// The fields of the game state that only a graded answer changes are kept.
pub open spec fn same_tally(a: GameState, b: GameState) -> bool {
    &&& a.pin@ == b.pin@
    &&& a.player_name@ == b.player_name@
    &&& a.score == b.score
    &&& a.streak == b.streak
    &&& a.correct == b.correct
    &&& a.incorrect == b.incorrect
    &&& a.game_mode@ == b.game_mode@
    &&& a.host_id == b.host_id
}

/// Decides what to do with the result of a poll (`None` where the poll
/// failed), without changing the state.
pub fn decide_poll(state: &GameState, snapshot: Option<&serde_json::Value>, prefetched: &Vec<Question>) -> (r: LoopAction)
    ensures
        r@ == poll_step(
            opt_question_view(state.current_question),
            snapshot_data(snapshot),
            questions_view(prefetched@),
        ),
        match snapshot {
            Some(v) => bool_or_false(field(json_data(*v), "gameOver"@)) ==> r is Finish,
            None => r@ == LoopStep::Wait(POLL_RETRY_MS),
        },
        r is Finish ==> (snapshot matches Some(v) && bool_or_false(
            field(json_data(*v), "gameOver"@),
        )),
        match r {
            LoopAction::Answer(q) => match state.current_question {
                Some(c) => c.id@ != q.id@,
                None => true,
            },
            _ => true,
        },
{
    let s = match snapshot {
        Some(v) => v,
        None => return LoopAction::Wait(POLL_RETRY_MS),
    };
    if get_bool_or_false(s, "gameOver") {
        return LoopAction::Finish;
    }
    let question = match extract_question(s, prefetched) {
        Some(q) => q,
        None => return LoopAction::Wait(NO_QUESTION_WAIT_MS),
    };
    let repeated = match &state.current_question {
        Some(c) => str_eq(c.id.as_str(), question.id.as_str()),
        None => false,
    };
    if repeated {
        return LoopAction::Wait(SAME_QUESTION_WAIT_MS);
    }
    LoopAction::Answer(question)
}

/// Makes a question the current one and counts it as answered.
pub fn begin_question(state: &mut GameState, question: &Question)
    requires
        old(state).questions_answered < u32::MAX,
    ensures
        same_tally(*old(state), *final(state)),
        opt_question_view(final(state).current_question) == Some(question@),
        final(state).questions_answered == old(state).questions_answered + 1,
        poll_counts(*old(state), *final(state), true),
{
    state.current_question = Some(question.copy());
    state.questions_answered = state.questions_answered + 1;
}

/// The counters after a poll: only the count of questions answered moves,
/// by one where a new question was taken up.
pub open spec fn poll_counts(before: GameState, after: GameState, answered: bool) -> bool {
    &&& after.correct == before.correct
    &&& after.incorrect == before.incorrect
    &&& after.questions_answered == before.questions_answered + (if answered {
        1int
    } else {
        0int
    })
}

/// The counters after a grading: one more correct or one more incorrect
/// answer, and the count of questions answered unchanged.
pub open spec fn grading_counts(before: GameState, after: GameState, correct: bool) -> bool {
    &&& after.questions_answered == before.questions_answered
    &&& if correct {
        after.correct == before.correct + 1 && after.incorrect == before.incorrect
    } else {
        after.incorrect == before.incorrect + 1 && after.correct == before.correct
    }
}

/// No more answers are graded than questions were answered.
pub open spec fn tally_ok(s: GameState) -> bool {
    s.correct + s.incorrect <= s.questions_answered
}

/// Decides what to do with the result of a poll (`None` where the poll
/// failed).  A new question becomes the current one and counts as answered.
pub fn on_poll(state: &mut GameState, snapshot: Option<&serde_json::Value>, prefetched: &Vec<Question>) -> (r: LoopAction)
    requires
        poll_step(
            opt_question_view(old(state).current_question),
            snapshot_data(snapshot),
            questions_view(prefetched@),
        ) is Answer ==> old(state).questions_answered < u32::MAX,
    ensures
        r@ == poll_step(
            opt_question_view(old(state).current_question),
            snapshot_data(snapshot),
            questions_view(prefetched@),
        ),
        same_tally(*old(state), *final(state)),
        match r {
            LoopAction::Answer(q) => {
                &&& opt_question_view(final(state).current_question) == Some(q@)
                &&& final(state).questions_answered == old(state).questions_answered + 1
            },
            _ => {
                &&& opt_question_view(final(state).current_question) == opt_question_view(
                    old(state).current_question,
                )
                &&& final(state).questions_answered == old(state).questions_answered
            },
        },
        poll_counts(*old(state), *final(state), r is Answer),
        tally_ok(*old(state)) ==> tally_ok(*final(state)),
        tally_ok(*old(state)) && r is Answer ==> final(state).correct + final(state).incorrect
            < final(state).questions_answered,
{
    let action = decide_poll(state, snapshot, prefetched);
    match &action {
        LoopAction::Answer(q) => begin_question(state, q),
        _ => {},
    }
    action
}

/// A finished game always ends the loop: whatever the current question and
/// whatever question the snapshot still shows, a snapshot whose `gameOver`
/// is true means `Finish`, and nothing else does.
pub proof fn lemma_game_over_finishes(current: Option<QuestionView>, snapshot: Option<JsonData>, pre: Seq<QuestionView>)
    ensures
        (snapshot matches Some(d) && bool_or_false(field(d, "gameOver"@))) <==> poll_step(
            current,
            snapshot,
            pre,
        ) == LoopStep::Finish,
{
}

/// A question is never answered twice in a row: once a poll has made a
/// question current, the same snapshot only makes the loop wait.
pub proof fn lemma_no_repeat_answer(current: Option<QuestionView>, d: JsonData, pre: Seq<QuestionView>, q: QuestionView)
    requires
        poll_step(current, Some(d), pre) == LoopStep::Answer(q),
    ensures
        poll_step(Some(q), Some(d), pre) == LoopStep::Wait(SAME_QUESTION_WAIT_MS),
{
}

/// How to answer the current question.
#[derive(Debug, Clone, Copy, PartialEq, Eq, Structural)]
pub enum AnswerPlan {
    /// Show a hint, then pause this many milliseconds.
    ShowHint(u64),
    /// Submit the answer after this many milliseconds.
    Submit(u64),
}

/// How a mode answers: hint mode shows a hint and pauses 2 s; speed mode
/// submits at once (no delay); auto mode submits after a human-like delay around
/// the configured base.
pub fn plan_answer(mode: AutoMode, base_delay_ms: u64) -> (r: AnswerPlan)
    requires
        mode == AutoMode::Auto ==> delay_base_ok(base_delay_ms),
    ensures
        mode == AutoMode::Hint ==> r == AnswerPlan::ShowHint(HINT_PAUSE_MS),
        mode == AutoMode::Speed ==> r == AnswerPlan::Submit(SPEED_DELAY_MS),
        mode == AutoMode::Auto ==> (r matches AnswerPlan::Submit(d) && exists|j: int|
            -200 <= j < 400 && d == jittered_delay(base_delay_ms, j)),
{
    match mode {
        AutoMode::Hint => AnswerPlan::ShowHint(HINT_PAUSE_MS),
        AutoMode::Speed => AnswerPlan::Submit(SPEED_DELAY_MS),
        AutoMode::Auto => AnswerPlan::Submit(human_delay_ms(base_delay_ms)),
    }
}

/// Speed mode never answers later than auto mode: every delay auto mode can
/// draw is at least the speed-mode delay.
pub proof fn lemma_speed_is_fastest(base_delay_ms: u64, jitter: int)
    ensures
        jittered_delay(base_delay_ms, jitter) >= SPEED_DELAY_MS,
{
}

/// The grading of a submitted answer.
#[derive(Debug, Clone, Copy, PartialEq, Eq, Structural)]
pub struct AnswerOutcome {
    pub correct: bool,
    pub points: i64,
}

/// Whether a grading reply says the answer was correct (`false` where it
/// does not say).
pub open spec fn reply_correct(d: JsonData) -> bool {
    bool_or_false(field(d, "correct"@))
}

/// The points a grading reply awards (0 where it names none).
pub open spec fn reply_points(d: JsonData) -> i64 {
    match i64_of(field(d, "points"@)) {
        Some(p) => p,
        None => 0,
    }
}

/// Applies the grading of a submitted answer: the points are added to the
/// score; a correct answer counts as correct and extends the streak, a wrong
/// one counts as incorrect and resets the streak.
pub fn record_answer_result(state: &mut GameState, resp: &serde_json::Value) -> (r: AnswerOutcome)
    requires
        i64::MIN <= old(state).score + reply_points(json_data(*resp)) <= i64::MAX,
        reply_correct(json_data(*resp)) ==> old(state).correct < u32::MAX && old(state).streak
            < u32::MAX,
        !reply_correct(json_data(*resp)) ==> old(state).incorrect < u32::MAX,
    ensures
        r.correct == reply_correct(json_data(*resp)),
        r.points == reply_points(json_data(*resp)),
        r.correct == (field(json_data(*resp), "correct"@) == Some(JsonData::Bool(true))),
        r.points == (match i64_of(field(json_data(*resp), "points"@)) {
            Some(p) => p,
            None => 0i64,
        }),
        final(state).score == old(state).score + r.points,
        r.correct ==> final(state).correct == old(state).correct + 1 && final(state).streak == old(
            state,
        ).streak + 1 && final(state).incorrect == old(state).incorrect,
        !r.correct ==> final(state).incorrect == old(state).incorrect + 1 && final(state).streak
            == 0 && final(state).correct == old(state).correct,
        final(state).questions_answered == old(state).questions_answered,
        opt_question_view(final(state).current_question) == opt_question_view(
            old(state).current_question,
        ),
        final(state).pin@ == old(state).pin@,
        final(state).player_name@ == old(state).player_name@,
        final(state).game_mode@ == old(state).game_mode@,
        final(state).host_id == old(state).host_id,
        old(state).streak <= old(state).correct ==> final(state).streak <= final(state).correct,
        grading_counts(*old(state), *final(state), r.correct),
        old(state).correct + old(state).incorrect < old(state).questions_answered ==> tally_ok(
            *final(state),
        ),
{
    let correct = get_bool_or_false(resp, "correct");
    let points = match get_i64(resp, "points") {
        Some(p) => p,
        None => 0,
    };
    state.score = state.score + points;
    if correct {
        state.correct = state.correct + 1;
        state.streak = state.streak + 1;
    } else {
        state.incorrect = state.incorrect + 1;
        state.streak = 0;
    }
    AnswerOutcome { correct, points }
}

/// Characters of a question shown while answering it.
pub const PREVIEW_CHARS: usize = 80;

/// The first 80 characters of a question's text.
pub fn question_preview(question: &Question) -> (r: String)
    ensures
        r@ == question@.text.take(
            if PREVIEW_CHARS < question@.text.len() {
                PREVIEW_CHARS as int
            } else {
                question@.text.len() as int
            },
        ),
{
    take_chars(question.text.as_str(), PREVIEW_CHARS)
}

/// The counters across one round of the loop: a poll, then, only where the
/// poll took up a new question, at most one grading.
pub open spec fn loop_round(before: GameState, after: GameState) -> bool {
    ||| poll_counts(before, after, false)
    ||| poll_counts(before, after, true)
    ||| exists|mid: GameState, correct: bool|
        poll_counts(before, mid, true) && #[trigger] grading_counts(mid, after, correct)
}

/// One round of the loop keeps the tally: a poll, then at most one grading
/// of the question it took up, never grades more answers than were answered.
pub proof fn lemma_tally_round(before: GameState, after: GameState)
    requires
        tally_ok(before),
        loop_round(before, after),
    ensures
        tally_ok(after),
{
    if !poll_counts(before, after, false) && !poll_counts(before, after, true) {
        let (mid, correct) = choose|mid: GameState, correct: bool|
            poll_counts(before, mid, true) && #[trigger] grading_counts(mid, after, correct);
        assert(tally_ok(after));
    }
}

/// The tally holds across the whole loop: starting from a state that keeps
/// it (as a new game does), every state after each round keeps it.
pub proof fn lemma_tally_loop(states: Seq<GameState>)
    requires
        states.len() > 0,
        tally_ok(states[0]),
        forall|i: int| 0 <= i < states.len() - 1 ==> #[trigger] loop_round(states[i], states[i + 1]),
    ensures
        forall|i: int| 0 <= i < states.len() ==> #[trigger] tally_ok(states[i]),
    decreases states.len(),
{
    if states.len() > 1 {
        let init = states.drop_last();
        assert forall|i: int| 0 <= i < init.len() - 1 implies #[trigger] loop_round(init[i], init[i + 1]) by {
            assert(init[i] == states[i] && init[i + 1] == states[i + 1]);
            assert(loop_round(states[i], states[i + 1]));
        }
        lemma_tally_loop(init);
        let n = states.len() - 1;
        assert(tally_ok(init[n - 1]));
        let k = n - 1;
        assert(0 <= k < states.len() - 1);
        assert(loop_round(states[k], states[k + 1]));
        assert(k + 1 == n);
        lemma_tally_round(states[k], states[n]);
        assert forall|i: int| 0 <= i < states.len() implies #[trigger] tally_ok(states[i]) by {
            if i < n {
                assert(tally_ok(init[i]));
            }
        }
    }
}

/// A new game keeps the tally.
pub proof fn lemma_new_game_tally(s: GameState)
    requires
        s.correct == 0,
        s.incorrect == 0,
    ensures
        tally_ok(s),
{
}

} // verus!
