//! The engine's data model: configuration, questions and answers, and the
//! running state of a game.

use vstd::prelude::*;
use crate::text::{str_eq, push_str};

verus! {

/// How the engine plays.
#[derive(Debug, Clone, Copy, PartialEq, Eq, Structural)]
pub enum AutoMode {
    /// Fully autonomous: answer every question automatically.
    Auto,
    /// Hint mode: show the chosen answer to the human player.
    Hint,
    /// Speed mode: answer as fast as possible.
    Speed,
}

/// The name of a mode, as it is printed and given on the command line.
pub open spec fn mode_label(m: AutoMode) -> Seq<char> {
    match m {
        AutoMode::Auto => "auto"@,
        AutoMode::Hint => "hint"@,
        AutoMode::Speed => "speed"@,
    }
}

/// The mode that a command-line name selects: `hint`, `speed`, and `auto`
/// for anything else.
pub open spec fn mode_from_name(name: Seq<char>) -> AutoMode {
    if name == "hint"@ {
        AutoMode::Hint
    } else if name == "speed"@ {
        AutoMode::Speed
    } else {
        AutoMode::Auto
    }
}

impl AutoMode {
    /// The mode's name (what the mode displays as).
    pub fn label(&self) -> (r: &'static str)
        ensures
            r@ == mode_label(*self),
    {
        match self {
            AutoMode::Auto => "auto",
            AutoMode::Hint => "hint",
            AutoMode::Speed => "speed",
        }
    }

    /// The mode named on the command line; unknown names select `Auto`.
    pub fn from_cli_name(name: &str) -> (r: AutoMode)
        ensures
            r == mode_from_name(name@),
    {
        if str_eq(name, "hint") {
            AutoMode::Hint
        } else if str_eq(name, "speed") {
            AutoMode::Speed
        } else {
            AutoMode::Auto
        }
    }
}

/// Reading back the name of a mode gives the mode.
pub proof fn lemma_mode_name_roundtrip(m: AutoMode)
    ensures
        mode_from_name(mode_label(m)) == m,
{
    reveal_strlit("auto");
    reveal_strlit("hint");
    reveal_strlit("speed");
    assert("auto"@ != "hint"@ && "auto"@ != "speed"@ && "speed"@ != "hint"@) by {
        assert("auto"@[0] != "hint"@[0]);
        assert("auto"@[0] != "speed"@[0]);
        assert("speed"@[0] != "hint"@[0]);
    }
}

/// The settings of one game session.
#[derive(Debug, Clone)]
pub struct BlooketConfig {
    pub game_pin: String,
    pub name: String,
    pub mode: AutoMode,
    pub delay_ms: u64,
    pub llm_endpoint: Option<String>,
    pub llm_api_key: Option<String>,
}

/// The kind of a question.
#[derive(Debug, Clone, Copy, PartialEq, Eq, Structural)]
pub enum QuestionType {
    MultipleChoice,
    TrueFalse,
    TypeAnswer,
}

/// One answer choice of a question.
#[derive(Debug, Clone)]
pub struct Answer {
    pub index: usize,
    pub text: String,
    pub is_correct: bool,
}

/// A question with its answer choices and, where it is known, the index of
/// the correct one.
#[derive(Debug, Clone)]
pub struct Question {
    pub id: String,
    pub text: String,
    pub answers: Vec<Answer>,
    pub correct_index: Option<usize>,
    pub question_type: QuestionType,
    pub time_limit: Option<u32>,
}

/// An answer, as values.
pub struct AnswerView {
    pub index: usize,
    pub text: Seq<char>,
    pub is_correct: bool,
}

/// A question, as values.
#[verifier::ext_equal]
pub struct QuestionView {
    pub id: Seq<char>,
    pub text: Seq<char>,
    pub answers: Seq<AnswerView>,
    pub correct_index: Option<usize>,
    pub question_type: QuestionType,
    pub time_limit: Option<u32>,
}

impl View for Answer {
    type V = AnswerView;

    open spec fn view(&self) -> AnswerView {
        AnswerView { index: self.index, text: self.text@, is_correct: self.is_correct }
    }
}

/// The views of a sequence of answers.
pub open spec fn answers_view(answers: Seq<Answer>) -> Seq<AnswerView> {
    answers.map_values(|a: Answer| a@)
}

impl View for Question {
    type V = QuestionView;

    open spec fn view(&self) -> QuestionView {
        QuestionView {
            id: self.id@,
            text: self.text@,
            answers: answers_view(self.answers@),
            correct_index: self.correct_index,
            question_type: self.question_type,
            time_limit: self.time_limit,
        }
    }
}

/// The views of a sequence of questions.
pub open spec fn questions_view(questions: Seq<Question>) -> Seq<QuestionView> {
    questions.map_values(|q: Question| q@)
}

/// The view of an optional question.
pub open spec fn opt_question_view(q: Option<Question>) -> Option<QuestionView> {
    match q {
        Some(q) => Some(q@),
        None => None,
    }
}

/// A copy of a string.
pub fn copy_string(s: &String) -> (r: String)
    ensures
        r@ == s@,
{
    let mut r = String::new();
    push_str(&mut r, s.as_str());
    r
}

impl Answer {
    /// A copy of the answer.
    pub fn copy(&self) -> (r: Answer)
        ensures
            r@ == self@,
    {
        Answer { index: self.index, text: copy_string(&self.text), is_correct: self.is_correct }
    }
}

impl Question {
    /// A copy of the question.
    pub fn copy(&self) -> (r: Question)
        ensures
            r@ == self@,
    {
        let mut answers: Vec<Answer> = Vec::new();
        let mut i: usize = 0;
        while i < self.answers.len()
            invariant
                i <= self.answers@.len(),
                answers@.len() == i,
                forall|k: int| 0 <= k < i ==> #[trigger] answers@[k]@ == self.answers@[k]@,
            decreases self.answers@.len() - i,
        {
            answers.push(self.answers[i].copy());
            i = i + 1;
        }
        assert(answers_view(answers@) =~= answers_view(self.answers@));
        Question {
            id: copy_string(&self.id),
            text: copy_string(&self.text),
            answers,
            correct_index: self.correct_index,
            question_type: self.question_type,
            time_limit: self.time_limit,
        }
    }
}

/// The running state of one player in one game.
#[derive(Debug, Clone)]
pub struct GameState {
    pub pin: String,
    pub player_name: String,
    pub score: i64,
    pub streak: u32,
    pub questions_answered: u32,
    pub correct: u32,
    pub incorrect: u32,
    pub current_question: Option<Question>,
    pub game_mode: String,
    pub host_id: Option<String>,
}

impl GameState {
    /// The state at the start of a game: nothing answered, no score, no
    /// question seen yet.
    pub fn new(pin: &str, name: &str) -> (r: Self)
        ensures
            r.pin@ == pin@,
            r.player_name@ == name@,
            r.score == 0,
            r.streak == 0,
            r.questions_answered == 0,
            r.correct == 0,
            r.incorrect == 0,
            r.current_question is None,
            r.game_mode@ == Seq::<char>::empty(),
            r.host_id is None,
    {
        let mut p = String::new();
        push_str(&mut p, pin);
        let mut n = String::new();
        push_str(&mut n, name);
        GameState {
            pin: p,
            player_name: n,
            score: 0,
            streak: 0,
            questions_answered: 0,
            correct: 0,
            incorrect: 0,
            current_question: None,
            game_mode: String::new(),
            host_id: None,
        }
    }
}

/// A request for an answer, as sent to a language model.
#[derive(Debug)]
pub struct LLMRequest {
    pub question: String,
    pub choices: Vec<String>,
    pub question_type: String,
}

} // verus!
