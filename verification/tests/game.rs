use blooket_engine::game::{
    begin_question, decide_poll, extract_question, on_poll, plan_answer, question_preview, record_answer_result, AnswerPlan,
    LoopAction,
};
use blooket_engine::types::{Answer, AutoMode, GameState, Question, QuestionType};
use serde_json::Value;

fn json(text: &str) -> Value {
    serde_json::from_str(text).unwrap()
}

fn known(id: &str) -> Question {
    Question {
        id: id.to_string(),
        text: "Known".to_string(),
        answers: vec![Answer { index: 0, text: "yes".to_string(), is_correct: true }],
        correct_index: Some(0),
        question_type: QuestionType::MultipleChoice,
        time_limit: None,
    }
}

#[test]
fn new_game_state_is_empty() {
    let s = GameState::new("123456", "Claw");
    assert_eq!(s.pin, "123456");
    assert_eq!(s.player_name, "Claw");
    assert_eq!((s.score, s.streak, s.questions_answered, s.correct, s.incorrect), (0, 0, 0, 0, 0));
    assert!(s.current_question.is_none());
    assert_eq!(s.game_mode, "");
    assert!(s.host_id.is_none());
}

#[test]
fn extract_live_and_prefetched() {
    let state = json(
        r#"{"currentQuestion": {"id": "x1", "question": "2+2?", "timeLimit": 30,
            "answers": [{"answer": "3"}, {"text": "4"}, {}]}}"#,
    );
    let q = extract_question(&state, &vec![]).unwrap();
    assert_eq!(q.id, "x1");
    assert_eq!(q.text, "2+2?");
    let texts: Vec<&str> = q.answers.iter().map(|a| a.text.as_str()).collect();
    assert_eq!(texts, vec!["3", "4", ""]);
    assert_eq!(q.correct_index, None);
    assert_eq!(q.time_limit, Some(30));

    let pre = vec![known("x0"), known("x1")];
    let q = extract_question(&state, &pre).unwrap();
    assert_eq!(q.text, "Known");
    assert_eq!(q.correct_index, Some(0));

    assert!(extract_question(&json(r#"{}"#), &pre).is_none());
    assert!(extract_question(&json(r#"{"currentQuestion": {"id": 5}}"#), &pre).is_none());
    assert!(extract_question(&json(r#"{"currentQuestion": {"id": "z", "question": "q"}}"#), &pre).is_none());
    // a pre-fetched question is found even without text or answers in the snapshot
    assert!(extract_question(&json(r#"{"currentQuestion": {"id": "x0"}}"#), &pre).is_some());
}

#[test]
fn poll_decisions() {
    let mut s = GameState::new("1", "n");
    let pre: Vec<Question> = vec![];
    assert!(matches!(on_poll(&mut s, None, &pre), LoopAction::Wait(500)));
    assert!(matches!(on_poll(&mut s, Some(&json(r#"{"gameOver": true}"#)), &pre), LoopAction::Finish));
    assert!(matches!(on_poll(&mut s, Some(&json(r#"{"gameOver": "yes"}"#)), &pre), LoopAction::Wait(300)));
    let snap = json(r#"{"currentQuestion": {"id": "a", "question": "?", "answers": []}}"#);
    match on_poll(&mut s, Some(&snap), &pre) {
        LoopAction::Answer(q) => assert_eq!(q.id, "a"),
        _ => panic!("expected a new question"),
    }
    assert_eq!(s.questions_answered, 1);
    assert_eq!(s.current_question.as_ref().unwrap().id, "a");
    // the same question again is not answered twice
    assert!(matches!(on_poll(&mut s, Some(&snap), &pre), LoopAction::Wait(200)));
    assert_eq!(s.questions_answered, 1);
    let next = json(r#"{"currentQuestion": {"id": "b", "question": "?", "answers": []}}"#);
    assert!(matches!(on_poll(&mut s, Some(&next), &pre), LoopAction::Answer(_)));
    assert_eq!(s.questions_answered, 2);
}

#[test]
fn grading_updates_score_and_streak() {
    let mut s = GameState::new("1", "n");
    let o = record_answer_result(&mut s, &json(r#"{"correct": true, "points": 950}"#));
    assert!(o.correct);
    assert_eq!(o.points, 950);
    let o = record_answer_result(&mut s, &json(r#"{"correct": true, "points": 900}"#));
    assert!(o.correct);
    assert_eq!((s.score, s.correct, s.streak, s.incorrect), (1850, 2, 2, 0));
    let o = record_answer_result(&mut s, &json(r#"{"correct": false, "points": -10}"#));
    assert!(!o.correct);
    assert_eq!((s.score, s.correct, s.streak, s.incorrect), (1840, 2, 0, 1));
    let o = record_answer_result(&mut s, &json(r#"{}"#));
    assert_eq!((o.correct, o.points), (false, 0));
    assert_eq!((s.score, s.incorrect), (1840, 2));
}

#[test]
fn answer_plans_per_mode() {
    assert_eq!(plan_answer(AutoMode::Hint, 1500), AnswerPlan::ShowHint(2000));
    assert_eq!(plan_answer(AutoMode::Speed, 1500), AnswerPlan::Submit(0));
    match plan_answer(AutoMode::Auto, 1500) {
        AnswerPlan::Submit(d) => assert!((1300..1900).contains(&d)),
        other => panic!("unexpected {:?}", other),
    }
}

#[test]
fn mode_names() {
    assert_eq!(AutoMode::from_cli_name("hint"), AutoMode::Hint);
    assert_eq!(AutoMode::from_cli_name("speed"), AutoMode::Speed);
    assert_eq!(AutoMode::from_cli_name("auto"), AutoMode::Auto);
    assert_eq!(AutoMode::from_cli_name("HINT"), AutoMode::Auto);
    for m in [AutoMode::Auto, AutoMode::Hint, AutoMode::Speed] {
        assert_eq!(AutoMode::from_cli_name(m.label()), m);
    }
    assert_eq!(AutoMode::Speed.label(), "speed");
}

#[test]
fn preview_is_eighty_chars() {
    let mut q = known("p");
    q.text = "é".repeat(100);
    assert_eq!(question_preview(&q).chars().count(), 80);
    q.text = "short".to_string();
    assert_eq!(question_preview(&q), "short");
}

#[test]
fn tally_never_exceeds_answered() {
    let mut s = GameState::new("1", "n");
    let pre: Vec<Question> = vec![];
    let snaps = [
        r#"{"currentQuestion": {"id": "a", "question": "?", "answers": []}}"#,
        r#"{"currentQuestion": {"id": "a", "question": "?", "answers": []}}"#,
        r#"{"currentQuestion": {"id": "b", "question": "?", "answers": []}}"#,
    ];
    let grades = [r#"{"correct": true, "points": 5}"#, r#"{"correct": false}"#];
    let mut g = 0;
    for snap in snaps {
        if let LoopAction::Answer(_) = on_poll(&mut s, Some(&json(snap)), &pre) {
            record_answer_result(&mut s, &json(grades[g]));
            g += 1;
        }
        assert!(s.correct + s.incorrect <= s.questions_answered);
    }
    assert_eq!((s.questions_answered, s.correct, s.incorrect), (2, 1, 1));
}

#[test]
fn decide_then_begin() {
    let mut s = GameState::new("1", "n");
    let pre: Vec<Question> = vec![];
    let snap = json(r#"{"currentQuestion": {"id": "a", "question": "?", "answers": []}}"#);
    let q = match decide_poll(&s, Some(&snap), &pre) {
        LoopAction::Answer(q) => q,
        _ => panic!("expected a question"),
    };
    assert_eq!(s.questions_answered, 0);
    begin_question(&mut s, &q);
    assert_eq!(s.questions_answered, 1);
    assert!(matches!(decide_poll(&s, Some(&snap), &pre), LoopAction::Wait(200)));
}
