use blooket_engine::client::{
    answer_url, build_answer_payload, check_pin_status, game_info_summary, game_state_url,
    join_token, join_url, pin_check_summary, should_fetch_questions, parse_question_set, pin_lookup_url, question_set_url,
    questions_from_reply, text_reads_true, ClientError,
};
use blooket_engine::types::QuestionType;
use serde_json::Value;

fn json(text: &str) -> Value {
    serde_json::from_str(text).unwrap()
}

#[test]
fn parse_question_set_reads_questions_and_answers() {
    let data = json(
        r#"{"questions": [
            {"id": "a1", "question": "Closest planet to the sun?", "timeLimit": 20,
             "answers": [{"answer": "Venus"}, {"answer": "Mercury", "correct": true},
                         {"text": "Mars", "correct": false}]},
            {"text": "Sky is blue", "answers": [{"answer": "TRUE", "correct": true}, {"answer": "False"}]},
            {"question": "", "answers": []},
            {"question": "Name a color", "id": 7}
        ]}"#,
    );
    let qs = parse_question_set(&data);
    assert_eq!(qs.len(), 3);

    assert_eq!(qs[0].id, "a1");
    assert_eq!(qs[0].text, "Closest planet to the sun?");
    assert_eq!(qs[0].answers.len(), 3);
    assert_eq!(qs[0].answers[1].text, "Mercury");
    assert_eq!(qs[0].answers[2].text, "Mars");
    assert_eq!(qs[0].answers[2].index, 2);
    assert!(!qs[0].answers[2].is_correct);
    assert_eq!(qs[0].correct_index, Some(1));
    assert_eq!(qs[0].question_type, QuestionType::MultipleChoice);
    assert_eq!(qs[0].time_limit, Some(20));

    assert_eq!(qs[1].id, "q1");
    assert_eq!(qs[1].text, "Sky is blue");
    assert_eq!(qs[1].correct_index, Some(0));
    assert_eq!(qs[1].question_type, QuestionType::TrueFalse);
    assert_eq!(qs[1].time_limit, None);

    // the entry without text is skipped, but still counts for default ids
    assert_eq!(qs[2].id, "q3");
    assert_eq!(qs[2].answers.len(), 0);
    assert_eq!(qs[2].correct_index, None);
    assert_eq!(qs[2].question_type, QuestionType::TypeAnswer);
}

#[test]
fn parse_question_set_last_correct_wins() {
    let data = json(
        r#"{"questions": [{"question": "pick", "answers": [
            {"answer": "a", "correct": true}, {"answer": "b", "correct": true}, {"answer": "c"}]}]}"#,
    );
    let qs = parse_question_set(&data);
    assert_eq!(qs[0].correct_index, Some(1));
}

#[test]
fn parse_question_set_edge_cases() {
    assert!(parse_question_set(&json(r#"{}"#)).is_empty());
    assert!(parse_question_set(&json(r#"{"questions": 3}"#)).is_empty());
    assert!(parse_question_set(&json(r#"[1, 2]"#)).is_empty());
    // a non-string "question" does not fall back to "text"
    let qs = parse_question_set(&json(r#"{"questions": [{"question": null, "text": "t"}]}"#));
    assert!(qs.is_empty());
    // time limit is cut to 32 bits; a negative one is ignored
    let qs = parse_question_set(&json(
        r#"{"questions": [{"question": "x", "timeLimit": 4294967297}, {"question": "y", "timeLimit": -1}]}"#,
    ));
    assert_eq!(qs[0].time_limit, Some(1));
    assert_eq!(qs[1].time_limit, None);
    // two answers, neither reads "true": multiple choice
    let qs = parse_question_set(&json(
        r#"{"questions": [{"question": "x", "answers": [{"answer": "yes"}, {"answer": "no"}]}]}"#,
    ));
    assert_eq!(qs[0].question_type, QuestionType::MultipleChoice);
    assert_eq!(qs[0].answers[0].text, "yes");
}

#[test]
fn urls() {
    assert_eq!(pin_lookup_url("123"), "https://fb-rest.blooket.com/games/pin?pin=123");
    assert_eq!(question_set_url("s1"), "https://fb-rest.blooket.com/sets/public?id=s1");
    assert_eq!(join_url(), "https://fb-rest.blooket.com/games/join");
    assert_eq!(answer_url(), "https://fb-rest.blooket.com/games/answer");
    assert_eq!(game_state_url("tok"), "https://fb-rest.blooket.com/games/state?token=tok");
}

#[test]
fn status_handling() {
    assert_eq!(check_pin_status(200), Ok(()));
    assert_eq!(check_pin_status(299), Ok(()));
    assert_eq!(check_pin_status(404), Err(ClientError::InvalidPin(404)));
    assert_eq!(check_pin_status(199), Err(ClientError::InvalidPin(199)));
    let data = json(r#"{"questions": [{"question": "x"}]}"#);
    assert_eq!(questions_from_reply(200, &data).len(), 1);
    assert_eq!(questions_from_reply(500, &data).len(), 0);
}

#[test]
fn join_token_reading() {
    assert_eq!(join_token(200, &json(r#"{"token": "abc"}"#)), Ok("abc".to_string()));
    assert_eq!(join_token(201, &json(r#"{}"#)), Ok(String::new()));
    assert_eq!(
        join_token(403, &json(r#"{"msg": "no"}"#)),
        Err(ClientError::JoinRejected(403))
    );
}

#[test]
fn answer_payload_fields() {
    let p = build_answer_payload("tok", "q1", 2, 1500, "123456789");
    assert_eq!(p.token, "tok");
    assert_eq!(p.question_id, "q1");
    assert_eq!(p.answer, 2);
    assert_eq!(p.time_taken, 1500);
    assert_eq!(p.id, "123456789");
}

#[test]
fn game_info_defaults() {
    let i = game_info_summary(&json(r#"{"setId": "s9", "gameMode": "gold"}"#));
    assert_eq!(i.set_id, "s9");
    assert_eq!(i.game_mode, "gold");
    let i = game_info_summary(&json(r#"{"setId": 5}"#));
    assert_eq!(i.set_id, "");
    assert_eq!(i.game_mode, "unknown");
}

#[test]
fn pin_check_summary_defaults() {
    let (m, h) = pin_check_summary(&json(r#"{"gameMode": "gold", "host": "Ms A"}"#));
    assert_eq!((m.as_str(), h.as_str()), ("gold", "Ms A"));
    let (m, h) = pin_check_summary(&json(r#"{"host": 1}"#));
    assert_eq!((m.as_str(), h.as_str()), ("?", "?"));
}

#[test]
fn question_set_fetched_only_when_named() {
    assert!(should_fetch_questions("s1"));
    assert!(!should_fetch_questions(""));
}

#[test]
fn lowercase_true_test() {
    assert!(text_reads_true("true"));
    assert!(text_reads_true("TrUe"));
    assert!(!text_reads_true("true "));
    assert!(!text_reads_true("yes"));
}
