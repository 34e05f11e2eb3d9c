use blooket_engine::answer::{
    build_llm_payload, format_hint_body, interpret_llm_reply, llm_prompt, question_from_cli,
    reply_index_outcome, select_answer, strip_code_fences, AnswerChoice, AnswerSource, LlmError, LLM_INSTRUCTIONS,
};
use blooket_engine::types::{Answer, Question, QuestionType};
use serde_json::Value;

fn question(texts: &[&str], correct: Option<usize>) -> Question {
    Question {
        id: "q".to_string(),
        text: "Which?".to_string(),
        answers: texts
            .iter()
            .enumerate()
            .map(|(i, t)| Answer { index: i, text: t.to_string(), is_correct: Some(i) == correct })
            .collect(),
        correct_index: correct,
        question_type: QuestionType::MultipleChoice,
        time_limit: None,
    }
}

fn reply(text: &str) -> Value {
    let mut body = serde_json::Map::new();
    let mut part = serde_json::Map::new();
    part.insert("text".to_string(), Value::String(text.to_string()));
    body.insert("content".to_string(), Value::Array(vec![Value::Object(part)]));
    Value::Object(body)
}

#[test]
fn known_answer_has_priority() {
    let q = question(&["a", "b"], Some(1));
    assert_eq!(select_answer(&q, Some("http://x"), Some("k")), AnswerSource::Known(1));
    assert_eq!(select_answer(&q, None, None), AnswerSource::Known(1));
    let s = AnswerSource::Known(1);
    assert_eq!(AnswerChoice::settle(s, Some(0)), AnswerChoice::Known(1));
}

#[test]
fn llm_then_fallback() {
    let q = question(&["a", "b"], None);
    assert_eq!(select_answer(&q, Some("http://x"), Some("k")), AnswerSource::AskLlm);
    assert_eq!(select_answer(&q, Some("http://x"), None), AnswerSource::Fallback);
    assert_eq!(select_answer(&q, None, Some("k")), AnswerSource::Fallback);
    assert_eq!(AnswerChoice::settle(AnswerSource::AskLlm, Some(1)), AnswerChoice::Llm(1));
    assert_eq!(AnswerChoice::settle(AnswerSource::AskLlm, None), AnswerChoice::Fallback);
    assert_eq!(AnswerChoice::Fallback.index(), 0);
    assert_eq!(AnswerChoice::Llm(3).index(), 3);
}

#[test]
fn prompt_text() {
    let q = question(&["Venus", "Mercury"], None);
    let expected = format!(
        "{}\n\nQuestion: Which?\n\nChoices:\n0. Venus\n1. Mercury\n\nPick the correct answer.",
        LLM_INSTRUCTIONS
    );
    assert_eq!(llm_prompt(&q), expected);
    let p = build_llm_payload("m", &q);
    assert_eq!(p.model, "m");
    assert_eq!(p.max_tokens, 256);
    assert_eq!(p.role, "user");
    assert_eq!(p.content, expected);
    assert!(LLM_INSTRUCTIONS.starts_with("You are a quiz answering assistant. Given a question"));
}

#[test]
fn fences_are_stripped() {
    assert_eq!(strip_code_fences("```json\n{\"a\":1}\n```"), "{\"a\":1}");
    assert_eq!(strip_code_fences("```{\"a\":1}```"), "{\"a\":1}");
    assert_eq!(strip_code_fences("  {}  "), "{}");
}

#[test]
fn reply_interpretation() {
    let v = interpret_llm_reply(&reply("```json\n{\"answer_index\": 2, \"confidence\": 0.9}\n```"), 3)
        .unwrap();
    assert_eq!(v.answer_index, 2);
    assert_eq!(v.reply["confidence"].as_f64(), Some(0.9));
    let v = interpret_llm_reply(&reply("{\"confidence\": 0.1}"), 3).unwrap();
    assert_eq!(v.answer_index, 0);
    assert_eq!(
        interpret_llm_reply(&reply("{\"answer_index\": 3}"), 3).err(),
        Some(LlmError::IndexOutOfBounds(3))
    );
    assert_eq!(interpret_llm_reply(&reply("not json"), 3).err(), Some(LlmError::InvalidJson));
    assert_eq!(
        interpret_llm_reply(&serde_json::from_str("{}").unwrap(), 3).err(),
        Some(LlmError::InvalidJson)
    );
}

#[test]
fn hint_body_marks_choice() {
    let q = question(&["Venus", "Mercury"], None);
    assert_eq!(
        format_hint_body(&q, 1),
        "\n❓ Which?\n\n     0. Venus\n  ✅ 1. Mercury\n\n"
    );
}

#[test]
fn cli_question_splits_choices() {
    let q = question_from_cli("Capital?", " Paris, Rome ,,Oslo");
    assert_eq!(q.id, "cli");
    assert_eq!(q.text, "Capital?");
    let texts: Vec<&str> = q.answers.iter().map(|a| a.text.as_str()).collect();
    assert_eq!(texts, vec!["Paris", "Rome", "", "Oslo"]);
    assert_eq!(q.answers[3].index, 3);
    assert!(q.answers.iter().all(|a| !a.is_correct));
    assert_eq!(q.correct_index, None);
    assert_eq!(question_from_cli("x", "").answers.len(), 1);
}

#[test]
fn reply_index_reading() {
    let v: Value = serde_json::from_str(r#"{"answer_index": 1}"#).unwrap();
    assert_eq!(reply_index_outcome(&v, 2), Ok(1));
    assert_eq!(reply_index_outcome(&v, 1), Err(LlmError::IndexOutOfBounds(1)));
    let v: Value = serde_json::from_str(r#"{"answer_index": -1}"#).unwrap();
    assert_eq!(reply_index_outcome(&v, 2), Ok(0));
    let v: Value = serde_json::from_str(r#"[]"#).unwrap();
    assert_eq!(reply_index_outcome(&v, 0), Err(LlmError::IndexOutOfBounds(0)));
}
