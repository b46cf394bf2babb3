use news_service::json::JsonValue;
use news_service::openai::{
    chat_completion_args, climate_classification_schema, completion_content, title_and_description,
    ChatCompletion, ChatCompletionChoice, ChatCompletionMessage, SYSTEM_PROMPT,
};

#[test]
fn the_request_carries_instructions_then_text() {
    let args = chat_completion_args(String::from("Floods in Italy"));
    assert_eq!(args.model, "gpt-5-mini");
    assert_eq!(args.messages.len(), 2);
    assert_eq!(args.messages[0].role, "system");
    assert_eq!(args.messages[0].content, SYSTEM_PROMPT);
    assert_eq!(args.messages[1].role, "user");
    assert_eq!(args.messages[1].content, "Floods in Italy");
    assert_eq!(args.response_format.format_type, "json_schema");
    assert_eq!(args.reasoning_effort, "minimal");
    let schema = climate_classification_schema();
    assert_eq!(schema.get("name").and_then(|n| n.as_str()), Some("climate_classification"));
    assert!(matches!(schema.get("strict"), Some(JsonValue::Bool(true))));
}

fn completion(content: Option<&str>) -> ChatCompletion {
    ChatCompletion {
        id: String::from("id"),
        created: 0,
        model: String::from("m"),
        choices: vec![ChatCompletionChoice {
            index: 0,
            message: ChatCompletionMessage { role: String::from("assistant"), content: content.map(String::from) },
            finish_reason: String::from("stop"),
        }],
    }
}

#[test]
fn the_answer_is_the_first_choice() {
    assert_eq!(completion_content(completion(Some("{\"is_climate_related\":true}"))), "{\"is_climate_related\":true}");
    assert_eq!(completion_content(completion(None)), "");
}

#[test]
fn title_and_description_text() {
    assert_eq!(title_and_description(&Some(String::from("T")), &Some(String::from("D"))), "T - D");
    assert_eq!(title_and_description(&None, &Some(String::from("D"))), " - D");
    assert_eq!(title_and_description(&Some(String::from("T")), &None), "T - ");
}

#[test]
fn the_schema_requires_its_one_property() {
    let schema = climate_classification_schema();
    let inner = schema.get("schema").unwrap();
    match inner.get("required") {
        Some(JsonValue::Array(items)) => {
            assert_eq!(items.len(), 1);
            assert_eq!(items[0].as_str(), Some("is_climate_related"));
        }
        other => panic!("unexpected {:?}", other),
    }
    match inner.get("properties") {
        Some(JsonValue::Object(members)) => {
            assert_eq!(members.len(), 1);
            assert_eq!(members[0].0, "is_climate_related");
        }
        other => panic!("unexpected {:?}", other),
    }
}
