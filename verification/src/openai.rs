//! The request asking a chat model whether a link is about the climate, and
//! what is read from its answer.

use vstd::prelude::*;
use crate::json::JsonValue;
use crate::text::owned;

verus! {

/// Base address of the OpenAI API.
pub const BASE_URL: &'static str = "https://api.openai.com/v1";

/// The chat model asked.
pub const MODEL_NAME: &'static str = "gpt-5-mini";

/// The instructions given to the model.
pub const SYSTEM_PROMPT: &'static str = "You are a climate news classifier. Given a news article title and description, determine whether the article is related to climate change, the climate crisis, climate policy, or climate-related environmental issues. Respond only with a JSON object matching the provided schema.";

/// A message of a chat.
#[derive(Debug)]
pub struct Message {
    pub role: String,
    pub content: String,
}

/// The form the answer must take.
#[derive(Debug)]
pub struct ResponseFormat {
    pub format_type: String,
    pub json_schema: JsonValue,
}

/// A chat completion request.
#[derive(Debug)]
pub struct ChatCompletionArgs {
    pub model: String,
    pub messages: Vec<Message>,
    pub response_format: ResponseFormat,
    pub reasoning_effort: String,
}

/// A chat completion answer.
#[derive(Debug)]
pub struct ChatCompletion {
    pub id: String,
    pub created: u64,
    pub model: String,
    pub choices: Vec<ChatCompletionChoice>,
}

/// One choice of an answer.
#[derive(Debug)]
pub struct ChatCompletionChoice {
    pub index: u64,
    pub message: ChatCompletionMessage,
    pub finish_reason: String,
}

/// The message of a choice.
#[derive(Debug)]
pub struct ChatCompletionMessage {
    pub role: String,
    pub content: Option<String>,
}

fn json_string(s: &str) -> (v: JsonValue)
    ensures
        v matches JsonValue::Str(t) && t@ == s@,
{
    JsonValue::Str(owned(s))
}

fn member(key: &str, value: JsonValue) -> (m: (String, JsonValue))
    ensures
        m.0@ == key@,
        m.1 == value,
{
    (owned(key), value)
}

/// `v` is the JSON string `text`.
pub open spec fn is_json_str(v: JsonValue, text: Seq<char>) -> bool {
    v matches JsonValue::Str(t) && t@ == text
}

/// `m` is the member `key` with the value that `value_ok` accepts.
pub open spec fn is_member(m: (String, JsonValue), key: Seq<char>, value_ok: spec_fn(JsonValue) -> bool) -> bool {
    m.0@ == key && value_ok(m.1)
}

/// The object `{"type": "boolean"}`.
pub open spec fn is_boolean_type(v: JsonValue) -> bool {
    v matches JsonValue::Object(ms) && ms@.len() == 1 && is_member(ms@[0], "type"@, |x: JsonValue| is_json_str(x, "boolean"@))
}

/// The object `{"is_climate_related": {"type": "boolean"}}`.
pub open spec fn is_classification_properties(v: JsonValue) -> bool {
    v matches JsonValue::Object(ms) && ms@.len() == 1 && is_member(ms@[0], "is_climate_related"@, |x: JsonValue| is_boolean_type(x))
}

/// The array `["is_climate_related"]`.
pub open spec fn is_classification_required(v: JsonValue) -> bool {
    v matches JsonValue::Array(items) && items@.len() == 1 && is_json_str(items@[0], "is_climate_related"@)
}

/// The object `{"type": "object", "properties": ..., "required":
/// ["is_climate_related"], "additionalProperties": false}`.
pub open spec fn is_classification_object(v: JsonValue) -> bool {
    v matches JsonValue::Object(ms) && ms@.len() == 4
        && is_member(ms@[0], "type"@, |x: JsonValue| is_json_str(x, "object"@))
        && is_member(ms@[1], "properties"@, |x: JsonValue| is_classification_properties(x))
        && is_member(ms@[2], "required"@, |x: JsonValue| is_classification_required(x))
        && is_member(ms@[3], "additionalProperties"@, |x: JsonValue| x == JsonValue::Bool(false))
}

/// `v` is exactly the schema `{"name": "climate_classification", "strict":
/// true, "schema": {"type": "object", "properties": {"is_climate_related":
/// {"type": "boolean"}}, "required": ["is_climate_related"],
/// "additionalProperties": false}}`, members in that order.
pub open spec fn is_classification_schema(v: JsonValue) -> bool {
    v matches JsonValue::Object(ms) && ms@.len() == 3
        && is_member(ms@[0], "name"@, |x: JsonValue| is_json_str(x, "climate_classification"@))
        && is_member(ms@[1], "strict"@, |x: JsonValue| x == JsonValue::Bool(true))
        && is_member(ms@[2], "schema"@, |x: JsonValue| is_classification_object(x))
}

/// The JSON schema of the answer: an object with one boolean member,
/// `is_climate_related`, required, and no other member.
pub fn climate_classification_schema() -> (v: JsonValue)
    ensures
        is_classification_schema(v),
{
    let mut flag_type: Vec<(String, JsonValue)> = Vec::new();
    flag_type.push(member("type", json_string("boolean")));
    let mut properties: Vec<(String, JsonValue)> = Vec::new();
    properties.push(member("is_climate_related", JsonValue::Object(flag_type)));
    let mut required: Vec<JsonValue> = Vec::new();
    required.push(json_string("is_climate_related"));
    let mut schema: Vec<(String, JsonValue)> = Vec::new();
    schema.push(member("type", json_string("object")));
    schema.push(member("properties", JsonValue::Object(properties)));
    schema.push(member("required", JsonValue::Array(required)));
    schema.push(member("additionalProperties", JsonValue::Bool(false)));
    let mut top: Vec<(String, JsonValue)> = Vec::new();
    top.push(member("name", json_string("climate_classification")));
    top.push(member("strict", JsonValue::Bool(true)));
    top.push(member("schema", JsonValue::Object(schema)));
    JsonValue::Object(top)
}

/// The request classifying `text`: the model, the instructions then the
/// text as the two messages, the answer schema, and minimal reasoning.
pub fn chat_completion_args(text: String) -> (args: ChatCompletionArgs)
    ensures
        args.model@ == MODEL_NAME@,
        args.messages@.len() == 2,
        args.messages@[0].role@ == "system"@,
        args.messages@[0].content@ == SYSTEM_PROMPT@,
        args.messages@[1].role@ == "user"@,
        args.messages@[1].content@ == text@,
        args.response_format.format_type@ == "json_schema"@,
        is_classification_schema(args.response_format.json_schema),
        args.reasoning_effort@ == "minimal"@,
{
    let mut messages: Vec<Message> = Vec::new();
    messages.push(Message { role: owned("system"), content: owned(SYSTEM_PROMPT) });
    messages.push(Message { role: owned("user"), content: text });
    ChatCompletionArgs {
        model: owned(MODEL_NAME),
        messages,
        response_format: ResponseFormat {
            format_type: owned("json_schema"),
            json_schema: climate_classification_schema(),
        },
        reasoning_effort: owned("minimal"),
    }
}

/// The text of the first choice of an answer; empty where it has none.
pub fn completion_content(completion: ChatCompletion) -> (s: String)
    requires
        completion.choices@.len() > 0,
    ensures
        s@ == match completion.choices@[0].message.content {
            Some(c) => c@,
            None => Seq::empty(),
        },
{
    let mut completion = completion;
    let choice = completion.choices.remove(0);
    match choice.message.content {
        Some(c) => c,
        None => String::new(),
    }
}

/// "title - description", each part empty where missing: the text that is
/// classified, and whose language is detected.
pub fn title_and_description(title: &Option<String>, description: &Option<String>) -> (s: String)
    ensures
        s@ == crate::post_text::title_or_empty(*title) + " - "@ + crate::post_text::title_or_empty(*description),
{
    let mut s = match title {
        Some(t) => t.clone(),
        None => String::new(),
    };
    s.append(" - ");
    match description {
        Some(d) => s.append(d.as_str()),
        None => {},
    }
    s
}

} // verus!
