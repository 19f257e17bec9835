use tokend::chat_template::{
    extract_chat_template, extract_special_token, ChatMessage, ChatTemplate, FunctionCall, Tool,
    ToolCall, ToolFunction,
};
use tokend::json::JsonValue;

fn s(v: &str) -> JsonValue {
    JsonValue::Str(v.to_string())
}

fn obj(fields: Vec<(&str, JsonValue)>) -> JsonValue {
    JsonValue::Object(fields.into_iter().map(|(k, v)| (k.to_string(), v)).collect())
}

fn user(role: &str, content: &str) -> ChatMessage {
    ChatMessage {
        role: role.into(),
        content: Some(content.into()),
        tool_calls: None,
        tool_call_id: None,
        name: None,
    }
}

#[test]
fn test_simple_chatml_template() {
    let template = "\
{%- for message in messages %}\
<|im_start|>{{ message.role }}\n\
{{ message.content }}<|im_end|>\n\
{%- endfor %}\
{%- if add_generation_prompt %}\
<|im_start|>assistant\n\
{%- endif %}";

    let ct = ChatTemplate::new(template, None, Some("</s>".to_string())).ok().unwrap();

    let messages = vec![user("system", "You are helpful."), user("user", "Hello")];

    let rendered = ct.render(&messages, true, None).ok().unwrap();
    assert!(rendered.contains("<|im_start|>system"));
    assert!(rendered.contains("You are helpful."));
    assert!(rendered.contains("<|im_start|>user"));
    assert!(rendered.contains("Hello"));
    assert!(rendered.contains("<|im_start|>assistant"));
}

#[test]
fn test_extract_chat_template_string() {
    let config = obj(vec![(
        "chat_template",
        s("{{ bos_token }}{% for m in messages %}{{ m.content }}{% endfor %}"),
    )]);
    let tmpl = extract_chat_template(&config).unwrap();
    assert!(tmpl.contains("bos_token"));
}

#[test]
fn test_extract_chat_template_array() {
    let config = obj(vec![(
        "chat_template",
        JsonValue::Array(vec![
            obj(vec![("name", s("tool_use")), ("template", s("tool template"))]),
            obj(vec![("name", s("default")), ("template", s("default template"))]),
        ]),
    )]);
    let tmpl = extract_chat_template(&config).unwrap();
    assert_eq!(tmpl, "default template");
}

#[test]
fn test_extract_special_token_string() {
    let config = obj(vec![("bos_token", s("<s>"))]);
    assert_eq!(extract_special_token(&config, "bos_token").unwrap(), "<s>");
}

#[test]
fn test_extract_special_token_object() {
    let config = obj(vec![(
        "eos_token",
        obj(vec![("content", s("</s>")), ("__type", s("AddedToken"))]),
    )]);
    assert_eq!(extract_special_token(&config, "eos_token").unwrap(), "</s>");
}

#[test]
fn extract_chat_template_array_falls_back_to_first_entry() {
    let config = obj(vec![(
        "chat_template",
        JsonValue::Array(vec![
            obj(vec![("name", s("tool_use")), ("template", s("tool template"))]),
            obj(vec![("name", s("rag")), ("template", s("rag template"))]),
        ]),
    )]);
    assert_eq!(extract_chat_template(&config).unwrap(), "tool template");
    let empty = obj(vec![("chat_template", JsonValue::Array(vec![]))]);
    assert!(extract_chat_template(&empty).is_none());
    let number = obj(vec![("chat_template", JsonValue::Number("3".to_string()))]);
    assert!(extract_chat_template(&number).is_none());
    assert!(extract_chat_template(&obj(vec![])).is_none());
}

#[test]
fn special_token_of_other_shapes_is_none() {
    let config = obj(vec![
        ("bos_token", JsonValue::Null),
        ("eos_token", obj(vec![("__type", s("AddedToken"))])),
    ]);
    assert!(extract_special_token(&config, "bos_token").is_none());
    assert!(extract_special_token(&config, "eos_token").is_none());
    assert!(extract_special_token(&config, "pad_token").is_none());
}

#[test]
fn template_fixups_are_applied() {
    let template = "{% for m in messages[::-1] %}{% generation %}{{ m.content }}{% endgeneration %}|{% endfor %}";
    let ct = ChatTemplate::new(template, None, None).ok().unwrap();
    let messages = vec![user("user", "a"), user("assistant", "b")];
    assert_eq!(ct.render(&messages, false, None).ok().unwrap(), "b|a|");
}

#[test]
fn template_sees_tokens_and_tools() {
    let template = "{{ bos_token }}[{{ eos_token }}]{% for t in tools %}{{ t.function.name }}:{{ t.type }}{% endfor %}{{ add_generation_prompt }}";
    let ct = ChatTemplate::new(template, Some("<s>".into()), None).ok().unwrap();
    let tools = vec![Tool {
        tool_type: "function".into(),
        function: ToolFunction { name: "lookup".into(), description: None, parameters: None },
    }];
    let out = ct.render(&[], true, Some(&tools)).ok().unwrap();
    assert_eq!(out, "<s>[]lookup:functionTrue");
}

#[test]
fn raise_exception_fails_rendering() {
    let ct = ChatTemplate::new("{{ raise_exception('no system role') }}", None, None).ok().unwrap();
    let err = ct.render(&[], true, None).err().unwrap();
    assert!(err.message.contains("no system role"));
}

#[test]
fn bad_template_is_refused() {
    assert!(ChatTemplate::new("{% for %}", None, None).is_err());
}

#[test]
fn messages_read_from_json() {
    let j = JsonValue::Array(vec![
        obj(vec![("role", s("user")), ("content", s("hi")), ("extra", JsonValue::Bool(true))]),
        obj(vec![
            ("role", s("assistant")),
            ("content", JsonValue::Null),
            (
                "tool_calls",
                JsonValue::Array(vec![obj(vec![
                    ("id", s("c1")),
                    ("type", s("function")),
                    ("function", obj(vec![("name", s("f")), ("arguments", s("{}"))])),
                ])]),
            ),
        ]),
    ]);
    let ms = tokend::chat_template::messages_from_json(&j).ok().unwrap();
    assert_eq!(ms.len(), 2);
    assert_eq!(ms[0].role, "user");
    assert_eq!(ms[0].content.as_deref(), Some("hi"));
    assert!(ms[1].content.is_none());
    let calls = ms[1].tool_calls.as_ref().unwrap();
    assert_eq!(calls[0].id, "c1");
    assert_eq!(calls[0].function.name, "f");
    let missing = JsonValue::Array(vec![obj(vec![("content", s("x"))])]);
    assert_eq!(
        tokend::chat_template::messages_from_json(&missing).err().unwrap(),
        "missing field `role`"
    );
    let not_array = s("x");
    assert!(tokend::chat_template::messages_from_json(&not_array).is_err());
}

#[test]
fn message_json_round_trip_fields() {
    let m = ChatMessage {
        role: "assistant".into(),
        content: None,
        tool_calls: Some(vec![ToolCall {
            id: "c".into(),
            call_type: "function".into(),
            function: FunctionCall { name: "n".into(), arguments: "a".into() },
        }]),
        tool_call_id: None,
        name: Some("bot".into()),
    };
    match m.to_json() {
        JsonValue::Object(fields) => {
            let keys: Vec<&str> = fields.iter().map(|(k, _)| k.as_str()).collect();
            assert_eq!(keys, vec!["role", "tool_calls", "name"]);
        }
        _ => panic!("not an object"),
    }
}

#[test]
fn messages_read_back_as_written() {
    let written = vec![
        ChatMessage {
            role: "assistant".into(),
            content: Some("calling".into()),
            tool_calls: Some(vec![ToolCall {
                id: "c".into(),
                call_type: "function".into(),
                function: FunctionCall { name: "n".into(), arguments: "{\"x\":1}".into() },
            }]),
            tool_call_id: None,
            name: Some("bot".into()),
        },
        ChatMessage {
            role: "tool".into(),
            content: None,
            tool_calls: None,
            tool_call_id: Some("c".into()),
            name: None,
        },
    ];
    let j = tokend::chat_template::messages_to_json(&written);
    let read = tokend::chat_template::messages_from_json(&j).ok().unwrap();
    assert_eq!(read.len(), 2);
    assert_eq!(read[0].role, "assistant");
    assert_eq!(read[0].content.as_deref(), Some("calling"));
    let calls = read[0].tool_calls.as_ref().unwrap();
    assert_eq!(calls.len(), 1);
    assert_eq!(calls[0].id, "c");
    assert_eq!(calls[0].call_type, "function");
    assert_eq!(calls[0].function.name, "n");
    assert_eq!(calls[0].function.arguments, "{\"x\":1}");
    assert_eq!(read[0].name.as_deref(), Some("bot"));
    assert!(read[0].tool_call_id.is_none());
    assert_eq!(read[1].role, "tool");
    assert!(read[1].content.is_none() && read[1].tool_calls.is_none() && read[1].name.is_none());
    assert_eq!(read[1].tool_call_id.as_deref(), Some("c"));
}
