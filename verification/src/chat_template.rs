//! OpenAI-style chat messages, their JSON form, and chat templates compiled
//! from a model's `tokenizer_config.json`.
use vstd::prelude::*;
use vstd::string::*;
use crate::json;
use crate::json::{Json, JsonValue, json_string, push_member};
use crate::text;

verus! {

// ---------------------------------------------------------------------------
// Message types
// ---------------------------------------------------------------------------

pub struct ChatMessage {
    pub role: String,
    pub content: Option<String>,
    pub tool_calls: Option<Vec<ToolCall>>,
    pub tool_call_id: Option<String>,
    pub name: Option<String>,
}

pub struct ToolCall {
    pub id: String,
    /// Written `type` in JSON.
    pub call_type: String,
    pub function: FunctionCall,
}

pub struct FunctionCall {
    pub name: String,
    pub arguments: String,
}

pub struct Tool {
    /// Written `type` in JSON.
    pub tool_type: String,
    pub function: ToolFunction,
}

pub struct ToolFunction {
    pub name: String,
    pub description: Option<String>,
    pub parameters: Option<JsonValue>,
}

pub struct FunctionCallView {
    pub name: Seq<char>,
    pub arguments: Seq<char>,
}

pub struct ToolCallView {
    pub id: Seq<char>,
    pub call_type: Seq<char>,
    pub function: FunctionCallView,
}

pub struct ChatMessageView {
    pub role: Seq<char>,
    pub content: Option<Seq<char>>,
    pub tool_calls: Option<Seq<ToolCallView>>,
    pub tool_call_id: Option<Seq<char>>,
    pub name: Option<Seq<char>>,
}

impl View for FunctionCall {
    type V = FunctionCallView;

    open spec fn view(&self) -> FunctionCallView {
        FunctionCallView { name: self.name@, arguments: self.arguments@ }
    }
}

impl View for ToolCall {
    type V = ToolCallView;

    open spec fn view(&self) -> ToolCallView {
        ToolCallView { id: self.id@, call_type: self.call_type@, function: self.function@ }
    }
}

pub open spec fn tool_calls_view(v: Seq<ToolCall>) -> Seq<ToolCallView> {
    v.map_values(|t: ToolCall| t@)
}

impl View for ChatMessage {
    type V = ChatMessageView;

    open spec fn view(&self) -> ChatMessageView {
        ChatMessageView {
            role: self.role@,
            content: text::opt_text(self.content),
            tool_calls: match self.tool_calls {
                Some(v) => Some(tool_calls_view(v@)),
                None => None,
            },
            tool_call_id: text::opt_text(self.tool_call_id),
            name: text::opt_text(self.name),
        }
    }
}

pub open spec fn messages_view(v: Seq<ChatMessage>) -> Seq<ChatMessageView> {
    v.map_values(|m: ChatMessage| m@)
}

// ---------------------------------------------------------------------------
// JSON form of messages and tools, as their serde derives write them
// ---------------------------------------------------------------------------

/// The member `(key, v)` when `v` is present, and nothing otherwise.
pub open spec fn opt_member(key: Seq<char>, v: Option<Json>) -> Seq<(Seq<char>, Json)> {
    match v {
        Some(j) => seq![(key, j)],
        None => seq![],
    }
}

pub open spec fn opt_str_json(o: Option<Seq<char>>) -> Option<Json> {
    match o {
        Some(s) => Some(Json::Str(s)),
        None => None,
    }
}

pub open spec fn function_call_json(f: FunctionCallView) -> Json {
    Json::Object(seq![("name"@, Json::Str(f.name)), ("arguments"@, Json::Str(f.arguments))])
}

pub open spec fn tool_call_json(t: ToolCallView) -> Json {
    Json::Object(
        seq![
            ("id"@, Json::Str(t.id)),
            ("type"@, Json::Str(t.call_type)),
            ("function"@, function_call_json(t.function)),
        ],
    )
}

pub open spec fn tool_calls_json(s: Seq<ToolCallView>) -> Json {
    Json::Array(s.map_values(|t: ToolCallView| tool_call_json(t)))
}

/// The JSON object of a message: `role`, then each optional field that is present.
pub open spec fn message_json(m: ChatMessageView) -> Json {
    Json::Object(
        seq![("role"@, Json::Str(m.role))] + opt_member("content"@, opt_str_json(m.content))
            + opt_member(
            "tool_calls"@,
            match m.tool_calls {
                Some(s) => Some(tool_calls_json(s)),
                None => None,
            },
        ) + opt_member("tool_call_id"@, opt_str_json(m.tool_call_id)) + opt_member(
            "name"@,
            opt_str_json(m.name),
        ),
    )
}

pub open spec fn messages_json(s: Seq<ChatMessageView>) -> Json {
    Json::Array(s.map_values(|m: ChatMessageView| message_json(m)))
}

pub open spec fn tool_function_json(f: ToolFunction) -> Json {
    Json::Object(
        seq![("name"@, Json::Str(f.name@))] + opt_member(
            "description"@,
            opt_str_json(text::opt_text(f.description)),
        ) + opt_member(
            "parameters"@,
            match f.parameters {
                Some(p) => Some(p@),
                None => None,
            },
        ),
    )
}

pub open spec fn tool_json(t: Tool) -> Json {
    Json::Object(
        seq![("type"@, Json::Str(t.tool_type@)), ("function"@, tool_function_json(t.function))],
    )
}

pub open spec fn tools_json(s: Seq<Tool>) -> Json {
    Json::Array(s.map_values(|t: Tool| tool_json(t)))
}

/// Appends the member `(key, s)` when `s` is present.
pub fn push_opt_str(fields: &mut Vec<(String, JsonValue)>, key: &str, s: &Option<String>)
    ensures
        json::view_fields(final(fields)@) == json::view_fields(old(fields)@) + opt_member(
            key@,
            opt_str_json(text::opt_text(*s)),
        ),
{
    match s {
        Some(s) => {
            push_member(fields, key, json_string(s.as_str()));
            assert(json::view_fields(fields@) =~= json::view_fields(old(fields)@) + opt_member(
                key@,
                opt_str_json(text::opt_text(Some(*s))),
            ));
        },
        None => {
            assert(json::view_fields(fields@) =~= json::view_fields(old(fields)@) + opt_member(
                key@,
                opt_str_json(text::opt_text(None::<String>)),
            ));
        },
    }
}

impl FunctionCall {
    /// The JSON object of this call.
    pub fn to_json(&self) -> (r: JsonValue)
        ensures
            r@ == function_call_json(self@),
    {
        let mut fields: Vec<(String, JsonValue)> = Vec::new();
        push_member(&mut fields, "name", json_string(self.name.as_str()));
        push_member(&mut fields, "arguments", json_string(self.arguments.as_str()));
        let r = JsonValue::Object(fields);
        assert(json::view_fields(fields@) =~= seq![
            ("name"@, Json::Str(self.name@)),
            ("arguments"@, Json::Str(self.arguments@)),
        ]);
        r
    }
}

impl ToolCall {
    /// The JSON object of this tool call.
    pub fn to_json(&self) -> (r: JsonValue)
        ensures
            r@ == tool_call_json(self@),
    {
        let mut fields: Vec<(String, JsonValue)> = Vec::new();
        push_member(&mut fields, "id", json_string(self.id.as_str()));
        push_member(&mut fields, "type", json_string(self.call_type.as_str()));
        push_member(&mut fields, "function", self.function.to_json());
        let r = JsonValue::Object(fields);
        assert(json::view_fields(fields@) =~= seq![
            ("id"@, Json::Str(self.id@)),
            ("type"@, Json::Str(self.call_type@)),
            ("function"@, function_call_json(self.function@)),
        ]);
        r
    }
}

/// The JSON array of some tool calls.
pub fn tool_calls_to_json(calls: &Vec<ToolCall>) -> (r: JsonValue)
    ensures
        r@ == tool_calls_json(tool_calls_view(calls@)),
{
    let mut items: Vec<JsonValue> = Vec::new();
    let mut i: usize = 0;
    while i < calls.len()
        invariant
            i <= calls.len(),
            json::view_items(items@) =~= calls@.take(i as int).map_values(|t: ToolCall| tool_call_json(t@)),
        decreases calls.len() - i,
    {
        let j = calls[i].to_json();
        proof {
            json::lemma_view_items_push(items@, j);
        }
        items.push(j);
        assert(calls@.take(i + 1).map_values(|t: ToolCall| tool_call_json(t@)) =~= calls@.take(
            i as int,
        ).map_values(|t: ToolCall| tool_call_json(t@)).push(tool_call_json(calls@[i as int]@)));
        i = i + 1;
    }
    assert(calls@.take(i as int) =~= calls@);
    let r = JsonValue::Array(items);
    assert(json::view_items(items@) =~= tool_calls_view(calls@).map_values(|t: ToolCallView| tool_call_json(t)));
    r
}

impl ChatMessage {
    /// The JSON object of this message.
    pub fn to_json(&self) -> (r: JsonValue)
        ensures
            r@ == message_json(self@),
    {
        let mut fields: Vec<(String, JsonValue)> = Vec::new();
        push_member(&mut fields, "role", json_string(self.role.as_str()));
        push_opt_str(&mut fields, "content", &self.content);
        let ghost mid = json::view_fields(fields@);
        match &self.tool_calls {
            Some(calls) => {
                push_member(&mut fields, "tool_calls", tool_calls_to_json(calls));
                assert(json::view_fields(fields@) =~= mid + opt_member(
                    "tool_calls"@,
                    Some(tool_calls_json(tool_calls_view(calls@))),
                ));
            },
            None => {
                assert(json::view_fields(fields@) =~= mid + opt_member("tool_calls"@, None));
            },
        }
        push_opt_str(&mut fields, "tool_call_id", &self.tool_call_id);
        push_opt_str(&mut fields, "name", &self.name);
        let r = JsonValue::Object(fields);
        assert(json::view_fields(fields@) =~= seq![("role"@, Json::Str(self@.role))] + opt_member(
            "content"@,
            opt_str_json(self@.content),
        ) + opt_member(
            "tool_calls"@,
            match self@.tool_calls {
                Some(s) => Some(tool_calls_json(s)),
                None => None,
            },
        ) + opt_member("tool_call_id"@, opt_str_json(self@.tool_call_id)) + opt_member(
            "name"@,
            opt_str_json(self@.name),
        ));
        r
    }
}

/// The JSON array of some messages.
pub fn messages_to_json(messages: &[ChatMessage]) -> (r: JsonValue)
    ensures
        r@ == messages_json(messages_view(messages@)),
{
    let mut items: Vec<JsonValue> = Vec::new();
    let mut i: usize = 0;
    while i < messages.len()
        invariant
            i <= messages.len(),
            json::view_items(items@) =~= messages@.take(i as int).map_values(
                |m: ChatMessage| message_json(m@),
            ),
        decreases messages.len() - i,
    {
        let j = messages[i].to_json();
        proof {
            json::lemma_view_items_push(items@, j);
        }
        items.push(j);
        assert(messages@.take(i + 1).map_values(|m: ChatMessage| message_json(m@))
            =~= messages@.take(i as int).map_values(|m: ChatMessage| message_json(m@)).push(
            message_json(messages@[i as int]@),
        ));
        i = i + 1;
    }
    assert(messages@.take(i as int) =~= messages@);
    let r = JsonValue::Array(items);
    assert(json::view_items(items@) =~= messages_view(messages@).map_values(
        |m: ChatMessageView| message_json(m),
    ));
    r
}

} // verus!

verus! {

// ---------------------------------------------------------------------------
// Reading messages from JSON, as their serde derives read an object
// ---------------------------------------------------------------------------

pub open spec fn missing_field(field: Seq<char>) -> Seq<char> {
    "missing field `"@ + field + "`"@
}

pub open spec fn invalid_type(expected: Seq<char>) -> Seq<char> {
    "invalid type: expected "@ + expected
}

/// A required string member.
pub open spec fn required_str(obj: Json, field: Seq<char>) -> Result<Seq<char>, Seq<char>> {
    match json::json_get(obj, field) {
        None => Err(missing_field(field)),
        Some(Json::Str(s)) => Ok(s),
        Some(_) => Err(invalid_type("a string"@)),
    }
}

/// An optional string member: absent or `null` read as nothing.
pub open spec fn optional_str(obj: Json, field: Seq<char>) -> Result<Option<Seq<char>>, Seq<char>> {
    match json::json_get(obj, field) {
        None => Ok(None),
        Some(Json::Null) => Ok(None),
        Some(Json::Str(s)) => Ok(Some(s)),
        Some(_) => Err(invalid_type("a string"@)),
    }
}

pub open spec fn is_object(j: Json) -> bool {
    j is Object
}

pub open spec fn decode_function_call(j: Json) -> Result<FunctionCallView, Seq<char>> {
    if !is_object(j) {
        Err(invalid_type("struct FunctionCall"@))
    } else {
        match required_str(j, "name"@) {
            Err(e) => Err(e),
            Ok(name) => match required_str(j, "arguments"@) {
                Err(e) => Err(e),
                Ok(arguments) => Ok(FunctionCallView { name, arguments }),
            },
        }
    }
}

pub open spec fn decode_tool_call(j: Json) -> Result<ToolCallView, Seq<char>> {
    if !is_object(j) {
        Err(invalid_type("struct ToolCall"@))
    } else {
        match required_str(j, "id"@) {
            Err(e) => Err(e),
            Ok(id) => match required_str(j, "type"@) {
                Err(e) => Err(e),
                Ok(call_type) => match json::json_get(j, "function"@) {
                    None => Err(missing_field("function"@)),
                    Some(f) => match decode_function_call(f) {
                        Err(e) => Err(e),
                        Ok(function) => Ok(ToolCallView { id, call_type, function }),
                    },
                },
            },
        }
    }
}

/// The tool calls of a JSON array, or the error of its first bad element.
pub open spec fn decode_tool_call_list(items: Seq<Json>) -> Result<Seq<ToolCallView>, Seq<char>>
    decreases items.len(),
{
    if items.len() == 0 {
        Ok(seq![])
    } else {
        match decode_tool_call_list(items.drop_last()) {
            Err(e) => Err(e),
            Ok(prefix) => match decode_tool_call(items.last()) {
                Err(e) => Err(e),
                Ok(t) => Ok(prefix.push(t)),
            },
        }
    }
}

pub open spec fn optional_tool_calls(obj: Json) -> Result<Option<Seq<ToolCallView>>, Seq<char>> {
    match json::json_get(obj, "tool_calls"@) {
        None => Ok(None),
        Some(Json::Null) => Ok(None),
        Some(Json::Array(items)) => match decode_tool_call_list(items) {
            Err(e) => Err(e),
            Ok(s) => Ok(Some(s)),
        },
        Some(_) => Err(invalid_type("a sequence"@)),
    }
}

/// A message read from a JSON object; unknown members are ignored.
pub open spec fn decode_message(j: Json) -> Result<ChatMessageView, Seq<char>> {
    if !is_object(j) {
        Err(invalid_type("struct ChatMessage"@))
    } else {
        match required_str(j, "role"@) {
            Err(e) => Err(e),
            Ok(role) => match optional_str(j, "content"@) {
                Err(e) => Err(e),
                Ok(content) => match optional_tool_calls(j) {
                    Err(e) => Err(e),
                    Ok(tool_calls) => match optional_str(j, "tool_call_id"@) {
                        Err(e) => Err(e),
                        Ok(tool_call_id) => match optional_str(j, "name"@) {
                            Err(e) => Err(e),
                            Ok(name) => Ok(
                                ChatMessageView { role, content, tool_calls, tool_call_id, name },
                            ),
                        },
                    },
                },
            },
        }
    }
}

pub open spec fn decode_message_list(items: Seq<Json>) -> Result<Seq<ChatMessageView>, Seq<char>>
    decreases items.len(),
{
    if items.len() == 0 {
        Ok(seq![])
    } else {
        match decode_message_list(items.drop_last()) {
            Err(e) => Err(e),
            Ok(prefix) => match decode_message(items.last()) {
                Err(e) => Err(e),
                Ok(m) => Ok(prefix.push(m)),
            },
        }
    }
}

/// The messages of a JSON array.
pub open spec fn decode_messages(j: Json) -> Result<Seq<ChatMessageView>, Seq<char>> {
    match j {
        Json::Array(items) => decode_message_list(items),
        _ => Err(invalid_type("a sequence"@)),
    }
}

fn missing_field_text(field: &str) -> (r: String)
    ensures
        r@ == missing_field(field@),
{
    let mut s = String::from_str("missing field `");
    s.append(field);
    s.append("`");
    s
}

fn invalid_type_text(expected: &str) -> (r: String)
    ensures
        r@ == invalid_type(expected@),
{
    let mut s = String::from_str("invalid type: expected ");
    s.append(expected);
    s
}

fn read_required_str(obj: &JsonValue, field: &str) -> (r: Result<String, String>)
    ensures
        required_str(obj@, field@) == (match r {
            Ok(s) => Ok(s@),
            Err(e) => Err(e@),
        }),
{
    match obj.get(field) {
        None => Err(missing_field_text(field)),
        Some(v) => match v.as_str() {
            Some(s) => Ok(String::from_str(s)),
            None => Err(invalid_type_text("a string")),
        },
    }
}

fn read_optional_str(obj: &JsonValue, field: &str) -> (r: Result<Option<String>, String>)
    ensures
        optional_str(obj@, field@) == (match r {
            Ok(s) => Ok(text::opt_text(s)),
            Err(e) => Err(e@),
        }),
{
    match obj.get(field) {
        None => Ok(None),
        Some(v) => match v {
            JsonValue::Null => Ok(None),
            JsonValue::Str(s) => Ok(Some(s.clone())),
            _ => Err(invalid_type_text("a string")),
        },
    }
}

fn is_object_value(j: &JsonValue) -> (r: bool)
    ensures
        r == is_object(j@),
{
    match j {
        JsonValue::Object(_) => true,
        _ => false,
    }
}

impl FunctionCall {
    /// Reads a function call from a JSON object.
    pub fn from_json(j: &JsonValue) -> (r: Result<FunctionCall, String>)
        ensures
            decode_function_call(j@) == (match r {
                Ok(f) => Ok(f@),
                Err(e) => Err(e@),
            }),
    {
        if !is_object_value(j) {
            return Err(invalid_type_text("struct FunctionCall"));
        }
        let name = read_required_str(j, "name")?;
        let arguments = read_required_str(j, "arguments")?;
        Ok(FunctionCall { name, arguments })
    }
}

impl ToolCall {
    /// Reads a tool call from a JSON object.
    pub fn from_json(j: &JsonValue) -> (r: Result<ToolCall, String>)
        ensures
            decode_tool_call(j@) == (match r {
                Ok(t) => Ok(t@),
                Err(e) => Err(e@),
            }),
    {
        if !is_object_value(j) {
            return Err(invalid_type_text("struct ToolCall"));
        }
        let id = read_required_str(j, "id")?;
        let call_type = read_required_str(j, "type")?;
        let function = match j.get("function") {
            None => {
                return Err(missing_field_text("function"));
            },
            Some(f) => FunctionCall::from_json(f)?,
        };
        Ok(ToolCall { id, call_type, function })
    }
}

pub proof fn lemma_tool_call_list_err(s: Seq<Json>, k: int)
    requires
        0 <= k <= s.len(),
        decode_tool_call_list(s.take(k)) is Err,
    ensures
        decode_tool_call_list(s) == decode_tool_call_list(s.take(k)),
    decreases s.len(),
{
    if k == s.len() {
        assert(s.take(k) =~= s);
    } else {
        assert(s.drop_last().take(k) =~= s.take(k));
        lemma_tool_call_list_err(s.drop_last(), k);
    }
}

pub proof fn lemma_message_list_err(s: Seq<Json>, k: int)
    requires
        0 <= k <= s.len(),
        decode_message_list(s.take(k)) is Err,
    ensures
        decode_message_list(s) == decode_message_list(s.take(k)),
    decreases s.len(),
{
    if k == s.len() {
        assert(s.take(k) =~= s);
    } else {
        assert(s.drop_last().take(k) =~= s.take(k));
        lemma_message_list_err(s.drop_last(), k);
    }
}

/// Reads the tool calls of a JSON array.
pub fn tool_calls_from_json(items: &Vec<JsonValue>) -> (r: Result<Vec<ToolCall>, String>)
    ensures
        decode_tool_call_list(json::view_items(items@)) == (match r {
            Ok(v) => Ok(tool_calls_view(v@)),
            Err(e) => Err(e@),
        }),
{
    let ghost vi = json::view_items(items@);
    proof {
        json::lemma_view_items(items@);
    }
    let mut out: Vec<ToolCall> = Vec::new();
    let mut i: usize = 0;
    assert(vi.take(0) =~= seq![]);
    assert(tool_calls_view(out@) =~= seq![]);
    while i < items.len()
        invariant
            i <= items.len(),
            vi == json::view_items(items@),
            vi.len() == items.len(),
            forall|k: int| 0 <= k < items.len() ==> #[trigger] vi[k] == items@[k]@,
            decode_tool_call_list(vi.take(i as int)) == Ok::<Seq<ToolCallView>, Seq<char>>(
                tool_calls_view(out@),
            ),
        decreases items.len() - i,
    {
        let t = ToolCall::from_json(&items[i]);
        assert(vi.take(i + 1).drop_last() =~= vi.take(i as int));
        assert(vi.take(i + 1).last() == items@[i as int]@);
        match t {
            Err(e) => {
                proof {
                    lemma_tool_call_list_err(vi, i + 1);
                }
                return Err(e);
            },
            Ok(t) => {
                let ghost before = out@;
                out.push(t);
                assert(tool_calls_view(out@) =~= tool_calls_view(before).push(t@));
            },
        }
        i = i + 1;
    }
    assert(vi.take(i as int) =~= vi);
    Ok(out)
}

impl ChatMessage {
    /// Reads a message from a JSON object.
    pub fn from_json(j: &JsonValue) -> (r: Result<ChatMessage, String>)
        ensures
            decode_message(j@) == (match r {
                Ok(m) => Ok(m@),
                Err(e) => Err(e@),
            }),
    {
        if !is_object_value(j) {
            return Err(invalid_type_text("struct ChatMessage"));
        }
        let role = read_required_str(j, "role")?;
        let content = read_optional_str(j, "content")?;
        let tool_calls = match j.get("tool_calls") {
            None => None,
            Some(v) => match v {
                JsonValue::Null => None,
                JsonValue::Array(items) => Some(tool_calls_from_json(items)?),
                _ => {
                    return Err(invalid_type_text("a sequence"));
                },
            },
        };
        let tool_call_id = read_optional_str(j, "tool_call_id")?;
        let name = read_optional_str(j, "name")?;
        Ok(ChatMessage { role, content, tool_calls, tool_call_id, name })
    }
}

/// Reads the messages of a JSON array.
pub fn messages_from_json(j: &JsonValue) -> (r: Result<Vec<ChatMessage>, String>)
    ensures
        decode_messages(j@) == (match r {
            Ok(v) => Ok(messages_view(v@)),
            Err(e) => Err(e@),
        }),
{
    let items = match j {
        JsonValue::Array(items) => items,
        _ => {
            return Err(invalid_type_text("a sequence"));
        },
    };
    let ghost vi = json::view_items(items@);
    proof {
        json::lemma_view_items(items@);
    }
    let mut out: Vec<ChatMessage> = Vec::new();
    let mut i: usize = 0;
    assert(vi.take(0) =~= seq![]);
    assert(messages_view(out@) =~= seq![]);
    assert(j@ == Json::Array(vi));
    while i < items.len()
        invariant
            i <= items.len(),
            j@ == Json::Array(vi),
            vi == json::view_items(items@),
            vi.len() == items.len(),
            forall|k: int| 0 <= k < items.len() ==> #[trigger] vi[k] == items@[k]@,
            decode_message_list(vi.take(i as int)) == Ok::<Seq<ChatMessageView>, Seq<char>>(
                messages_view(out@),
            ),
        decreases items.len() - i,
    {
        let m = ChatMessage::from_json(&items[i]);
        assert(vi.take(i + 1).drop_last() =~= vi.take(i as int));
        assert(vi.take(i + 1).last() == items@[i as int]@);
        match m {
            Err(e) => {
                proof {
                    lemma_message_list_err(vi, i + 1);
                }
                return Err(e);
            },
            Ok(m) => {
                let ghost before = out@;
                out.push(m);
                assert(messages_view(out@) =~= messages_view(before).push(m@));
            },
        }
        i = i + 1;
    }
    assert(vi.take(i as int) =~= vi);
    Ok(out)
}

} // verus!

verus! {

// ---------------------------------------------------------------------------
// Tools in JSON
// ---------------------------------------------------------------------------

impl ToolFunction {
    /// The JSON object of this tool function.
    pub fn to_json(&self) -> (r: JsonValue)
        ensures
            r@ == tool_function_json(*self),
    {
        let mut fields: Vec<(String, JsonValue)> = Vec::new();
        push_member(&mut fields, "name", json_string(self.name.as_str()));
        push_opt_str(&mut fields, "description", &self.description);
        let ghost mid = json::view_fields(fields@);
        match &self.parameters {
            Some(p) => {
                push_member(&mut fields, "parameters", p.deep_copy());
                assert(json::view_fields(fields@) =~= mid + opt_member("parameters"@, Some(p@)));
            },
            None => {
                assert(json::view_fields(fields@) =~= mid + opt_member("parameters"@, None));
            },
        }
        let r = JsonValue::Object(fields);
        assert(json::view_fields(fields@) =~= seq![("name"@, Json::Str(self.name@))] + opt_member(
            "description"@,
            opt_str_json(text::opt_text(self.description)),
        ) + opt_member(
            "parameters"@,
            match self.parameters {
                Some(p) => Some(p@),
                None => None,
            },
        ));
        r
    }
}

impl Tool {
    /// The JSON object of this tool.
    pub fn to_json(&self) -> (r: JsonValue)
        ensures
            r@ == tool_json(*self),
    {
        let mut fields: Vec<(String, JsonValue)> = Vec::new();
        push_member(&mut fields, "type", json_string(self.tool_type.as_str()));
        push_member(&mut fields, "function", self.function.to_json());
        let r = JsonValue::Object(fields);
        assert(json::view_fields(fields@) =~= seq![
            ("type"@, Json::Str(self.tool_type@)),
            ("function"@, tool_function_json(self.function)),
        ]);
        r
    }
}

/// The JSON array of some tools.
pub fn tools_to_json(tools: &[Tool]) -> (r: JsonValue)
    ensures
        r@ == tools_json(tools@),
{
    let mut items: Vec<JsonValue> = Vec::new();
    let mut i: usize = 0;
    while i < tools.len()
        invariant
            i <= tools.len(),
            json::view_items(items@) =~= tools@.take(i as int).map_values(|t: Tool| tool_json(t)),
        decreases tools.len() - i,
    {
        let j = tools[i].to_json();
        proof {
            json::lemma_view_items_push(items@, j);
        }
        items.push(j);
        assert(tools@.take(i + 1).map_values(|t: Tool| tool_json(t)) =~= tools@.take(
            i as int,
        ).map_values(|t: Tool| tool_json(t)).push(tool_json(tools@[i as int])));
        i = i + 1;
    }
    assert(tools@.take(i as int) =~= tools@);
    JsonValue::Array(items)
}

// ---------------------------------------------------------------------------
// tokenizer_config.json
// ---------------------------------------------------------------------------

/// The first element of `arr` whose `name` member is the string `name`.
pub open spec fn find_named(arr: Seq<Json>, name: Seq<char>) -> Option<Json>
    decreases arr.len(),
{
    if arr.len() == 0 {
        None
    } else if json::json_get_str(arr[0], "name"@) == Some(name) {
        Some(arr[0])
    } else {
        find_named(arr.drop_first(), name)
    }
}

/// The chat template of a `tokenizer_config.json` document: the
/// `chat_template` string, or, where it is an array of `{name, template}`
/// entries, the template of the first one named `default`, else that of the
/// first entry.
pub open spec fn chat_template_of(config: Json) -> Option<Seq<char>> {
    match json::json_get(config, "chat_template"@) {
        Some(Json::Str(s)) => Some(s),
        Some(Json::Array(arr)) => match find_named(arr, "default"@) {
            Some(e) => json::json_get_str(e, "template"@),
            None => if arr.len() > 0 {
                json::json_get_str(arr[0], "template"@)
            } else {
                None
            },
        },
        _ => None,
    }
}

/// A special token of a `tokenizer_config.json` document: the member `key`
/// when it is a string, or the `content` string of the member when it is an
/// object.
pub open spec fn special_token_of(config: Json, key: Seq<char>) -> Option<Seq<char>> {
    match json::json_get(config, key) {
        Some(Json::Str(s)) => Some(s),
        Some(Json::Object(fields)) => json::json_get_str(Json::Object(fields), "content"@),
        _ => None,
    }
}

fn get_str<'a>(j: &'a JsonValue, key: &str) -> (r: Option<&'a str>)
    ensures
        match r {
            Some(s) => json::json_get_str(j@, key@) == Some(s@),
            None => json::json_get_str(j@, key@) is None,
        },
{
    match j.get(key) {
        Some(v) => v.as_str(),
        None => None,
    }
}

proof fn lemma_find_named_skip(arr: Seq<Json>, name: Seq<char>, i: int)
    requires
        0 <= i < arr.len(),
        json::json_get_str(arr[i], "name"@) != Some(name),
    ensures
        find_named(arr.skip(i), name) == find_named(arr.skip(i + 1), name),
{
    assert(arr.skip(i).drop_first() =~= arr.skip(i + 1));
}

/// Extracts the chat template from a `tokenizer_config.json` document.
///
/// The `chat_template` field is typically a string, but some models use an
/// array of `{name, template}` objects (e.g., for tool-use variants); then
/// the first one named "default" is taken, or else the first entry.
pub fn extract_chat_template(config: &JsonValue) -> (r: Option<String>)
    ensures
        text::opt_text(r) == chat_template_of(config@),
{
    match config.get("chat_template") {
        Some(JsonValue::Str(s)) => Some(s.clone()),
        Some(JsonValue::Array(arr)) => {
            let ghost va = json::view_items(arr@);
            proof {
                json::lemma_view_items(arr@);
                assert(va.skip(0) =~= va);
            }
            assert(json::json_get(config@, "chat_template"@) == Some(Json::Array(va)));
            let mut i: usize = 0;
            while i < arr.len()
                invariant
                    i <= arr.len(),
                    json::json_get(config@, "chat_template"@) == Some(Json::Array(va)),
                    va == json::view_items(arr@),
                    va.len() == arr.len(),
                    forall|k: int| 0 <= k < arr.len() ==> #[trigger] va[k] == arr@[k]@,
                    find_named(va, "default"@) == find_named(va.skip(i as int), "default"@),
                decreases arr.len() - i,
            {
                let name = get_str(&arr[i], "name");
                let is_default = match name {
                    Some(n) => text::same_text(n, "default"),
                    None => false,
                };
                if is_default {
                    assert(va.skip(i as int)[0] == va[i as int]);
                    return match get_str(&arr[i], "template") {
                        Some(t) => Some(String::from_str(t)),
                        None => None,
                    };
                }
                proof {
                    lemma_find_named_skip(va, "default"@, i as int);
                }
                i = i + 1;
            }
            assert(va.skip(i as int).len() == 0);
            if arr.len() > 0 {
                match get_str(&arr[0], "template") {
                    Some(t) => Some(String::from_str(t)),
                    None => None,
                }
            } else {
                None
            }
        },
        _ => None,
    }
}

/// Extracts a special token (`bos_token` / `eos_token`) from a
/// `tokenizer_config.json` document: either a plain string or an object with
/// a "content" field.
pub fn extract_special_token(config: &JsonValue, key: &str) -> (r: Option<String>)
    ensures
        text::opt_text(r) == special_token_of(config@, key@),
{
    match config.get(key) {
        Some(JsonValue::Str(s)) => Some(s.clone()),
        Some(obj) => match obj {
            JsonValue::Object(_) => match get_str(obj, "content") {
                Some(c) => Some(String::from_str(c)),
                None => None,
            },
            _ => None,
        },
        None => None,
    }
}

} // verus!

verus! {

// ---------------------------------------------------------------------------
// Chat template engine
// ---------------------------------------------------------------------------

#[verifier::external_type_specification]
#[verifier::external_body]
pub struct ExEnvironment<'source>(minijinja::Environment<'source>);

#[verifier::external_type_specification]
#[verifier::external_body]
pub struct ExMinijinjaError(minijinja::Error);

/// What `minijinja` makes of a template source: `None` where
/// `Environment::add_template_owned` accepts it, else the text of its error.
pub uninterp spec fn template_compile(source: Seq<char>) -> Option<Seq<char>>;

/// What rendering a compiled template with a context gives: the rendered
/// text, or the text of the error.
pub uninterp spec fn template_render(source: Seq<char>, ctx: Json) -> Result<Seq<char>, Seq<char>>;

/// An error of the template engine, held by its message.
#[derive(Debug)]
pub struct TemplateError {
    pub message: String,
}

/// Compiled chat template for a single model. Constructed once at model load
/// time; `render()` is called on the hot path.
pub struct ChatTemplate {
    env: minijinja::Environment<'static>,
    source: String,
    bos_token: Option<String>,
    eos_token: Option<String>,
}

pub struct ChatTemplateView {
    /// The template source, after the fixups that `new` applies.
    pub source: Seq<char>,
    pub bos_token: Option<Seq<char>>,
    pub eos_token: Option<Seq<char>>,
}

impl View for ChatTemplate {
    type V = ChatTemplateView;

    closed spec fn view(&self) -> ChatTemplateView {
        ChatTemplateView {
            source: self.source@,
            bos_token: text::opt_text(self.bos_token),
            eos_token: text::opt_text(self.eos_token),
        }
    }
}

/// The fixups applied to a template source before compiling it: Python
/// slice reversal becomes minijinja's `reverse` filter, and the training-only
/// generation tags are removed.
pub open spec fn patch_template(source: Seq<char>) -> Seq<char> {
    text::replace_all(
        text::replace_all(
            text::replace_all(source, "[::-1]"@, "|reverse"@),
            "{% generation %}"@,
            ""@,
        ),
        "{% endgeneration %}"@,
        ""@,
    )
}

/// The context a template is rendered with.
pub open spec fn render_context(
    t: ChatTemplateView,
    messages: Seq<ChatMessageView>,
    add_generation_prompt: bool,
    tools: Option<Seq<Tool>>,
) -> Json {
    Json::Object(
        seq![
            ("messages"@, messages_json(messages)),
            ("bos_token"@, Json::Str(match t.bos_token { Some(s) => s, None => ""@ })),
            ("eos_token"@, Json::Str(match t.eos_token { Some(s) => s, None => ""@ })),
            ("add_generation_prompt"@, Json::Bool(add_generation_prompt)),
            ("tools"@, match tools { Some(ts) => tools_json(ts), None => Json::Null }),
        ],
    )
}

/// Makes the error of `minijinja`'s kind `InvalidOperation` with a message.
#[verifier::external_body]
fn invalid_operation(msg: String) -> minijinja::Error {
    minijinja::Error::new(minijinja::ErrorKind::InvalidOperation, msg)
}

/// The `raise_exception` function that Hugging Face templates call: it fails
/// with the given message.
fn raise_exception(err_text: String) -> (r: Result<String, minijinja::Error>)
    ensures
        r is Err,
{
    Err(invalid_operation(err_text))
}

/// Builds a `minijinja::Environment` with Python method compatibility
/// (`minijinja_contrib::pycompat`) and the `raise_exception` function, and
/// adds `source` to it under the name `chat_template`. The contract claims
/// that whether `add_template_owned` accepts the source, and its error text,
/// are a function of the source, named `template_compile`.
#[verifier::external_body]
fn compile_template(source: &str) -> (r: Result<minijinja::Environment<'static>, String>)
    ensures
        template_compile(source@) == (match r {
            Ok(_) => None,
            Err(e) => Some(e@),
        }),
{
    let mut env = minijinja::Environment::new();
    env.set_unknown_method_callback(minijinja_contrib::pycompat::unknown_method_callback);
    env.add_function("raise_exception", raise_exception);
    match env.add_template_owned("chat_template", source.to_string()) {
        Ok(()) => Ok(env),
        Err(e) => Err(e.to_string()),
    }
}

/// Renders the template named `chat_template` of `t`'s environment with the
/// JSON context `ctx` (`Template::render`). `t.env` is only ever made by
/// `compile_template` from `t.source`; the contract claims that the outcome
/// is a function of that source and the context, named `template_render`.
#[verifier::external_body]
fn render_compiled(t: &ChatTemplate, ctx: &JsonValue) -> (r: Result<String, String>)
    ensures
        template_render(t@.source, ctx@) == (match r {
            Ok(s) => Ok(s@),
            Err(e) => Err(e@),
        }),
{
    match t.env.get_template("chat_template").and_then(|tmpl| tmpl.render(json::to_serde(ctx))) {
        Ok(s) => Ok(s),
        Err(e) => Err(e.to_string()),
    }
}

impl ChatTemplate {
    /// Compiles a chat template from the raw Jinja2 source string, after the
    /// fixups of `patch_template`.
    pub fn new(template_source: &str, bos_token: Option<String>, eos_token: Option<String>) -> (r:
        Result<Self, TemplateError>)
        ensures
            match r {
                Ok(t) => {
                    &&& template_compile(patch_template(template_source@)) is None
                    &&& t@ == ChatTemplateView {
                        source: patch_template(template_source@),
                        bos_token: text::opt_text(bos_token),
                        eos_token: text::opt_text(eos_token),
                    }
                },
                Err(e) => template_compile(patch_template(template_source@)) == Some(e.message@),
            },
    {
        proof {
            reveal_strlit("[::-1]");
            reveal_strlit("{% generation %}");
            reveal_strlit("{% endgeneration %}");
        }
        let a = text::replace(template_source, "[::-1]", "|reverse");
        let b = text::replace(a.as_str(), "{% generation %}", "");
        let patched = text::replace(b.as_str(), "{% endgeneration %}", "");
        match compile_template(patched.as_str()) {
            Ok(env) => Ok(ChatTemplate { env, source: patched, bos_token, eos_token }),
            Err(message) => Err(TemplateError { message }),
        }
    }

    /// Renders the chat template with the given messages and options.
    pub fn render(&self, messages: &[ChatMessage], add_generation_prompt: bool, tools: Option<&[Tool]>) -> (r:
        Result<String, TemplateError>)
        ensures
            template_render(
                self@.source,
                render_context(
                    self@,
                    messages_view(messages@),
                    add_generation_prompt,
                    match tools {
                        Some(ts) => Some(ts@),
                        None => None,
                    },
                ),
            ) == (match r {
                Ok(s) => Ok(s@),
                Err(e) => Err(e.message@),
            }),
    {
        let mut fields: Vec<(String, JsonValue)> = Vec::new();
        push_member(&mut fields, "messages", messages_to_json(messages));
        let bos = match &self.bos_token {
            Some(s) => s.as_str(),
            None => "",
        };
        let eos = match &self.eos_token {
            Some(s) => s.as_str(),
            None => "",
        };
        push_member(&mut fields, "bos_token", json_string(bos));
        push_member(&mut fields, "eos_token", json_string(eos));
        push_member(&mut fields, "add_generation_prompt", JsonValue::Bool(add_generation_prompt));
        let tools_value = match tools {
            Some(ts) => tools_to_json(ts),
            None => JsonValue::Null,
        };
        push_member(&mut fields, "tools", tools_value);
        let ghost tv = match tools {
            Some(ts) => Some(ts@),
            None => None,
        };
        assert(bos@ == match self@.bos_token { Some(s) => s, None => ""@ });
        assert(eos@ == match self@.eos_token { Some(s) => s, None => ""@ });
        assert(tools_value@ == match tv { Some(ts) => tools_json(ts), None => Json::Null });
        assert(json::view_fields(fields@) =~= seq![
            ("messages"@, messages_json(messages_view(messages@))),
            ("bos_token"@, Json::Str(match self@.bos_token { Some(s) => s, None => ""@ })),
            ("eos_token"@, Json::Str(match self@.eos_token { Some(s) => s, None => ""@ })),
            ("add_generation_prompt"@, Json::Bool(add_generation_prompt)),
            ("tools"@, match tv { Some(ts) => tools_json(ts), None => Json::Null }),
        ]);
        let ctx = JsonValue::Object(fields);
        assert(ctx@ == Json::Object(json::view_fields(fields@)));
        let ghost rc = render_context(self@, messages_view(messages@), add_generation_prompt, tv);
        assert(rc->Object_0 =~= json::view_fields(fields@));
        assert(ctx@ == render_context(
            self@,
            messages_view(messages@),
            add_generation_prompt,
            match tools {
                Some(ts) => Some(ts@),
                None => None,
            },
        ));
        match render_compiled(self, &ctx) {
            Ok(s) => Ok(s),
            Err(message) => Err(TemplateError { message }),
        }
    }
}

} // verus!

verus! {

// ---------------------------------------------------------------------------
// Laws: messages read back as they were written
// ---------------------------------------------------------------------------

proof fn lemma_find_field_concat(a: Seq<(Seq<char>, Json)>, b: Seq<(Seq<char>, Json)>, key: Seq<char>)
    ensures
        json::find_field(a + b, key) == (match json::find_field(a, key) {
            Some(j) => Some(j),
            None => json::find_field(b, key),
        }),
    decreases a.len(),
{
    if a.len() == 0 {
        assert(a + b =~= b);
    } else {
        assert((a + b).drop_first() =~= a.drop_first() + b);
        lemma_find_field_concat(a.drop_first(), b, key);
    }
}

proof fn lemma_find_opt_member(k: Seq<char>, v: Option<Json>, key: Seq<char>)
    ensures
        json::find_field(opt_member(k, v), key) == (if k == key {
            v
        } else {
            None
        }),
{
    reveal_with_fuel(json::find_field, 2);
    match v {
        Some(j) => {
            assert(seq![(k, j)].drop_first() =~= Seq::<(Seq<char>, Json)>::empty());
        },
        None => {},
    }
}

proof fn lemma_function_call_roundtrip(f: FunctionCallView)
    ensures
        decode_function_call(function_call_json(f)) == Ok::<FunctionCallView, Seq<char>>(f),
{
    reveal_strlit("name");
    reveal_strlit("arguments");
    reveal_with_fuel(json::find_field, 3);
    let fields = seq![("name"@, Json::Str(f.name)), ("arguments"@, Json::Str(f.arguments))];
    assert("name"@ != "arguments"@) by {
        assert("name"@.len() != "arguments"@.len());
    }
    assert(fields.drop_first() =~= seq![("arguments"@, Json::Str(f.arguments))]);
    assert(fields.drop_first().drop_first() =~= Seq::<(Seq<char>, Json)>::empty());
}

proof fn lemma_tool_call_roundtrip(t: ToolCallView)
    ensures
        decode_tool_call(tool_call_json(t)) == Ok::<ToolCallView, Seq<char>>(t),
{
    reveal_strlit("id");
    reveal_strlit("type");
    reveal_strlit("function");
    reveal_with_fuel(json::find_field, 4);
    assert("id"@ != "type"@ && "id"@ != "function"@ && "type"@ != "function"@) by {
        assert("id"@.len() != "type"@.len());
        assert("id"@.len() != "function"@.len());
        assert("type"@.len() != "function"@.len());
    }
    let fields = seq![
        ("id"@, Json::Str(t.id)),
        ("type"@, Json::Str(t.call_type)),
        ("function"@, function_call_json(t.function)),
    ];
    assert(fields.drop_first() =~= seq![
        ("type"@, Json::Str(t.call_type)),
        ("function"@, function_call_json(t.function)),
    ]);
    assert(fields.drop_first().drop_first() =~= seq![("function"@, function_call_json(t.function))]);
    assert(fields.drop_first().drop_first().drop_first() =~= Seq::<(Seq<char>, Json)>::empty());
    lemma_function_call_roundtrip(t.function);
}

proof fn lemma_tool_call_list_roundtrip(s: Seq<ToolCallView>)
    ensures
        decode_tool_call_list(s.map_values(|t: ToolCallView| tool_call_json(t))) == Ok::<
            Seq<ToolCallView>,
            Seq<char>,
        >(s),
    decreases s.len(),
{
    let items = s.map_values(|t: ToolCallView| tool_call_json(t));
    if s.len() > 0 {
        assert(items.drop_last() =~= s.drop_last().map_values(|t: ToolCallView| tool_call_json(t)));
        assert(items.last() == tool_call_json(s.last()));
        lemma_tool_call_list_roundtrip(s.drop_last());
        lemma_tool_call_roundtrip(s.last());
        assert(s.drop_last().push(s.last()) =~= s);
    } else {
        assert(s =~= Seq::<ToolCallView>::empty());
    }
}

proof fn lemma_message_keys_distinct()
    ensures
        "role"@ != "content"@,
        "role"@ != "tool_calls"@,
        "role"@ != "tool_call_id"@,
        "role"@ != "name"@,
        "content"@ != "tool_calls"@,
        "content"@ != "tool_call_id"@,
        "content"@ != "name"@,
        "tool_calls"@ != "tool_call_id"@,
        "tool_calls"@ != "name"@,
        "tool_call_id"@ != "name"@,
{
    reveal_strlit("role");
    reveal_strlit("content");
    reveal_strlit("tool_calls");
    reveal_strlit("tool_call_id");
    reveal_strlit("name");
    assert("role"@[0] != "name"@[0]);
    assert("role"@.len() != "content"@.len());
    assert("role"@.len() != "tool_calls"@.len());
    assert("role"@.len() != "tool_call_id"@.len());
    assert("content"@.len() != "tool_calls"@.len());
    assert("content"@.len() != "tool_call_id"@.len());
    assert("content"@.len() != "name"@.len());
    assert("tool_calls"@.len() != "tool_call_id"@.len());
    assert("tool_calls"@.len() != "name"@.len());
    assert("tool_call_id"@.len() != "name"@.len());
}

proof fn lemma_message_member(m: ChatMessageView, key: Seq<char>)
    ensures
        json::json_get(message_json(m), key) == (if key == "role"@ {
            Some(Json::Str(m.role))
        } else if key == "content"@ {
            opt_str_json(m.content)
        } else if key == "tool_calls"@ {
            match m.tool_calls {
                Some(s) => Some(tool_calls_json(s)),
                None => None,
            }
        } else if key == "tool_call_id"@ {
            opt_str_json(m.tool_call_id)
        } else if key == "name"@ {
            opt_str_json(m.name)
        } else {
            None
        }),
{
    lemma_message_keys_distinct();
    let s0 = seq![("role"@, Json::Str(m.role))];
    let s1 = opt_member("content"@, opt_str_json(m.content));
    let s2 = opt_member(
        "tool_calls"@,
        match m.tool_calls {
            Some(s) => Some(tool_calls_json(s)),
            None => None,
        },
    );
    let s3 = opt_member("tool_call_id"@, opt_str_json(m.tool_call_id));
    let s4 = opt_member("name"@, opt_str_json(m.name));
    lemma_find_field_concat(s0 + s1 + s2 + s3, s4, key);
    lemma_find_field_concat(s0 + s1 + s2, s3, key);
    lemma_find_field_concat(s0 + s1, s2, key);
    lemma_find_field_concat(s0, s1, key);
    assert(s0 =~= opt_member("role"@, Some(Json::Str(m.role))));
    lemma_find_opt_member("role"@, Some(Json::Str(m.role)), key);
    lemma_find_opt_member(
        "content"@,
        opt_str_json(m.content),
        key,
    );
    lemma_find_opt_member(
        "tool_calls"@,
        match m.tool_calls {
            Some(s) => Some(tool_calls_json(s)),
            None => None,
        },
        key,
    );
    lemma_find_opt_member("tool_call_id"@, opt_str_json(m.tool_call_id), key);
    lemma_find_opt_member("name"@, opt_str_json(m.name), key);
}

proof fn lemma_message_roundtrip(m: ChatMessageView)
    ensures
        decode_message(message_json(m)) == Ok::<ChatMessageView, Seq<char>>(m),
{
    lemma_message_keys_distinct();
    lemma_message_member(m, "role"@);
    lemma_message_member(m, "content"@);
    lemma_message_member(m, "tool_calls"@);
    lemma_message_member(m, "tool_call_id"@);
    lemma_message_member(m, "name"@);
    match m.tool_calls {
        Some(s) => lemma_tool_call_list_roundtrip(s),
        None => {},
    }
    let j = message_json(m);
    assert(is_object(j));
    assert(required_str(j, "role"@) == Ok::<Seq<char>, Seq<char>>(m.role));
    assert(optional_str(j, "content"@) == Ok::<Option<Seq<char>>, Seq<char>>(m.content));
    assert(optional_tool_calls(j) == Ok::<Option<Seq<ToolCallView>>, Seq<char>>(m.tool_calls));
    assert(optional_str(j, "tool_call_id"@) == Ok::<Option<Seq<char>>, Seq<char>>(m.tool_call_id));
    assert(optional_str(j, "name"@) == Ok::<Option<Seq<char>>, Seq<char>>(m.name));
}

/// Messages written as JSON read back as the same messages.
pub proof fn lemma_messages_roundtrip(ms: Seq<ChatMessageView>)
    ensures
        decode_messages(messages_json(ms)) == Ok::<Seq<ChatMessageView>, Seq<char>>(ms),
    decreases ms.len(),
{
    let items = ms.map_values(|m: ChatMessageView| message_json(m));
    if ms.len() > 0 {
        assert(items.drop_last() =~= ms.drop_last().map_values(|m: ChatMessageView| message_json(m)));
        assert(items.last() == message_json(ms.last()));
        lemma_messages_roundtrip(ms.drop_last());
        lemma_message_roundtrip(ms.last());
        assert(ms.drop_last().push(ms.last()) =~= ms);
    } else {
        assert(ms =~= Seq::<ChatMessageView>::empty());
    }
}

/// A template is rendered with the special tokens it was made with: where
/// it has a bos or eos token, `bos_token` / `eos_token` are bound to that
/// token, and to the empty text where it has none; `add_generation_prompt`
/// is bound to the flag asked for, and `messages` to the messages given.
pub proof fn lemma_context_binds_template_tokens(
    t: ChatTemplateView,
    messages: Seq<ChatMessageView>,
    add_generation_prompt: bool,
    tools: Option<Seq<Tool>>,
)
    ensures
        ({
            let ctx = render_context(t, messages, add_generation_prompt, tools);
            &&& t.bos_token matches Some(b) ==> json::json_get(ctx, "bos_token"@) == Some(Json::Str(b))
            &&& t.eos_token matches Some(e) ==> json::json_get(ctx, "eos_token"@) == Some(Json::Str(e))
            &&& t.bos_token is None ==> json::json_get(ctx, "bos_token"@) == Some(Json::Str(seq![]))
            &&& t.eos_token is None ==> json::json_get(ctx, "eos_token"@) == Some(Json::Str(seq![]))
            &&& json::json_get(ctx, "add_generation_prompt"@) == Some(Json::Bool(add_generation_prompt))
            &&& json::json_get(ctx, "messages"@) == Some(messages_json(messages))
        }),
{
    reveal_strlit("messages");
    reveal_strlit("bos_token");
    reveal_strlit("eos_token");
    reveal_strlit("add_generation_prompt");
    reveal_strlit("");
    reveal_with_fuel(json::find_field, 6);
    let ctx = render_context(t, messages, add_generation_prompt, tools);
    let f = ctx->Object_0;
    assert(""@ =~= Seq::<char>::empty());
    assert("messages"@.len() != "bos_token"@.len());
    assert("messages"@.len() != "eos_token"@.len());
    assert("messages"@.len() != "add_generation_prompt"@.len());
    assert("bos_token"@[0] != "eos_token"@[0]);
    assert("bos_token"@.len() != "add_generation_prompt"@.len());
    assert("eos_token"@.len() != "add_generation_prompt"@.len());
    assert(f[0].0 != "bos_token"@ && f[0].0 != "eos_token"@ && f[0].0 != "add_generation_prompt"@);
    assert(f[1].0 != "eos_token"@ && f[1].0 != "add_generation_prompt"@);
    assert(f[2].0 != "add_generation_prompt"@);
    assert(f.drop_first()[0] == f[1]);
    assert(f.drop_first().drop_first()[0] == f[2]);
    assert(f.drop_first().drop_first().drop_first()[0] == f[3]);
}

} // verus!
