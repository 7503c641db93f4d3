//! The completion adapter proper: the typed request and response shapes, the
//! request-body builder (typed fields plus a deep-merged override bag) and the
//! response resolver (tool-call over plain-text precedence).

use vstd::prelude::*;
use crate::client::Client;
use crate::json::Json;
use crate::json::JVal;
use crate::json::arr_view;
use crate::json::obj_view;
use crate::json::obj_get;
use crate::json::get_key;
use crate::json::distinct_keys;
use crate::json::merge_val;
use crate::json::merge;
use crate::json::lemma_override_wins;

verus! {

/// Default service endpoint.
pub const DEEPSEEK_API_BASE_URL: &'static str = "https://api.deepseek.com";

/// The general chat model.
pub const DEEPSEEK_CHAT: &'static str = "deepseek-chat";

/// The code-oriented model.
pub const DEEPSEEK_CODER: &'static str = "deepseek-coder";

// ------------------------------------------------------------------
// Request side
// ------------------------------------------------------------------

/// One prior chat turn.
pub struct Message {
    pub role: String,
    pub content: String,
}

/// What a [`Message`] holds.
pub struct MessageV {
    pub role: Seq<char>,
    pub content: Seq<char>,
}

impl View for Message {
    type V = MessageV;

    open spec fn view(&self) -> MessageV {
        MessageV { role: self.role@, content: self.content@ }
    }
}

/// A tool offered to the model: name, description and parameter schema.
pub struct ToolDefinition {
    pub name: String,
    pub description: String,
    pub parameters: Json,
}

/// What a [`ToolDefinition`] holds.
pub struct ToolDefinitionV {
    pub name: Seq<char>,
    pub description: Seq<char>,
    pub parameters: JVal,
}

impl View for ToolDefinition {
    type V = ToolDefinitionV;

    open spec fn view(&self) -> ToolDefinitionV {
        ToolDefinitionV {
            name: self.name@,
            description: self.description@,
            parameters: self.parameters@,
        }
    }
}

/// A generic completion request: prior turns, the fully rendered prompt,
/// sampling parameters, offered tools and a free-form override bag that is
/// deep-merged into the body last.
pub struct CompletionRequest {
    pub chat_history: Vec<Message>,
    pub prompt: String,
    pub temperature: Option<serde_json::Number>,
    pub max_tokens: Option<u64>,
    pub tools: Vec<ToolDefinition>,
    pub additional_params: Option<Json>,
}

/// What a [`CompletionRequest`] holds.
pub struct CompletionRequestV {
    pub chat_history: Seq<MessageV>,
    pub prompt: Seq<char>,
    pub temperature: Option<serde_json::Number>,
    pub max_tokens: Option<u64>,
    pub tools: Seq<ToolDefinitionV>,
    pub additional_params: Option<JVal>,
}

impl View for CompletionRequest {
    type V = CompletionRequestV;

    open spec fn view(&self) -> CompletionRequestV {
        CompletionRequestV {
            chat_history: self.chat_history@.map_values(|m: Message| m@),
            prompt: self.prompt@,
            temperature: self.temperature,
            max_tokens: self.max_tokens,
            tools: self.tools@.map_values(|t: ToolDefinition| t@),
            additional_params: match self.additional_params {
                Some(p) => Some(p@),
                None => None,
            },
        }
    }
}

// ------------------------------------------------------------------
// Request-body assembly
// ------------------------------------------------------------------

/// The vendor message object for one turn.
pub open spec fn message_val(role: Seq<char>, content: Seq<char>) -> JVal {
    JVal::Obj(seq![("role"@, JVal::Str(role)), ("content"@, JVal::Str(content))])
}

/// The vendor descriptor of one offered tool.
pub open spec fn tool_val(t: ToolDefinitionV) -> JVal {
    JVal::Obj(
        seq![
            ("type"@, JVal::Str("function"@)),
            (
                "function"@,
                JVal::Obj(
                    seq![
                        ("name"@, JVal::Str(t.name)),
                        ("description"@, JVal::Str(t.description)),
                        ("parameters"@, t.parameters),
                    ],
                ),
            ),
        ],
    )
}

/// A nonnegative count as a JSON number.
pub open spec fn uint_val(u: u64) -> JVal {
    if u <= i64::MAX as u64 {
        JVal::Int(u as i64)
    } else {
        JVal::UInt(u)
    }
}

/// The message list of a request: the chat history in order, then exactly one
/// trailing user turn carrying the rendered prompt.
pub open spec fn messages_val(req: CompletionRequestV) -> Seq<JVal> {
    req.chat_history.map_values(|m: MessageV| message_val(m.role, m.content)).push(
        message_val("user"@, req.prompt),
    )
}

/// The typed fields of the request body, in emission order: model, messages,
/// the token budget (2048 when unset), the temperature only when given, and a
/// `tools` array only when at least one tool is offered.
pub open spec fn typed_entries(req: CompletionRequestV, model: Seq<char>) -> Seq<
    (Seq<char>, JVal),
> {
    seq![
        ("model"@, JVal::Str(model)),
        ("messages"@, JVal::Arr(messages_val(req))),
        (
            "max_tokens"@,
            uint_val(
                match req.max_tokens {
                    Some(m) => m,
                    None => crate::DEFAULT_MAX_TOKENS,
                },
            ),
        ),
    ] + (match req.temperature {
        Some(t) => seq![("temperature"@, JVal::Num(t))],
        None => Seq::<(Seq<char>, JVal)>::empty(),
    }) + (if req.tools.len() > 0 {
        seq![("tools"@, JVal::Arr(req.tools.map_values(|t: ToolDefinitionV| tool_val(t))))]
    } else {
        Seq::<(Seq<char>, JVal)>::empty()
    })
}

/// The full request body: the typed fields, then the override bag deep-merged
/// on top, so that overrides always win.
pub open spec fn build_spec(req: CompletionRequestV, model: Seq<char>) -> JVal {
    let base = JVal::Obj(typed_entries(req, model));
    match req.additional_params {
        Some(p) => merge_val(base, p),
        None => base,
    }
}

/// The vendor message object for one turn.
fn message_json(role: String, content: String) -> (r: Json)
    ensures
        r@ == message_val(role@, content@),
{
    let mut entries: Vec<(String, Json)> = Vec::new();
    entries.push(("role".to_owned(), Json::Str(role)));
    entries.push(("content".to_owned(), Json::Str(content)));
    let r = Json::Obj(entries);
    proof {
        assert(obj_view(entries@) =~= message_val(role@, content@)->Obj_0);
    }
    r
}

/// The vendor descriptor of one offered tool.
fn tool_json(t: ToolDefinition) -> (r: Json)
    ensures
        r@ == tool_val(t@),
{
    let ghost tv = t@;
    let ToolDefinition { name, description, parameters } = t;
    let mut f: Vec<(String, Json)> = Vec::new();
    f.push(("name".to_owned(), Json::Str(name)));
    f.push(("description".to_owned(), Json::Str(description)));
    f.push(("parameters".to_owned(), parameters));
    let mut o: Vec<(String, Json)> = Vec::new();
    o.push(("type".to_owned(), Json::Str("function".to_owned())));
    o.push(("function".to_owned(), Json::Obj(f)));
    let r = Json::Obj(o);
    proof {
        assert(obj_view(f@) =~= tool_val(tv)->Obj_0[1].1->Obj_0);
        assert(obj_view(o@) =~= tool_val(tv)->Obj_0);
    }
    r
}

// ------------------------------------------------------------------
// Response side
// ------------------------------------------------------------------

/// One tool invocation the model asks for.
pub struct ToolUse {
    pub id: String,
    pub name: String,
    pub arguments: Json,
}

/// The message inside one choice: optional text, optional tool calls.
pub struct ChoiceMessage {
    pub content: Option<String>,
    pub tool_calls: Option<Vec<ToolUse>>,
}

/// One choice of a vendor response.
pub struct ChoiceObject {
    pub message: ChoiceMessage,
    pub finish_reason: Option<String>,
    pub index: u32,
}

/// A successful vendor response.
pub struct CompletionResponse {
    pub id: String,
    pub model: String,
    pub choices: Vec<ChoiceObject>,
}

/// Token accounting as the vendor reports it.
pub struct Usage {
    pub prompt_tokens: i64,
    pub completion_tokens: i64,
    pub total_tokens: i64,
}

/// The vendor's own error object.
pub struct ApiErrorResponse {
    pub message: String,
}

/// The envelope a response arrives in: the payload, or the vendor's error.
pub enum ApiResponse<T> {
    Success(T),
    Error(ApiErrorResponse),
}

/// What a resolved response decides: plain text, or one tool invocation.
#[derive(Debug)]
pub enum ModelChoice {
    Message(String),
    ToolCall(String, Json),
}

/// The two failure kinds: the vendor or the transport reported a problem, or
/// the response could not be interpreted locally.
#[derive(Debug)]
pub enum CompletionError {
    ProviderError(String),
    ResponseError(String),
}

/// A resolved completion: the decision, plus the raw response kept for
/// diagnostics.
pub struct CompletionOutcome {
    pub choice: ModelChoice,
    pub raw_response: CompletionResponse,
}

/// The shape a vendor response resolves to, judged on the first choice alone:
/// its first tool call if it carries any, else its text, else nothing usable.
pub enum Resolution {
    Tool(Seq<char>, JVal),
    Text(Seq<char>),
    NoChoices,
    NoContent,
}

/// Resolution of the text part of a choice's message.
pub open spec fn text_resolution(msg: ChoiceMessage) -> Resolution {
    match msg.content {
        Some(text) => Resolution::Text(text@),
        None => Resolution::NoContent,
    }
}

/// The fixed decision policy over a vendor response: the first choice's first
/// tool call takes absolute precedence over its text; an empty choice list or
/// a choice with neither is unusable.
pub open spec fn resolution(resp: CompletionResponse) -> Resolution {
    if resp.choices@.len() == 0 {
        Resolution::NoChoices
    } else {
        let msg = resp.choices@[0].message;
        match msg.tool_calls {
            Some(tcs) => if tcs@.len() > 0 {
                Resolution::Tool(tcs@[0].name@, tcs@[0].arguments@)
            } else {
                text_resolution(msg)
            },
            None => text_resolution(msg),
        }
    }
}

/// What a correct resolver returns for a response: success carries the
/// resolved choice and the response itself, failure names why.
pub open spec fn resolves_to(
    resp: CompletionResponse,
    r: Result<CompletionOutcome, CompletionError>,
) -> bool {
    match resolution(resp) {
        Resolution::Tool(name, args) => r matches Ok(out) && out.choice matches
            ModelChoice::ToolCall(n, a) && out.raw_response == resp && n@ == name && a@ == args,
        Resolution::Text(text) => r matches Ok(out) && out.choice matches ModelChoice::Message(c)
            && out.raw_response == resp && c@ == text,
        Resolution::NoChoices => r matches Err(e) && e matches CompletionError::ResponseError(m)
            && m@ == "No choices found"@,
        Resolution::NoContent => r matches Err(e) && e matches CompletionError::ResponseError(m)
            && m@ == "No content or tool call in response"@,
    }
}

/// Decides whether a vendor response is a tool invocation or a plain message.
///
/// The first choice's first tool call wins over any text; a response with no
/// choices, or whose first choice carries neither text nor tool calls, cannot
/// be interpreted.
pub fn resolve_response(resp: CompletionResponse) -> (r: Result<
    CompletionOutcome,
    CompletionError,
>)
    ensures
        resolves_to(resp, r),
{
    if resp.choices.len() == 0 {
        return Err(CompletionError::ResponseError("No choices found".to_owned()));
    }
    let tool = match &resp.choices[0].message.tool_calls {
        Some(tcs) => if tcs.len() > 0 {
            Some((tcs[0].name.clone(), tcs[0].arguments.deep_clone()))
        } else {
            None
        },
        None => None,
    };
    if let Some((name, arguments)) = tool {
        return Ok(
            CompletionOutcome { choice: ModelChoice::ToolCall(name, arguments), raw_response: resp },
        );
    }
    let text = match &resp.choices[0].message.content {
        Some(text) => text.clone(),
        None => {
            return Err(
                CompletionError::ResponseError("No content or tool call in response".to_owned()),
            );
        },
    };
    Ok(CompletionOutcome { choice: ModelChoice::Message(text), raw_response: resp })
}

/// Resolves a parsed envelope: the vendor's own error object becomes a
/// provider error carrying its message; a payload is resolved as
/// [`resolve_response`] does.
pub fn resolve_api_response(api: ApiResponse<CompletionResponse>) -> (r: Result<
    CompletionOutcome,
    CompletionError,
>)
    ensures
        match api {
            ApiResponse::Success(resp) => resolves_to(resp, r),
            ApiResponse::Error(err) => r matches Err(e) && e matches CompletionError::ProviderError(
                m,
            ) && m@ == err.message@,
        },
{
    match api {
        ApiResponse::Success(resp) => resolve_response(resp),
        ApiResponse::Error(err) => Err(CompletionError::ProviderError(err.message)),
    }
}

// ------------------------------------------------------------------
// The adapter
// ------------------------------------------------------------------

/// The completion adapter for one model name over one client configuration.
pub struct CompletionModel {
    pub client: Client,
    pub model: String,
}

impl CompletionModel {
    /// An adapter for `model` using `client`'s configuration.
    pub fn new(client: Client, model: &str) -> (r: Self)
        ensures
            r.client == client,
            r.model@ == model@,
    {
        Self { client, model: model.to_owned() }
    }

    /// The vendor-shaped JSON body for one request against this model: the
    /// history and the prompt as the message list, the token budget (2048 when
    /// unset), the temperature only when given, a `tools` array only when at
    /// least one tool is offered, and the override bag deep-merged on top.
    #[verifier::loop_isolation(false)]
    pub fn build_request_body(&self, request: CompletionRequest) -> (r: Json)
        ensures
            r@ == build_spec(request@, self.model@),
    {
        let ghost rv = request@;
        let CompletionRequest {
            chat_history,
            prompt,
            temperature,
            max_tokens,
            tools,
            additional_params,
        } = request;
        let mut messages: Vec<Json> = Vec::new();
        let mut i: usize = 0;
        while i < chat_history.len()
            invariant
                i <= chat_history@.len(),
                messages@.len() == i as int,
                forall|j: int|
                    0 <= j < i as int ==> messages@[j]@ == message_val(
                        chat_history@[j].role@,
                        chat_history@[j].content@,
                    ),
            decreases chat_history@.len() - i as int,
        {
            let m = &chat_history[i];
            messages.push(message_json(m.role.clone(), m.content.clone()));
            i = i + 1;
        }
        messages.push(message_json("user".to_owned(), prompt));
        proof {
            assert(arr_view(messages@) =~= messages_val(rv));
        }
        let has_tools = tools.len() > 0;
        let ghost tools0 = tools@;
        let mut tool_items: Vec<Json> = Vec::new();
        let mut rest = tools;
        while rest.len() > 0
            invariant
                tool_items@.len() + rest@.len() == tools0.len(),
                rest@ == tools0.subrange(tool_items@.len() as int, tools0.len() as int),
                forall|j: int|
                    0 <= j < tool_items@.len() ==> tool_items@[j]@ == tool_val(tools0[j]@),
            decreases rest@.len(),
        {
            let t = rest.remove(0);
            tool_items.push(tool_json(t));
            proof {
                assert(rest@ =~= tools0.subrange(tool_items@.len() as int, tools0.len() as int));
            }
        }
        proof {
            if has_tools {
                assert(arr_view(tool_items@) =~= rv.tools.map_values(
                    |t: ToolDefinitionV| tool_val(t),
                ));
            }
        }
        let mut entries: Vec<(String, Json)> = Vec::new();
        entries.push(("model".to_owned(), Json::Str(self.model.clone())));
        entries.push(("messages".to_owned(), Json::Arr(messages)));
        let mt: u64 = match max_tokens {
            Some(m) => m,
            None => crate::DEFAULT_MAX_TOKENS,
        };
        let max_tokens_json = if mt <= i64::MAX as u64 {
            Json::Int(mt as i64)
        } else {
            Json::UInt(mt)
        };
        entries.push(("max_tokens".to_owned(), max_tokens_json));
        match temperature {
            Some(t) => entries.push(("temperature".to_owned(), Json::Num(t))),
            None => (),
        };
        if has_tools {
            entries.push(("tools".to_owned(), Json::Arr(tool_items)));
        }
        let base = Json::Obj(entries);
        proof {
            assert(obj_view(entries@) =~= typed_entries(rv, self.model@));
        }
        match additional_params {
            Some(p) => merge(base, p),
            None => base,
        }
    }
}

// ------------------------------------------------------------------
// What the adapter guarantees
// ------------------------------------------------------------------

/// That the override bag of a request does not touch one key: the bag is
/// absent, or it is an object with distinct keys that does not set `key`.
pub open spec fn override_leaves_key(req: CompletionRequestV, key: Seq<char>) -> bool {
    match req.additional_params {
        Some(p) => p matches JVal::Obj(es) && distinct_keys(es) && obj_get(es, key) is None,
        None => true,
    }
}

/// The keys of the typed fields, for reading one of them back.
proof fn lemma_typed_keys(req: CompletionRequestV, model: Seq<char>)
    ensures
        typed_entries(req, model).len() >= 3,
        typed_entries(req, model)[0].0 == "model"@,
        typed_entries(req, model)[1].0 == "messages"@,
        typed_entries(req, model)[2].0 == "max_tokens"@,
        forall|i: int|
            3 <= i < typed_entries(req, model).len() ==> (typed_entries(req, model)[i].0
                == "temperature"@ || typed_entries(req, model)[i].0 == "tools"@),
        req.tools.len() == 0 ==> forall|i: int|
            0 <= i < typed_entries(req, model).len() ==> typed_entries(req, model)[i].0
                != "tools"@,
{
    reveal_strlit("model");
    reveal_strlit("messages");
    reveal_strlit("max_tokens");
    reveal_strlit("temperature");
    reveal_strlit("tools");
    assert("model"@[0] == 'm' && "tools"@[0] == 't');
    assert("model"@.len() == 5 && "messages"@.len() == 8 && "max_tokens"@.len() == 10
        && "temperature"@.len() == 11 && "tools"@.len() == 5);
}

/// A request offering no tools emits no `tools` key at all: field absence, not
/// an empty array.
pub proof fn lemma_no_tools_key(req: CompletionRequestV, model: Seq<char>)
    requires
        req.tools.len() == 0,
        override_leaves_key(req, "tools"@),
    ensures
        get_key(build_spec(req, model), "tools"@) is None,
{
    let es = typed_entries(req, model);
    lemma_typed_keys(req, model);
    crate::json::lemma_obj_get_none(es, "tools"@);
    match req.additional_params {
        Some(p) => {
            crate::json::lemma_merge_entries_get(es, p->Obj_0, "tools"@);
        },
        None => {},
    }
}

/// A request leaving the token budget unset yields a body carrying exactly
/// 2048 under `max_tokens`.
pub proof fn lemma_default_max_tokens(req: CompletionRequestV, model: Seq<char>)
    requires
        req.max_tokens is None,
        override_leaves_key(req, "max_tokens"@),
    ensures
        get_key(build_spec(req, model), "max_tokens"@) == Some(JVal::Int(2048)),
{
    let es = typed_entries(req, model);
    lemma_typed_keys(req, model);
    reveal_strlit("model");
    reveal_strlit("messages");
    reveal_strlit("max_tokens");
    assert("model"@.len() == 5 && "messages"@.len() == 8 && "max_tokens"@.len() == 10);
    crate::json::lemma_obj_get_first_match(es, "max_tokens"@, 2);
    assert(es[2].1 == JVal::Int(2048));
    match req.additional_params {
        Some(p) => {
            crate::json::lemma_merge_entries_get(es, p->Obj_0, "max_tokens"@);
        },
        None => {},
    }
}

/// The override bag wins on key conflicts: any key it holds with a non-object
/// value reads back from the built body exactly as the bag gave it, whatever
/// the typed fields put there.
pub proof fn lemma_build_override_wins(req: CompletionRequestV, model: Seq<char>, k: Seq<char>)
    requires
        req.additional_params matches Some(p) && p matches JVal::Obj(es) && obj_get(es, k) matches
            Some(v) && distinct_keys(es) && !(v is Obj),
    ensures
        get_key(build_spec(req, model), k) == get_key(req.additional_params->0, k),
{
    lemma_override_wins(
        JVal::Obj(typed_entries(req, model)),
        req.additional_params->0,
        k,
    );
}

/// Tool-call precedence is absolute: a first choice carrying both tool calls
/// and text resolves to the first tool call, never to the text.
pub proof fn lemma_tool_call_precedence(resp: CompletionResponse)
    requires
        resp.choices@.len() > 0,
        resp.choices@[0].message.tool_calls matches Some(tcs) && tcs@.len() > 0,
        resp.choices@[0].message.content is Some,
    ensures
        resolution(resp) == Resolution::Tool(
            resp.choices@[0].message.tool_calls->0@[0].name@,
            resp.choices@[0].message.tool_calls->0@[0].arguments@,
        ),
{
}

/// A response with no choices resolves to nothing: every resolver obeying
/// [`resolves_to`] fails on it with a response error.
pub proof fn lemma_empty_choices(resp: CompletionResponse)
    requires
        resp.choices@.len() == 0,
    ensures
        resolution(resp) == Resolution::NoChoices,
        forall|r: Result<CompletionOutcome, CompletionError>|
            resolves_to(resp, r) ==> (r matches Err(e)
                && e matches CompletionError::ResponseError(m) && m@ == "No choices found"@),
{
}

} // verus!

