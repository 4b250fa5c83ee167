//! The chat gateway: shapes outgoing requests for the local inference
//! server and normalizes its replies into the three failure kinds the
//! callers see — connectivity, protocol (bad status) and parse trouble.

use vstd::prelude::*;
use crate::json::{
    Json, JsonValue, json_text, sp_json, to_json_text, parse_json, obj_view, arr_view,
    lemma_obj_view, lemma_arr_view, obj_get, str_field, num_field, bool_field, obj_field,
    get_string_field, get_u64_field, get_bool_field, dec_of, u64_to_string,
};

verus! {

broadcast use vstd::std_specs::vec::group_vec_axioms, vstd::seq::group_seq_axioms;

/// One conversation turn.
#[derive(Debug, Clone)]
pub struct ChatMessage {
    pub role: String,
    pub content: String,
}

/// Mathematical model of a conversation turn.
pub struct MessageModel {
    pub role: Seq<char>,
    pub content: Seq<char>,
}

impl View for ChatMessage {
    type V = MessageModel;

    open spec fn view(&self) -> MessageModel {
        MessageModel { role: self.role@, content: self.content@ }
    }
}

/// The element-wise view of a message list.
pub open spec fn msgs_view(ms: Seq<ChatMessage>) -> Seq<MessageModel> {
    ms.map_values(|m: ChatMessage| m@)
}

/// A request to the inference server's chat endpoint.
#[derive(Debug)]
pub struct ChatRequest {
    pub model: String,
    pub messages: Vec<ChatMessage>,
    pub stream: bool,
}

/// Mathematical model of an outgoing request.
pub struct RequestModel {
    pub model: Seq<char>,
    pub messages: Seq<MessageModel>,
    pub stream: bool,
}

impl View for ChatRequest {
    type V = RequestModel;

    open spec fn view(&self) -> RequestModel {
        RequestModel {
            model: self.model@,
            messages: msgs_view(self.messages@),
            stream: self.stream,
        }
    }
}

/// The server's reply to a chat request.
#[derive(Debug)]
pub struct ChatResponse {
    pub model: String,
    pub message: ChatMessage,
    pub done: bool,
}

/// One model the server hosts.
#[derive(Debug)]
pub struct OllamaModel {
    pub name: String,
    pub modified_at: String,
    pub size: u64,
}

/// The server's reply to a model-listing request.
#[derive(Debug)]
pub struct ModelsResponse {
    pub models: Vec<OllamaModel>,
}

/// Whether the server can be reached, with the reason where it cannot.
#[derive(Debug)]
pub struct OllamaStatus {
    pub connected: bool,
    pub error: Option<String>,
}

/// What one HTTP exchange came to on the transport side: no connection,
/// with the transport's own words, or a reply with status code and body.
#[derive(Debug)]
pub enum HttpOutcome {
    NoConnection(String),
    Response { status: u16, body: String },
}

/// Mathematical model of a transport outcome.
pub enum OutcomeModel {
    NoConnection(Seq<char>),
    Response { status: u16, body: Seq<char> },
}

impl View for HttpOutcome {
    type V = OutcomeModel;

    open spec fn view(&self) -> OutcomeModel {
        match self {
            HttpOutcome::NoConnection(e) => OutcomeModel::NoConnection(e@),
            HttpOutcome::Response { status, body } => OutcomeModel::Response {
                status: *status,
                body: body@,
            },
        }
    }
}

/// Whether an HTTP status code reports success.
pub open spec fn status_ok(status: u16) -> bool {
    200 <= status < 300
}

/// Builds the outgoing request: `stream` is always false, and the system
/// prompt, where one is given, is prepended as the first message with
/// role `system`, before the caller's messages, whose order is kept.
pub fn build_chat_request(model: String, messages: Vec<ChatMessage>, system_prompt: Option<String>) -> (r: ChatRequest)
    ensures
        r@.model == model@,
        r@.stream == false,
        system_prompt is None ==> r@.messages == msgs_view(messages@),
        system_prompt matches Some(p) ==> r@.messages
            =~= seq![MessageModel { role: "system"@, content: p@ }] + msgs_view(messages@),
{
    match system_prompt {
        None => ChatRequest { model, messages, stream: false },
        Some(p) => {
            let ghost msv = messages@;
            let mut all: Vec<ChatMessage> = Vec::new();
            all.push(ChatMessage { role: String::from_str("system"), content: p });
            let ghost first = all@[0];
            let mut rest = messages;
            all.append(&mut rest);
            proof {
                assert(all@ =~= seq![first] + msv);
                assert forall|i: int| 0 <= i < all@.len() implies msgs_view(all@)[i]
                    == (seq![first@] + msgs_view(msv))[i] by {
                    assert(msgs_view(all@)[i] == all@[i]@);
                    if i > 0 {
                        assert(all@[i] == msv[i - 1]);
                        assert(msgs_view(msv)[i - 1] == msv[i - 1]@);
                    }
                }
                assert(msgs_view(all@) =~= seq![first@] + msgs_view(msv));
            }
            ChatRequest { model, messages: all, stream: false }
        },
    }
}

/// The document tree of one message inside a request body.
pub open spec fn message_json(m: MessageModel) -> Json {
    Json::Obj(seq![("role"@, Json::Str(m.role)), ("content"@, Json::Str(m.content))])
}

/// The document tree of the outgoing request body.
pub open spec fn request_json(r: RequestModel) -> Json {
    Json::Obj(seq![
        ("model"@, Json::Str(r.model)),
        ("messages"@, Json::Arr(r.messages.map_values(|m: MessageModel| message_json(m)))),
        ("stream"@, Json::Bool(r.stream)),
    ])
}

/// Builds the document tree of one message, as `message_json` says.
fn message_to_json(m: &ChatMessage) -> (v: JsonValue)
    ensures
        v@ == message_json(m@),
{
    let mut fields: Vec<(String, JsonValue)> = Vec::new();
    fields.push((String::from_str("role"), JsonValue::Str(m.role.clone())));
    fields.push((String::from_str("content"), JsonValue::Str(m.content.clone())));
    let ghost fsv = fields@;
    let out = JsonValue::Obj(fields);
    proof {
        lemma_obj_view(fsv);
        assert(fsv[0].0@ == "role"@ && fsv[0].1@ == Json::Str(m.role@));
        assert(fsv[1].0@ == "content"@ && fsv[1].1@ == Json::Str(m.content@));
        assert(obj_view(fsv) =~~= seq![
            ("role"@, Json::Str(m.role@)),
            ("content"@, Json::Str(m.content@)),
        ]);
    }
    out
}

/// The body text sent to the chat endpoint, as `request_json` says,
/// pretty-printed with no surrounding indentation.
pub fn chat_request_body(r: &ChatRequest) -> (s: String)
    ensures
        s@ == json_text(request_json(r@), Seq::<char>::empty()),
{
    let ghost mapped = r@.messages.map_values(|m: MessageModel| message_json(m));
    let mut items: Vec<JsonValue> = Vec::new();
    let mut idx: usize = 0;
    while idx < r.messages.len()
        invariant
            idx <= r.messages@.len(),
            arr_view(items@) =~= mapped.take(idx as int),
            mapped == r@.messages.map_values(|m: MessageModel| message_json(m)),
        decreases r.messages@.len() - idx,
    {
        let ghost items0 = items@;
        let v = message_to_json(&r.messages[idx]);
        let ghost v0 = v;
        items.push(v);
        proof {
            assert(items@.drop_last() =~= items0);
            assert(items@.last() == v0);
            assert(msgs_view(r.messages@)[idx as int] == r.messages@[idx as int]@);
            assert(mapped[idx as int] == message_json(r.messages@[idx as int]@));
            assert(arr_view(items@) =~= mapped.take(idx as int + 1));
        }
        idx += 1;
    }
    let mut fields: Vec<(String, JsonValue)> = Vec::new();
    fields.push((String::from_str("model"), JsonValue::Str(r.model.clone())));
    proof {
        assert(arr_view(items@) =~= mapped);
    }
    fields.push((String::from_str("messages"), JsonValue::Arr(items)));
    fields.push((String::from_str("stream"), JsonValue::Bool(r.stream)));
    let ghost fsv = fields@;
    let out = JsonValue::Obj(fields);
    proof {
        lemma_obj_view(fsv);
        assert(fsv[0].0@ == "model"@ && fsv[0].1@ == Json::Str(r.model@));
        assert(fsv[1].0@ == "messages"@ && fsv[1].1@ == Json::Arr(mapped));
        assert(fsv[2].0@ == "stream"@ && fsv[2].1@ == Json::Bool(r.stream));
        assert(obj_view(fsv) =~~= seq![
            ("model"@, Json::Str(r.model@)),
            ("messages"@, Json::Arr(mapped)),
            ("stream"@, Json::Bool(r.stream)),
        ]);
        assert(out@ == request_json(r@));
    }
    to_json_text(&out)
}

/// Strict reading of one message out of a reply tree.
pub open spec fn message_of_json(v: Json) -> Option<MessageModel> {
    match v {
        Json::Obj(fields) => match (str_field(fields, "role"@), str_field(fields, "content"@)) {
            (Some(role), Some(content)) => Some(MessageModel { role, content }),
            _ => None,
        },
        _ => None,
    }
}

/// Strict reading of the chat endpoint's reply: `model`, `message` and
/// `done` must all be present with the right shapes.
pub open spec fn chat_response_of(v: Json) -> Option<(Seq<char>, MessageModel, bool)> {
    match v {
        Json::Obj(fields) => match (
            str_field(fields, "model"@),
            obj_get(fields, "message"@),
            bool_field(fields, "done"@),
        ) {
            (Some(model), Some(mv), Some(done)) => match message_of_json(mv) {
                Some(m) => Some((model, m, done)),
                None => None,
            },
            _ => None,
        },
        _ => None,
    }
}

/// Reads the chat endpoint's reply, as `chat_response_of` says.
fn chat_response_from_json(v: &JsonValue) -> (r: Option<ChatResponse>)
    ensures
        match (r, chat_response_of(v@)) {
            (Some(resp), Some(m)) => resp.model@ == m.0 && resp.message@ == m.1
                && resp.done == m.2,
            (None, None) => true,
            _ => false,
        },
{
    match v {
        JsonValue::Obj(fields) => {
            let k_model = String::from_str("model");
            let k_message = String::from_str("message");
            let k_done = String::from_str("done");
            let k_role = String::from_str("role");
            let k_content = String::from_str("content");
            let model = get_string_field(fields, &k_model);
            let done = get_bool_field(fields, &k_done);
            let message = match obj_field(fields, &k_message) {
                Some(JsonValue::Obj(mf)) => match (
                    get_string_field(mf, &k_role),
                    get_string_field(mf, &k_content),
                ) {
                    (Some(role), Some(content)) => Some(ChatMessage { role, content }),
                    _ => None,
                },
                _ => None,
            };
            match (model, message, done) {
                (Some(model), Some(message), Some(done)) => Some(ChatResponse {
                    model,
                    message,
                    done,
                }),
                _ => None,
            }
        },
        _ => None,
    }
}

/// What the gateway answers for one chat exchange: the assistant's text
/// on success, else one error per failure kind — connectivity, protocol
/// with the status code in decimal, or an unreadable reply.
pub open spec fn chat_result_model(o: OutcomeModel) -> Result<Seq<char>, Seq<char>> {
    match o {
        OutcomeModel::NoConnection(e) => Err("Failed to connect to Ollama: "@ + e),
        OutcomeModel::Response { status, body } => if !status_ok(status) {
            Err("Ollama error: "@ + dec_of(status as nat))
        } else {
            match sp_json(body) {
                Some(v) => match chat_response_of(v) {
                    Some(resp) => Ok(resp.1.content),
                    None => Err("Failed to parse Ollama response"@),
                },
                None => Err("Failed to parse Ollama response"@),
            }
        },
    }
}

/// Normalizes one chat exchange, exactly as `chat_result_model` says.
pub fn chat_result(outcome: &HttpOutcome) -> (r: Result<String, String>)
    ensures
        match (r, chat_result_model(outcome@)) {
            (Ok(s), Ok(m)) => s@ == m,
            (Err(e), Err(m)) => e@ == m,
            _ => false,
        },
{
    match outcome {
        HttpOutcome::NoConnection(e) => {
            let mut msg = String::from_str("Failed to connect to Ollama: ");
            msg.append(e.as_str());
            Err(msg)
        },
        HttpOutcome::Response { status, body } => {
            if *status < 200 || *status >= 300 {
                let mut msg = String::from_str("Ollama error: ");
                let code = u64_to_string(*status as u64);
                msg.append(code.as_str());
                Err(msg)
            } else {
                match parse_json(body.as_str()) {
                    Some(v) => match chat_response_from_json(&v) {
                        Some(resp) => Ok(resp.message.content),
                        None => Err(String::from_str("Failed to parse Ollama response")),
                    },
                    None => Err(String::from_str("Failed to parse Ollama response")),
                }
            }
        },
    }
}

/// Strict reading of one hosted-model entry: `name`, `modified_at` and
/// `size` must all be present with the right types.
pub open spec fn model_of_json(v: Json) -> Option<(Seq<char>, Seq<char>, u64)> {
    match v {
        Json::Obj(fields) => match (
            str_field(fields, "name"@),
            str_field(fields, "modified_at"@),
            num_field(fields, "size"@),
        ) {
            (Some(name), Some(modified), Some(size)) => Some((name, modified, size)),
            _ => None,
        },
        _ => None,
    }
}

/// Strict reading of the model-listing entries, in server order.
pub open spec fn models_of_items(items: Seq<Json>) -> Option<Seq<(Seq<char>, Seq<char>, u64)>>
    decreases items.len(),
{
    if items.len() == 0 {
        Some(Seq::empty())
    } else {
        match (models_of_items(items.drop_last()), model_of_json(items.last())) {
            (Some(rest), Some(m)) => Some(rest.push(m)),
            _ => None,
        }
    }
}

/// Strict reading of the model-listing reply: a `models` array of
/// well-shaped entries.
pub open spec fn models_response_of(v: Json) -> Option<Seq<(Seq<char>, Seq<char>, u64)>> {
    match v {
        Json::Obj(fields) => match obj_get(fields, "models"@) {
            Some(Json::Arr(items)) => models_of_items(items),
            _ => None,
        },
        _ => None,
    }
}

/// The names of the listed models, in server order.
pub open spec fn names_of(models: Seq<(Seq<char>, Seq<char>, u64)>) -> Seq<Seq<char>> {
    models.map_values(|m: (Seq<char>, Seq<char>, u64)| m.0)
}

/// Reads one hosted-model entry, as `model_of_json` says.
fn model_from_json(v: &JsonValue) -> (r: Option<OllamaModel>)
    ensures
        match (r, model_of_json(v@)) {
            (Some(m), Some(s)) => m.name@ == s.0 && m.modified_at@ == s.1 && m.size == s.2,
            (None, None) => true,
            _ => false,
        },
{
    match v {
        JsonValue::Obj(fields) => {
            let k_name = String::from_str("name");
            let k_modified = String::from_str("modified_at");
            let k_size = String::from_str("size");
            match (
                get_string_field(fields, &k_name),
                get_string_field(fields, &k_modified),
                get_u64_field(fields, &k_size),
            ) {
                (Some(name), Some(modified), Some(size)) => Some(OllamaModel {
                    name,
                    modified_at: modified,
                    size,
                }),
                _ => None,
            }
        },
        _ => None,
    }
}

/// What the gateway answers for one model-listing exchange: the names in
/// server order on success, else one error per failure kind.
pub open spec fn models_result_model(o: OutcomeModel) -> Result<Seq<Seq<char>>, Seq<char>> {
    match o {
        OutcomeModel::NoConnection(e) => Err("Failed to connect to Ollama: "@ + e),
        OutcomeModel::Response { status, body } => if !status_ok(status) {
            Err("Ollama error: "@ + dec_of(status as nat))
        } else {
            match sp_json(body) {
                Some(v) => match models_response_of(v) {
                    Some(models) => Ok(names_of(models)),
                    None => Err("Failed to parse models response"@),
                },
                None => Err("Failed to parse models response"@),
            }
        },
    }
}

/// Normalizes one model-listing exchange, exactly as
/// `models_result_model` says.
pub fn models_result(outcome: &HttpOutcome) -> (r: Result<Vec<String>, String>)
    ensures
        match (r, models_result_model(outcome@)) {
            (Ok(names), Ok(m)) => names@.map_values(|s: String| s@) == m,
            (Err(e), Err(m)) => e@ == m,
            _ => false,
        },
{
    match outcome {
        HttpOutcome::NoConnection(e) => {
            let mut msg = String::from_str("Failed to connect to Ollama: ");
            msg.append(e.as_str());
            Err(msg)
        },
        HttpOutcome::Response { status, body } => {
            if *status < 200 || *status >= 300 {
                let mut msg = String::from_str("Ollama error: ");
                let code = u64_to_string(*status as u64);
                msg.append(code.as_str());
                Err(msg)
            } else {
                match parse_json(body.as_str()) {
                    Some(v) => match models_from_json(&v) {
                        Some(resp) => Ok(model_names(&resp)),
                        None => Err(String::from_str("Failed to parse models response")),
                    },
                    None => Err(String::from_str("Failed to parse models response")),
                }
            }
        },
    }
}

/// Reads the model-listing reply, as `models_response_of` says.
fn models_from_json(v: &JsonValue) -> (r: Option<ModelsResponse>)
    ensures
        match (r, models_response_of(v@)) {
            (Some(resp), Some(m)) => resp.models@.map_values(
                |x: OllamaModel| (x.name@, x.modified_at@, x.size),
            ) == m,
            (None, None) => true,
            _ => false,
        },
{
    match v {
        JsonValue::Obj(fields) => {
            let k_models = String::from_str("models");
            match obj_field(fields, &k_models) {
                Some(jv) => match jv {
                    JsonValue::Arr(items) => {
                    let ghost itemsv = arr_view(items@);
                    proof {
                        lemma_arr_view(items@);
                        assert(jv@ == Json::Arr(itemsv));
                        assert(obj_get(obj_view(fields@), "models"@) == Some(Json::Arr(itemsv)));
                    }
                    let mut out: Vec<OllamaModel> = Vec::new();
                    let mut idx: usize = 0;
                    while idx < items.len()
                        invariant
                            idx <= items@.len(),
                            v@ == Json::Obj(obj_view(fields@)),
                            obj_get(obj_view(fields@), "models"@) == Some(Json::Arr(itemsv)),
                            itemsv == arr_view(items@),
                            itemsv.len() == items@.len(),
                            forall|i: int| 0 <= i < items@.len() ==> itemsv[i]
                                == #[trigger] items@[i]@,
                            models_of_items(itemsv.take(idx as int)) matches Some(ms)
                                && out@.map_values(
                                    |x: OllamaModel| (x.name@, x.modified_at@, x.size),
                                ) == ms,
                        decreases items@.len() - idx,
                    {
                        let ghost out0 = out@;
                        let ghost pre = itemsv.take(idx as int);
                        match model_from_json(&items[idx]) {
                            Some(m) => {
                                let ghost m0 = m;
                                out.push(m);
                                proof {
                                    assert(out@.drop_last() =~= out0);
                                    assert(out@.last() == m0);
                                    let post = itemsv.take(idx as int + 1);
                                    assert(post.drop_last() =~= pre);
                                    assert(post.last() == itemsv[idx as int]);
                                    assert(models_of_items(post) matches Some(ms)
                                        && out@.map_values(
                                            |x: OllamaModel| (x.name@, x.modified_at@, x.size),
                                        ) =~= ms);
                                }
                                idx += 1;
                            },
                            None => {
                                proof {
                                    assert(itemsv[idx as int] == items@[idx as int]@);
                                    assert(model_of_json(itemsv[idx as int]) is None);
                                    lemma_models_of_items_fail(itemsv, idx as int);
                                }
                                return None;
                            },
                        }
                    }
                    proof {
                        assert(itemsv.take(items@.len() as int) =~= itemsv);
                        assert(models_of_items(itemsv) matches Some(ms) && out@.map_values(
                            |x: OllamaModel| (x.name@, x.modified_at@, x.size),
                        ) == ms);
                    }
                    Some(ModelsResponse { models: out })
                    },
                    _ => None,
                },
                None => None,
            }
        },
        _ => None,
    }
}

/// An ill-shaped entry anywhere in the list fails the whole reading.
proof fn lemma_models_of_items_fail(items: Seq<Json>, at: int)
    requires
        0 <= at < items.len(),
        model_of_json(items[at]) is None,
    ensures
        models_of_items(items.take(items.len() as int)) is None,
        models_of_items(items) is None,
    decreases items.len(),
{
    assert(items.take(items.len() as int) =~= items);
    if items.len() > 0 {
        if at == items.len() - 1 {
            assert(items.last() == items[at]);
        } else {
            assert(items.drop_last()[at] == items[at]);
            lemma_models_of_items_fail(items.drop_last(), at);
        }
    }
}

/// The names of the listed models, in server order, as `names_of` says.
fn model_names(resp: &ModelsResponse) -> (names: Vec<String>)
    ensures
        names@.map_values(|s: String| s@) == names_of(
            resp.models@.map_values(|x: OllamaModel| (x.name@, x.modified_at@, x.size)),
        ),
{
    let mut names: Vec<String> = Vec::new();
    let mut idx: usize = 0;
    let ghost mapped = resp.models@.map_values(|x: OllamaModel| (x.name@, x.modified_at@, x.size));
    while idx < resp.models.len()
        invariant
            idx <= resp.models@.len(),
            mapped == resp.models@.map_values(|x: OllamaModel| (x.name@, x.modified_at@, x.size)),
            names@.map_values(|s: String| s@) =~= names_of(mapped).take(idx as int),
        decreases resp.models@.len() - idx,
    {
        let ghost names0 = names@;
        names.push(resp.models[idx].name.clone());
        proof {
            assert(names@.drop_last() =~= names0);
            assert(mapped.len() == resp.models@.len());
            assert(names_of(mapped).len() == mapped.len());
            assert(names0.map_values(|s: String| s@).len() == names0.len());
            assert(names_of(mapped).take(idx as int).len() == idx as int);
            assert(names0.len() == idx);
            assert(names@.len() == idx + 1);
            assert(names@.map_values(|s: String| s@).len() == names@.len());
            assert forall|i: int| 0 <= i < names@.len() implies names@.map_values(
                |s: String| s@,
            )[i] == #[trigger] (names_of(mapped).take(idx as int + 1)[i]) by {
                assert(names@.map_values(|s: String| s@)[i] == names@[i]@);
                assert(names_of(mapped)[i] == mapped[i].0);
                assert(mapped[i] == (resp.models@[i].name@, resp.models@[i].modified_at@,
                    resp.models@[i].size));
                if i < idx {
                    assert(names0.map_values(|s: String| s@)[i] == names0[i]@);
                    assert(names@[i] == names0[i]);
                }
            }
            assert(names@.map_values(|s: String| s@) =~= names_of(mapped).take(idx as int + 1));
        }
        idx += 1;
    }
    proof {
        assert(names_of(mapped).take(resp.models@.len() as int) =~= names_of(mapped));
    }
    names
}

/// What the liveness probe answers for one exchange: connected on a
/// successful status, else not connected with the reason; `error` is
/// present exactly when `connected` is false, and the probe never fails.
pub fn check_status(outcome: &HttpOutcome) -> (st: OllamaStatus)
    ensures
        st.connected <==> st.error is None,
        outcome@ matches OutcomeModel::NoConnection(e)
            ==> ((st.error matches Some(m) && m@ == "Cannot connect to Ollama: "@ + e)
                && !st.connected),
        outcome@ matches OutcomeModel::Response { status, body }
            ==> (if status_ok(status) {
                st.connected
            } else {
                (st.error matches Some(m)
                    && m@ == "Ollama returned status: "@ + dec_of(status as nat))
                    && !st.connected
            }),
{
    match outcome {
        HttpOutcome::NoConnection(e) => {
            let mut msg = String::from_str("Cannot connect to Ollama: ");
            msg.append(e.as_str());
            OllamaStatus { connected: false, error: Some(msg) }
        },
        HttpOutcome::Response { status, body: _ } => {
            if *status < 200 || *status >= 300 {
                let mut msg = String::from_str("Ollama returned status: ");
                let code = u64_to_string(*status as u64);
                msg.append(code.as_str());
                OllamaStatus { connected: false, error: Some(msg) }
            } else {
                OllamaStatus { connected: true, error: None }
            }
        },
    }
}

} // verus!
