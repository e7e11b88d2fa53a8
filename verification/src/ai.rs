//! Requests to and replies from the AI vendor: the request the agent sends,
//! the construction of the authenticated OpenAI HTTP client, and the
//! extraction of the answer from the Responses API output.

use vstd::prelude::*;
use vstd::utf8::*;

verus! {

broadcast use vstd::string::group_string_axioms;

// ---------------------------------------------------------------------------
// Requests and replies.
// ---------------------------------------------------------------------------

#[derive(Debug)]
pub struct Request {
    pub model: String,
    pub input: String,
    pub format: ResponseFormat,
    pub tools: Vec<Tool>,
    /// id of the previous response, to continue its conversation
    pub prev_id: Option<String>,
}

#[derive(Debug)]
pub struct Tool {
    name: String,
    description: String,
}

#[derive(Debug, Clone)]
pub struct Response {
    pub id: String,
    pub content: String,
}

impl View for Response {
    type V = (Seq<char>, Seq<char>);

    open spec fn view(&self) -> (Seq<char>, Seq<char>) {
        (self.id@, self.content@)
    }
}

#[derive(Debug, Clone, Copy, PartialEq, Eq, Structural)]
pub enum ResponseFormat {
    Text,
    Json,
}

#[derive(Debug, Clone, Copy, PartialEq, Eq, Structural)]
pub enum AiVendor {
    Openai,
}

#[derive(Debug)]
pub enum AiErr {
    MissingKey,
    ClientBuilderError,
    HeaderErr,
    Deserr,
    Custom(String),
}

/// A vendor and the models it offers.
pub struct Model {
    vendor: &'static str,
    models: &'static [&'static str],
}

impl Request {
    /// A text request for `input` to the default model, with no tools and no
    /// previous response.
    pub fn new(input: String) -> (r: Self)
        ensures
            r.input@ == input@,
            r.model@ == "gpt-5.2"@,
            r.format == ResponseFormat::Text,
            r.tools@.len() == 0,
            r.prev_id is None,
    {
        Self {
            input,
            model: "gpt-5.2".to_string(),
            format: ResponseFormat::Text,
            tools: Vec::new(),
            prev_id: None,
        }
    }

    /// The request with `tool` appended to its tools.
    pub fn with_tool(self, tool: Tool) -> (r: Self)
        ensures
            r.tools@ == self.tools@.push(tool),
            r.input == self.input,
            r.model == self.model,
            r.format == self.format,
            r.prev_id == self.prev_id,
    {
        let mut s = self;
        s.tools.push(tool);
        s
    }
}

// ---------------------------------------------------------------------------
// The OpenAI client.
// ---------------------------------------------------------------------------

/// The HTTP client of `reqwest`.
#[verifier::external_type_specification]
#[verifier::external_body]
pub struct ExClient(reqwest::Client);

/// `Clone` of `reqwest::Client`: a handle on the same connection pool and
/// configuration. Nothing is stated of the opaque result.
pub assume_specification[ <reqwest::Client as Clone>::clone ](c: &reqwest::Client) -> reqwest::Client;

/// The bytes a header value may hold: visible characters and bytes from 128
/// on, and the tab, but no other control character and no DEL.
pub open spec fn header_byte_ok(b: u8) -> bool {
    (b >= 32 && b != 127) || b == 9
}

pub open spec fn header_value_ok(s: Seq<char>) -> bool {
    let bytes = encode_utf8(s);
    forall|i: int| 0 <= i < bytes.len() ==> header_byte_ok(#[trigger] bytes[i])
}

/// An HTTP client that sends one `Authorization` header with every request,
/// together with the text of that header and whether it is marked
/// sensitive (left out of debug output).
#[derive(Clone)]
pub struct HttpClient {
    client: reqwest::Client,
    auth: String,
    auth_sensitive: bool,
}

impl HttpClient {
    /// The `Authorization` header sent with every request.
    pub closed spec fn spec_auth(&self) -> Seq<char> {
        self.auth@
    }

    /// Whether that header is marked sensitive.
    pub closed spec fn spec_auth_sensitive(&self) -> bool {
        self.auth_sensitive
    }

    /// `reqwest::header::HeaderValue::from_str(auth)`, marked sensitive with
    /// `set_sensitive(true)` and set as the `Authorization` entry of the
    /// default headers (`Client::builder().default_headers(..)`, "headers for
    /// every request"), then `build()`. `from_str` succeeds exactly when every
    /// byte of `auth` may stand in a header value; with no TLS backend and no
    /// user agent configured `build` has no path that fails. The record of the
    /// header is the text handed in and the flag the value reports.
    #[verifier::external_body]
    fn with_auth(auth: &str) -> (r: Result<HttpClient, AiErr>)
        ensures
            r is Ok <==> header_value_ok(auth@),
            r is Ok ==> r->Ok_0.spec_auth() == auth@ && r->Ok_0.spec_auth_sensitive(),
            r is Err ==> r->Err_0 is HeaderErr,
    {
        let mut value = match reqwest::header::HeaderValue::from_str(auth) {
            Ok(v) => v,
            Err(_) => return Err(AiErr::HeaderErr),
        };
        value.set_sensitive(true);
        let auth_sensitive = value.is_sensitive();
        let mut headers = reqwest::header::HeaderMap::new();
        headers.insert(reqwest::header::AUTHORIZATION, value);
        match reqwest::Client::builder().default_headers(headers).build() {
            Ok(client) => Ok(HttpClient { client, auth: auth.to_string(), auth_sensitive }),
            Err(_) => Err(AiErr::ClientBuilderError),
        }
    }

    /// The `Authorization` header sent with every request.
    pub fn auth(&self) -> (r: &str)
        ensures
            r@ == self.spec_auth(),
    {
        self.auth.as_str()
    }

    /// Whether the `Authorization` header is marked sensitive.
    pub fn auth_sensitive(&self) -> (r: bool)
        ensures
            r == self.spec_auth_sensitive(),
    {
        self.auth_sensitive
    }

    /// The `reqwest` client that makes the requests.
    pub fn client(&self) -> &reqwest::Client {
        &self.client
    }
}

/// The client of the OpenAI Responses API.
pub struct OpenAIClient {
    pub key: String,
    pub http_client: HttpClient,
}

pub struct ClientBuilder {
    key: Option<String>,
}

/// The `Authorization` header value for `key`.
pub open spec fn bearer(key: Seq<char>) -> Seq<char> {
    "Bearer "@ + key
}

impl ClientBuilder {
    /// An OpenAI client authenticated with `key` (the `OPENAI_KEY` setting,
    /// `None` where it is not set).
    pub fn openai(key: Option<String>) -> (r: Result<OpenAIClient, AiErr>)
        ensures
            key is None ==> r matches Err(AiErr::MissingKey),
            key matches Some(k) && !header_value_ok(bearer(k@)) ==> r matches Err(AiErr::HeaderErr),
            key is Some && header_value_ok(bearer(key->0@)) ==> (r is Ok && r->Ok_0.key@ == key->0@
                && r->Ok_0.http_client.spec_auth() == bearer(key->0@)
                && r->Ok_0.http_client.spec_auth_sensitive()),
    {
        let key = match key {
            Some(k) => k,
            None => {
                return Err(AiErr::MissingKey);
            },
        };
        let mut auth_text = String::from_str("Bearer ");
        auth_text.append(key.as_str());
        match HttpClient::with_auth(auth_text.as_str()) {
            Ok(http_client) => Ok(OpenAIClient { key, http_client }),
            Err(e) => Err(e),
        }
    }
}

/// The body sent to the Responses API.
pub struct OpenAiRequest {
    pub model: String,
    pub input: String,
    pub previous_response_id: Option<String>,
}

pub open spec fn opt_view(o: Option<String>) -> Option<Seq<char>> {
    match o {
        Some(s) => Some(s@),
        None => None,
    }
}

/// The body for `content`: always the model `gpt-5.2`, the request's input
/// and its previous response id.
pub fn openai_request(content: Request) -> (r: OpenAiRequest)
    ensures
        r.model@ == "gpt-5.2"@,
        r.input@ == content.input@,
        opt_view(r.previous_response_id) == opt_view(content.prev_id),
{
    OpenAiRequest {
        model: "gpt-5.2".to_string(),
        input: content.input,
        previous_response_id: content.prev_id,
    }
}

// ---------------------------------------------------------------------------
// What the Responses API returns.
// ---------------------------------------------------------------------------

#[derive(Debug)]
pub struct Billing {
    pub payer: String,
}

/// One piece of a message's content.
#[derive(Debug)]
pub enum ResponseOutputText {
    OutputText { text: String },
    Refusal { refusal: String },
}

/// One item of a response's output.
#[derive(Debug)]
pub enum ResponseOutputItem {
    ResponseOutputMessage {
        id: String,
        content: Vec<ResponseOutputText>,
        role: String,
        status: String,
    },
    ResponseFileSearchToolCall {},
    ResponseFunctionToolCall {},
}

#[derive(Debug)]
pub struct Reasoning {
    pub effort: String,
    pub summary: Option<String>,
}

#[derive(Debug)]
pub struct TextConfig {
    pub format: TextFormat,
    pub verbosity: String,
}

#[derive(Debug)]
pub struct TextFormat {
    pub format_type: String,
}

#[derive(Debug)]
pub struct Usage {
    pub input_tokens: u32,
    pub input_tokens_details: InputTokenDetails,
    pub output_tokens: u32,
    pub output_tokens_details: OutputTokenDetails,
    pub total_tokens: u32,
}

#[derive(Debug)]
pub struct InputTokenDetails {
    pub cached_tokens: u32,
}

#[derive(Debug)]
pub struct OutputTokenDetails {
    pub reasoning_tokens: u32,
}

#[derive(Debug)]
pub struct Metadata {}

#[derive(Debug)]
pub struct Error {
    message: String,
    err_type: String,
    code: String,
    param: Option<String>,
}

/// The outcome of a reply whose output starts with `first`: the text (or
/// refusal) of the first piece of a message, an error for an empty message
/// or for any other item.
pub enum ReplyOutcome {
    Answer(Seq<char>),
    FailedToParse,
    NotAMessage,
}

pub open spec fn reply_outcome(first: ResponseOutputItem) -> ReplyOutcome {
    match first {
        ResponseOutputItem::ResponseOutputMessage { content, .. } => if content@.len() == 0 {
            ReplyOutcome::FailedToParse
        } else {
            match content@[0] {
                ResponseOutputText::OutputText { text } => ReplyOutcome::Answer(text@),
                ResponseOutputText::Refusal { refusal } => ReplyOutcome::Answer(refusal@),
            }
        },
        _ => ReplyOutcome::NotAMessage,
    }
}

/// The answer of a reply with id `res_id` and output `output`: the first
/// text or refusal of the first output item when that is a message;
/// `Custom("failed to parse")` for a message with no content and
/// `Custom("Custom")` for any other item. The output must not be empty (the
/// first item is taken by index).
pub fn reply_from_output(res_id: String, output: &Vec<ResponseOutputItem>) -> (r: Result<Response, AiErr>)
    requires
        output@.len() > 0,
    ensures
        match reply_outcome(output@[0]) {
            ReplyOutcome::Answer(text) => r matches Ok(resp) && resp.id@ == res_id@ && resp.content@ == text,
            ReplyOutcome::FailedToParse => r matches Err(AiErr::Custom(m)) && m@ == "failed to parse"@,
            ReplyOutcome::NotAMessage => r matches Err(AiErr::Custom(m)) && m@ == "Custom"@,
        },
{
    match &output[0] {
        ResponseOutputItem::ResponseOutputMessage { content, .. } => {
            if content.len() == 0 {
                return Err(AiErr::Custom("failed to parse".to_string()));
            }
            match &content[0] {
                ResponseOutputText::OutputText { text } => Ok(Response { id: res_id, content: text.clone() }),
                ResponseOutputText::Refusal { refusal } => Ok(Response { id: res_id, content: refusal.clone() }),
            }
        },
        _ => Err(AiErr::Custom("Custom".to_string())),
    }
}

} // verus!
