//! Chat completion across providers (Anthropic, OpenAI GPT, DigitalOcean
//! inference, Ollama): the provider-independent request and response, each
//! provider's wire shapes, and the verified conversions between them. The
//! HTTP exchange and the JSON encoding are done by the application.

use vstd::prelude::*;
use vstd::string::*;

verus! {

broadcast use vstd::string::group_string_axioms;

// ----- provider-independent shapes -----

pub struct ChatRequest {
    pub model: String,
    pub input: Vec<ChatRequestInput>,
}

pub struct ChatRequestInput {
    pub role: String,
    pub content: String,
}

pub struct ChatResponse {
    pub messages: Vec<ChatMessage>,
    pub usage: UsageMetrics,
}

#[derive(Clone, Copy, Debug, PartialEq, Eq, Structural)]
pub struct UsageMetrics {
    pub input_tokens: u32,
    pub output_tokens: u32,
}

pub struct ChatMessage {
    pub role: String,
    pub content: String,
}

/// Role and content of each input of a request.
pub open spec fn input_views(s: Seq<ChatRequestInput>) -> Seq<(Seq<char>, Seq<char>)> {
    s.map_values(|i: ChatRequestInput| (i.role@, i.content@))
}

/// Role and content of each message of a response.
pub open spec fn message_views(s: Seq<ChatMessage>) -> Seq<(Seq<char>, Seq<char>)> {
    s.map_values(|m: ChatMessage| (m.role@, m.content@))
}

// ----- Anthropic -----

pub struct ClaudeChatRequest {
    pub model: String,
    pub messages: Vec<ClaudeChatRequestInput>,
}

pub struct ClaudeChatRequestInput {
    pub role: String,
    pub content: String,
}

pub struct ClaudeChatResponse {
    pub role: String,
    pub content: Vec<ClaudeChatResponseOutput>,
    pub usage: ClaudeUsageMetrics,
}

pub struct ClaudeChatResponseOutput {
    pub text: String,
}

#[derive(Clone, Copy, Debug, PartialEq, Eq, Structural)]
pub struct ClaudeUsageMetrics {
    pub input_tokens: u32,
    pub output_tokens: u32,
}

pub struct ClaudeModelResponse {
    pub data: Vec<ClaudeModelOutput>,
}

pub struct ClaudeModelOutput {
    pub id: String,
    pub display_name: String,
}

pub open spec fn claude_input_views(s: Seq<ClaudeChatRequestInput>) -> Seq<(Seq<char>, Seq<char>)> {
    s.map_values(|i: ClaudeChatRequestInput| (i.role@, i.content@))
}

impl ClaudeChatRequestInput {
    pub fn from(value: ChatRequestInput) -> (res: Self)
        ensures
            res.role == value.role,
            res.content == value.content,
    {
        ClaudeChatRequestInput { role: value.role, content: value.content }
    }
}

impl ClaudeChatRequest {
    /// Anthropic's request for a chat: the same model and the same messages.
    pub fn from(value: ChatRequest) -> (res: Self)
        ensures
            res.model == value.model,
            claude_input_views(res.messages@) == input_views(value.input@),
    {
        let mut messages: Vec<ClaudeChatRequestInput> = Vec::new();
        for item in it: value.input
            invariant
                claude_input_views(messages@) == input_views(it.seq().take(it.index() as int)),
        {
            let ghost before = messages@;
            messages.push(ClaudeChatRequestInput::from(item));
            proof {
                assert(it.seq().take(it.index() + 1) =~= it.seq().take(it.index() as int).push(item));
                assert(claude_input_views(messages@) =~= claude_input_views(before).push((item.role@, item.content@)));
                assert(input_views(it.seq().take(it.index() + 1)) =~= input_views(it.seq().take(it.index() as int)).push(
                    (item.role@, item.content@),
                ));
            }
        }
        ClaudeChatRequest { model: value.model, messages }
    }
}

/// The messages of an Anthropic response: one per content block, each with the
/// response's role.
pub open spec fn claude_messages(role: Seq<char>, content: Seq<ClaudeChatResponseOutput>) -> Seq<(Seq<char>, Seq<char>)> {
    content.map_values(|o: ClaudeChatResponseOutput| (role, o.text@))
}

impl ChatResponse {
    pub fn from_claude(value: ClaudeChatResponse) -> (res: Self)
        ensures
            message_views(res.messages@) == claude_messages(value.role@, value.content@),
            res.usage == UsageMetrics::from_claude_spec(value.usage),
    {
        let mut messages: Vec<ChatMessage> = Vec::new();
        let role = value.role;
        for output in it: value.content
            invariant
                message_views(messages@) == claude_messages(role@, it.seq().take(it.index() as int)),
        {
            let ghost before = messages@;
            messages.push(ChatMessage { role: role.clone(), content: output.text });
            proof {
                assert(it.seq().take(it.index() + 1) =~= it.seq().take(it.index() as int).push(output));
                assert(message_views(messages@) =~= message_views(before).push((role@, output.text@)));
                assert(claude_messages(role@, it.seq().take(it.index() + 1)) =~= claude_messages(
                    role@,
                    it.seq().take(it.index() as int),
                ).push((role@, output.text@)));
            }
        }
        ChatResponse { messages, usage: UsageMetrics::from(value.usage) }
    }
}

impl UsageMetrics {
    pub open spec fn from_claude_spec(value: ClaudeUsageMetrics) -> UsageMetrics {
        UsageMetrics { input_tokens: value.input_tokens, output_tokens: value.output_tokens }
    }
}

impl From<ClaudeUsageMetrics> for UsageMetrics {
    fn from(value: ClaudeUsageMetrics) -> (res: Self) {
        UsageMetrics { input_tokens: value.input_tokens, output_tokens: value.output_tokens }
    }
}

impl vstd::std_specs::convert::FromSpecImpl<ClaudeUsageMetrics> for UsageMetrics {
    open spec fn obeys_from_spec() -> bool {
        true
    }

    open spec fn from_spec(v: ClaudeUsageMetrics) -> UsageMetrics {
        UsageMetrics::from_claude_spec(v)
    }
}

impl ClaudeModelResponse {
    /// The ids of the listed models, in order.
    pub fn model_ids(self) -> (res: Vec<String>)
        ensures
            res@ == self.data@.map_values(|o: ClaudeModelOutput| o.id),
    {
        let mut ids: Vec<String> = Vec::new();
        for o in it: self.data
            invariant
                ids@ == it.seq().take(it.index() as int).map_values(|o: ClaudeModelOutput| o.id),
        {
            ids.push(o.id);
            proof {
                assert(it.seq().take(it.index() + 1) =~= it.seq().take(it.index() as int).push(o));
                assert(ids@ =~= it.seq().take(it.index() + 1).map_values(|o: ClaudeModelOutput| o.id));
            }
        }
        ids
    }
}

// ----- OpenAI GPT -----

pub struct GptChatRequest {
    pub model: String,
    pub input: Vec<GptChatRequestInput>,
}

pub struct GptChatRequestInput {
    pub role: String,
    pub content: String,
}

pub struct GptChatResponse {
    pub output: Vec<GptChatResponseOutput>,
    pub usage: GptUsageMetrics,
}

pub struct GptChatResponseOutput {
    pub role: String,
    pub content: Vec<GptChatContent>,
}

pub struct GptChatContent {
    pub text: String,
}

#[derive(Clone, Copy, Debug, PartialEq, Eq, Structural)]
pub struct GptUsageMetrics {
    pub input_tokens: u32,
    pub output_tokens: u32,
    pub total_tokens: u32,
}

pub struct GptModelResponse {
    pub data: Vec<GptModelOutput>,
}

pub struct GptModelOutput {
    pub id: String,
}

pub open spec fn gpt_input_views(s: Seq<GptChatRequestInput>) -> Seq<(Seq<char>, Seq<char>)> {
    s.map_values(|i: GptChatRequestInput| (i.role@, i.content@))
}

impl GptChatRequestInput {
    pub fn from(value: ChatRequestInput) -> (res: Self)
        ensures
            res.role == value.role,
            res.content == value.content,
    {
        GptChatRequestInput { role: value.role, content: value.content }
    }
}

impl GptChatRequest {
    /// GPT's request for a chat: the same model and the same inputs.
    pub fn from(value: ChatRequest) -> (res: Self)
        ensures
            res.model == value.model,
            gpt_input_views(res.input@) == input_views(value.input@),
    {
        let mut input: Vec<GptChatRequestInput> = Vec::new();
        for item in it: value.input
            invariant
                gpt_input_views(input@) == input_views(it.seq().take(it.index() as int)),
        {
            let ghost before = input@;
            input.push(GptChatRequestInput::from(item));
            proof {
                assert(it.seq().take(it.index() + 1) =~= it.seq().take(it.index() as int).push(item));
                assert(gpt_input_views(input@) =~= gpt_input_views(before).push((item.role@, item.content@)));
                assert(input_views(it.seq().take(it.index() + 1)) =~= input_views(it.seq().take(it.index() as int)).push(
                    (item.role@, item.content@),
                ));
            }
        }
        GptChatRequest { model: value.model, input }
    }
}

/// The messages of one GPT output: one per content part, with its role.
pub open spec fn gpt_output_messages(o: GptChatResponseOutput) -> Seq<(Seq<char>, Seq<char>)> {
    o.content@.map_values(|c: GptChatContent| (o.role@, c.text@))
}

/// The messages of a GPT response: those of each output, in order.
pub open spec fn gpt_messages(outputs: Seq<GptChatResponseOutput>) -> Seq<(Seq<char>, Seq<char>)>
    decreases outputs.len(),
{
    if outputs.len() == 0 {
        Seq::empty()
    } else {
        gpt_messages(outputs.drop_last()) + gpt_output_messages(outputs.last())
    }
}

impl ChatResponse {
    pub fn from_gpt(value: GptChatResponse) -> (res: Self)
        ensures
            message_views(res.messages@) == gpt_messages(value.output@),
            res.usage == UsageMetrics::from_gpt_spec(value.usage),
    {
        let mut messages: Vec<ChatMessage> = Vec::new();
        let ghost outs = value.output@;
        for output in it: value.output
            invariant
                it.seq() == outs,
                message_views(messages@) == gpt_messages(it.seq().take(it.index() as int)),
        {
            let ghost start = messages@;
            let role = output.role;
            let ghost parts = output.content@;
            for content in jt: output.content
                invariant
                    jt.seq() == parts,
                    message_views(messages@) == message_views(start) + parts.take(jt.index() as int).map_values(
                        |c: GptChatContent| (role@, c.text@),
                    ),
            {
                let ghost before = messages@;
                messages.push(ChatMessage { role: role.clone(), content: content.text });
                proof {
                    assert(parts.take(jt.index() + 1) =~= parts.take(jt.index() as int).push(content));
                    assert(message_views(messages@) =~= message_views(before).push((role@, content.text@)));
                    assert(parts.take(jt.index() + 1).map_values(|c: GptChatContent| (role@, c.text@))
                        =~= parts.take(jt.index() as int).map_values(|c: GptChatContent| (role@, c.text@)).push(
                        (role@, content.text@),
                    ));
                }
            }
            proof {
                let done = it.seq().take(it.index() + 1);
                assert(done =~= it.seq().take(it.index() as int).push(output));
                assert(done.drop_last() =~= it.seq().take(it.index() as int));
                assert(parts.take(parts.len() as int) =~= parts);
                assert(gpt_output_messages(output) =~= parts.map_values(|c: GptChatContent| (role@, c.text@)));
            }
        }
        proof {
            assert(outs.take(outs.len() as int) =~= outs);
        }
        ChatResponse { messages, usage: UsageMetrics::from(value.usage) }
    }
}

impl UsageMetrics {
    pub open spec fn from_gpt_spec(value: GptUsageMetrics) -> UsageMetrics {
        UsageMetrics { input_tokens: value.input_tokens, output_tokens: value.output_tokens }
    }
}

impl From<GptUsageMetrics> for UsageMetrics {
    fn from(value: GptUsageMetrics) -> (res: Self) {
        UsageMetrics { input_tokens: value.input_tokens, output_tokens: value.output_tokens }
    }
}

impl vstd::std_specs::convert::FromSpecImpl<GptUsageMetrics> for UsageMetrics {
    open spec fn obeys_from_spec() -> bool {
        true
    }

    open spec fn from_spec(v: GptUsageMetrics) -> UsageMetrics {
        UsageMetrics::from_gpt_spec(v)
    }
}

impl GptModelResponse {
    /// The ids of the listed models, in order.
    pub fn model_ids(self) -> (res: Vec<String>)
        ensures
            res@ == self.data@.map_values(|o: GptModelOutput| o.id),
    {
        let mut ids: Vec<String> = Vec::new();
        for o in it: self.data
            invariant
                ids@ == it.seq().take(it.index() as int).map_values(|o: GptModelOutput| o.id),
        {
            ids.push(o.id);
            proof {
                assert(it.seq().take(it.index() + 1) =~= it.seq().take(it.index() as int).push(o));
                assert(ids@ =~= it.seq().take(it.index() + 1).map_values(|o: GptModelOutput| o.id));
            }
        }
        ids
    }
}

// ----- DigitalOcean inference -----

pub struct DOChatRequest {
    pub model: String,
    pub messages: Vec<DOChatRequestInput>,
}

pub struct DOChatRequestInput {
    pub role: String,
    pub content: String,
}

pub struct DOChatResponse {
    pub choices: Vec<DOChatChoice>,
    pub usage: DOUsageMetrics,
}

pub struct DOChatChoice {
    pub message: DOChatMessage,
}

pub struct DOChatMessage {
    pub role: String,
    pub content: Option<String>,
}

#[derive(Clone, Copy, Debug, PartialEq, Eq, Structural)]
pub struct DOUsageMetrics {
    pub prompt_tokens: u32,
    pub completion_tokens: u32,
    pub total_tokens: u32,
}

pub struct DOModelResponse {
    pub data: Vec<DOModelOutput>,
}

pub struct DOModelOutput {
    pub id: String,
}

pub open spec fn do_input_views(s: Seq<DOChatRequestInput>) -> Seq<(Seq<char>, Seq<char>)> {
    s.map_values(|i: DOChatRequestInput| (i.role@, i.content@))
}

impl DOChatRequestInput {
    pub fn from(value: ChatRequestInput) -> (res: Self)
        ensures
            res.role == value.role,
            res.content == value.content,
    {
        DOChatRequestInput { role: value.role, content: value.content }
    }
}

impl DOChatRequest {
    /// DigitalOcean's request for a chat: the same model and messages.
    pub fn from(value: ChatRequest) -> (res: Self)
        ensures
            res.model == value.model,
            do_input_views(res.messages@) == input_views(value.input@),
    {
        let mut messages: Vec<DOChatRequestInput> = Vec::new();
        for item in it: value.input
            invariant
                do_input_views(messages@) == input_views(it.seq().take(it.index() as int)),
        {
            let ghost before = messages@;
            messages.push(DOChatRequestInput::from(item));
            proof {
                assert(it.seq().take(it.index() + 1) =~= it.seq().take(it.index() as int).push(item));
                assert(do_input_views(messages@) =~= do_input_views(before).push((item.role@, item.content@)));
                assert(input_views(it.seq().take(it.index() + 1)) =~= input_views(it.seq().take(it.index() as int)).push(
                    (item.role@, item.content@),
                ));
            }
        }
        DOChatRequest { model: value.model, messages }
    }
}

/// Content of a DigitalOcean message: empty where there is none.
pub open spec fn content_or_empty(content: Option<String>) -> Seq<char> {
    match content {
        Some(c) => c@,
        None => Seq::empty(),
    }
}

/// The messages of a DigitalOcean response: one per choice.
pub open spec fn do_messages(choices: Seq<DOChatChoice>) -> Seq<(Seq<char>, Seq<char>)> {
    choices.map_values(|c: DOChatChoice| (c.message.role@, content_or_empty(c.message.content)))
}

impl ChatResponse {
    pub fn from_do(value: DOChatResponse) -> (res: Self)
        ensures
            message_views(res.messages@) == do_messages(value.choices@),
            res.usage == UsageMetrics::from_do_spec(value.usage),
    {
        let mut messages: Vec<ChatMessage> = Vec::new();
        for choice in it: value.choices
            invariant
                message_views(messages@) == do_messages(it.seq().take(it.index() as int)),
        {
            let ghost before = messages@;
            let content = match choice.message.content {
                Some(c) => c,
                None => String::new(),
            };
            messages.push(ChatMessage { role: choice.message.role, content });
            proof {
                assert(it.seq().take(it.index() + 1) =~= it.seq().take(it.index() as int).push(choice));
                assert(message_views(messages@) =~= message_views(before).push(
                    (choice.message.role@, content_or_empty(choice.message.content)),
                ));
                assert(do_messages(it.seq().take(it.index() + 1)) =~= do_messages(it.seq().take(it.index() as int)).push(
                    (choice.message.role@, content_or_empty(choice.message.content)),
                ));
            }
        }
        ChatResponse { messages, usage: UsageMetrics::from(value.usage) }
    }
}

impl UsageMetrics {
    pub open spec fn from_do_spec(value: DOUsageMetrics) -> UsageMetrics {
        UsageMetrics { input_tokens: value.prompt_tokens, output_tokens: value.completion_tokens }
    }
}

impl From<DOUsageMetrics> for UsageMetrics {
    fn from(value: DOUsageMetrics) -> (res: Self) {
        UsageMetrics { input_tokens: value.prompt_tokens, output_tokens: value.completion_tokens }
    }
}

impl vstd::std_specs::convert::FromSpecImpl<DOUsageMetrics> for UsageMetrics {
    open spec fn obeys_from_spec() -> bool {
        true
    }

    open spec fn from_spec(v: DOUsageMetrics) -> UsageMetrics {
        UsageMetrics::from_do_spec(v)
    }
}

impl DOModelResponse {
    /// The ids of the listed models, in order.
    pub fn model_ids(self) -> (res: Vec<String>)
        ensures
            res@ == self.data@.map_values(|o: DOModelOutput| o.id),
    {
        let mut ids: Vec<String> = Vec::new();
        for o in it: self.data
            invariant
                ids@ == it.seq().take(it.index() as int).map_values(|o: DOModelOutput| o.id),
        {
            ids.push(o.id);
            proof {
                assert(it.seq().take(it.index() + 1) =~= it.seq().take(it.index() as int).push(o));
                assert(ids@ =~= it.seq().take(it.index() + 1).map_values(|o: DOModelOutput| o.id));
            }
        }
        ids
    }
}

// ----- Ollama -----

pub struct OllamaChatRequest {
    pub model: String,
    pub messages: Vec<OllamaChatRequestInput>,
    pub stream: bool,
}

pub struct OllamaChatRequestInput {
    pub role: String,
    pub content: String,
}

pub struct OllamaChatResponse {
    pub message: OllamaChatMessage,
    pub prompt_eval_count: u32,
    pub eval_count: u32,
}

pub struct OllamaChatMessage {
    pub role: String,
    pub content: String,
}

pub struct OllamaModelResponse {
    pub models: Vec<OllamaModelOutput>,
}

pub struct OllamaModelOutput {
    pub name: String,
}

pub const OLLAMA_DEFAULT_BASE_URL: &'static str = "http://localhost:11434";

/// The base URL of an Ollama server: the one given, else the default.
pub fn ollama_base_url(base_url: Option<String>) -> (res: String)
    ensures
        res@ == match base_url {
            Some(u) => u@,
            None => OLLAMA_DEFAULT_BASE_URL@,
        },
{
    match base_url {
        Some(u) => u,
        None => OLLAMA_DEFAULT_BASE_URL.to_string(),
    }
}

pub open spec fn ollama_input_views(s: Seq<OllamaChatRequestInput>) -> Seq<(Seq<char>, Seq<char>)> {
    s.map_values(|i: OllamaChatRequestInput| (i.role@, i.content@))
}

impl OllamaChatRequestInput {
    pub fn from(value: ChatRequestInput) -> (res: Self)
        ensures
            res.role == value.role,
            res.content == value.content,
    {
        OllamaChatRequestInput { role: value.role, content: value.content }
    }
}

impl OllamaChatRequest {
    /// Ollama's request for a chat: the same model and messages, without
    /// streaming.
    pub fn from(value: ChatRequest) -> (res: Self)
        ensures
            res.model == value.model,
            ollama_input_views(res.messages@) == input_views(value.input@),
            !res.stream,
    {
        let mut messages: Vec<OllamaChatRequestInput> = Vec::new();
        for item in it: value.input
            invariant
                ollama_input_views(messages@) == input_views(it.seq().take(it.index() as int)),
        {
            let ghost before = messages@;
            messages.push(OllamaChatRequestInput::from(item));
            proof {
                assert(it.seq().take(it.index() + 1) =~= it.seq().take(it.index() as int).push(item));
                assert(ollama_input_views(messages@) =~= ollama_input_views(before).push((item.role@, item.content@)));
                assert(input_views(it.seq().take(it.index() + 1)) =~= input_views(it.seq().take(it.index() as int)).push(
                    (item.role@, item.content@),
                ));
            }
        }
        OllamaChatRequest { model: value.model, messages, stream: false }
    }
}

impl ChatResponse {
    pub fn from_ollama(value: OllamaChatResponse) -> (res: Self)
        ensures
            message_views(res.messages@) == seq![(value.message.role@, value.message.content@)],
            res.usage == (UsageMetrics { input_tokens: value.prompt_eval_count, output_tokens: value.eval_count }),
    {
        let messages = vec![ChatMessage { role: value.message.role, content: value.message.content }];
        proof {
            assert(message_views(messages@) =~= seq![(value.message.role@, value.message.content@)]);
        }
        ChatResponse {
            messages,
            usage: UsageMetrics { input_tokens: value.prompt_eval_count, output_tokens: value.eval_count },
        }
    }
}

impl OllamaModelResponse {
    /// The names of the listed models, in order.
    pub fn model_names(self) -> (res: Vec<String>)
        ensures
            res@ == self.models@.map_values(|o: OllamaModelOutput| o.name),
    {
        let mut names: Vec<String> = Vec::new();
        for o in it: self.models
            invariant
                names@ == it.seq().take(it.index() as int).map_values(|o: OllamaModelOutput| o.name),
        {
            names.push(o.name);
            proof {
                assert(it.seq().take(it.index() + 1) =~= it.seq().take(it.index() as int).push(o));
                assert(names@ =~= it.seq().take(it.index() + 1).map_values(|o: OllamaModelOutput| o.name));
            }
        }
        names
    }
}

} // verus!
