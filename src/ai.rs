use vstd::prelude::*;

use crate::config::ProviderConfig;
use crate::numeric::{is_float_literal, is_float_text, parse_u32, parsed_u32};
use crate::text::opt_text;

verus! {

pub const DEEPSEEK_BASE_URL: &'static str = "https://api.deepseek.com/v1";

pub const DEEPSEEK_DEFAULT_MODEL: &'static str = "deepseek-chat";

pub const LOCAL_DEFAULT_MODEL: &'static str = "local-model";

pub const DEFAULT_MAX_TOKENS: u32 = 1000;

pub const DEFAULT_TEMPERATURE: &'static str = "0.7";

/// The score given to an answer whose evaluation could not be read.
pub const FALLBACK_SCORE: u8 = 70;

/// Why a call to a text-generation service failed.
#[derive(Debug, PartialEq, Eq)]
pub enum AIError {
    /// The request did not reach the service or its reply was cut off.
    HttpError(String),
    /// The service answered with a status outside 2xx.
    ApiError { status: u16, message: String },
    /// The reply was no JSON document.
    JsonError(String),
    /// The provider could not be built from its settings.
    ConfigError(String),
    /// The reply was JSON but held no message content.
    InvalidResponse(String),
}

/// A graded answer.
#[derive(Debug, PartialEq, Eq)]
pub struct AIEvaluation {
    pub score: u8,
    pub feedback: String,
    pub suggestions: Vec<String>,
}

impl AIEvaluation {
    /// A score lies in [0, 100].
    pub open spec fn well_formed(&self) -> bool {
        self.score <= 100
    }
}

/// Whether `e` is the degraded evaluation for a reply `raw` that could not be
/// read as an evaluation.
pub open spec fn is_fallback(e: AIEvaluation, raw: Seq<char>, suggestion: Seq<char>) -> bool {
    &&& e.score == FALLBACK_SCORE
    &&& e.feedback@ == raw
    &&& e.suggestions.len() == 1
    &&& e.suggestions[0]@ == suggestion
}

pub open spec fn clamp_score(n: u64) -> u8 {
    if n > 100 {
        100
    } else {
        n as u8
    }
}

/// Whether `e` settles a reply `raw` that reads as `parsed` in the shape of an
/// evaluation (a `u8` score, a feedback text and a list of suggestion texts):
/// a parsed evaluation is taken with its score clamped to 100; a reply that
/// does not read in that shape gets the degraded evaluation.
pub open spec fn settles(e: AIEvaluation, raw: Seq<char>, parsed: Option<AIEvaluation>, fallback: Seq<char>) -> bool {
    match parsed {
        Some(p) => {
            &&& e.score == clamp_score(p.score as u64)
            &&& e.feedback@ == p.feedback@
            &&& e.suggestions@.map_values(|s: String| s@) == p.suggestions@.map_values(|s: String| s@)
        },
        None => is_fallback(e, raw, fallback),
    }
}

/// The evaluation that a reply carries, given what the reply reads as in the
/// shape of an evaluation (`None` when it does not; the reading is a
/// deserialisation of the library's own type, so it happens where types get
/// their serde implementations).
pub fn evaluation_from_reply(raw: String, parsed: Option<AIEvaluation>, fallback: &str) -> (r: AIEvaluation)
    ensures
        r.well_formed(),
        settles(r, raw@, parsed, fallback@),
{
    match parsed {
        Some(p) => {
            let score: u8 = if p.score > 100 {
                100
            } else {
                p.score
            };
            let r = AIEvaluation { score, feedback: p.feedback, suggestions: p.suggestions };
            assert(r.suggestions@.map_values(|s: String| s@) == p.suggestions@.map_values(|s: String| s@));
            r
        },
        None => {
            let mut v: Vec<String> = Vec::new();
            v.push(fallback.to_string());
            AIEvaluation { score: FALLBACK_SCORE, feedback: raw, suggestions: v }
        },
    }
}

pub const DEEPSEEK_QUESTION_SYSTEM: &'static str = "你是一个专业的教育助手。基于提供的学习材料内容，生成一个有深度的问题来测试学习者对内容的理解。问题应该：1) 测试核心概念的理解 2) 需要综合思考 3) 避免简单的事实性问题。请只返回问题本身，不要包含其他解释。";

pub const DEEPSEEK_QUESTION_INTRO: &'static str = "基于以下学习材料生成一个问题：\n\n";

pub const DEEPSEEK_EVALUATION_SYSTEM: &'static str = "你是一个专业的教育评估助手。请评估学习者的答案，并提供建设性的反馈。评估标准：准确性、完整性、深度。请以JSON格式返回评估结果，包含：score(0-100的整数)、feedback(详细反馈)、suggestions(改进建议数组)。";

pub const DEEPSEEK_MATERIAL_LABEL: &'static str = "参考材料：\n";

pub const DEEPSEEK_QUESTION_LABEL: &'static str = "\n\n问题：";

pub const DEEPSEEK_ANSWER_LABEL: &'static str = "\n\n学习者答案：";

pub const DEEPSEEK_EVALUATION_CLOSING: &'static str = "\n\n请评估这个答案并返回JSON格式的评估结果。";

pub const DEEPSEEK_FALLBACK_SUGGESTION: &'static str = "请参考参考材料进一步完善答案";

pub const LOCAL_QUESTION_SYSTEM: &'static str = "You are a professional educational assistant. Based on the provided learning material content, generate a thoughtful question to test the learner's understanding. The question should: 1) Test understanding of core concepts 2) Require comprehensive thinking 3) Avoid simple factual questions. Please return only the question itself without other explanations.";

pub const LOCAL_QUESTION_INTRO: &'static str = "Generate a question based on the following learning material:\n\n";

pub const LOCAL_EVALUATION_SYSTEM: &'static str = "You are a professional educational assessment assistant. Please evaluate the learner's answer and provide constructive feedback. Evaluation criteria: accuracy, completeness, depth. Please return the evaluation result in JSON format, including: score (integer 0-100), feedback (detailed feedback), suggestions (array of improvement suggestions).";

pub const LOCAL_MATERIAL_LABEL: &'static str = "Reference material:\n";

pub const LOCAL_QUESTION_LABEL: &'static str = "\n\nQuestion: ";

pub const LOCAL_ANSWER_LABEL: &'static str = "\n\nLearner's answer: ";

pub const LOCAL_EVALUATION_CLOSING: &'static str = "\n\nPlease evaluate this answer and return a JSON-formatted evaluation result.";

pub const LOCAL_FALLBACK_SUGGESTION: &'static str = "Please refer to the reference material to further improve your answer";

pub const CONNECTION_PROBE: &'static str = "Hello, this is a connection test.";

pub const NO_CONTENT: &'static str = "No content in response";

pub const MISSING_API_KEY: &'static str = "Missing api_key for DeepSeek";

pub const MISSING_API_URL: &'static str = "Missing api_url for Local AI";

/// The two kinds of text-generation service.
#[derive(Debug, Clone, Copy, PartialEq, Eq, Structural)]
pub enum AIProviderType {
    /// A hosted service reached with a bearer token at a fixed address.
    DeepSeek,
    /// A self-hosted service reached without a token at an address of the caller's.
    Local,
}

/// What a provider is made of.
pub struct ProviderView {
    pub kind: AIProviderType,
    pub api_key: Option<Seq<char>>,
    pub base_url: Seq<char>,
    pub model: Seq<char>,
    pub max_tokens: u32,
    pub temperature: Seq<char>,
}

/// The model, output-token bound and sampling temperature of a provider; the
/// temperature is kept as the literal that the service is sent.
pub struct ChatSettings {
    model: String,
    max_tokens: u32,
    temperature: String,
}

pub open spec fn model_choice(model: Option<Seq<char>>, default: Seq<char>) -> Seq<char> {
    match model {
        Some(m) => m,
        None => default,
    }
}

pub open spec fn tokens_choice(tokens: Option<u32>) -> u32 {
    match tokens {
        Some(n) => n,
        None => DEFAULT_MAX_TOKENS,
    }
}

/// A temperature is taken when it is a floating-point literal, and the default
/// stands otherwise.
pub open spec fn temperature_choice(t: Option<Seq<char>>) -> Seq<char> {
    if t is Some && is_float_text(t->0) {
        t->0
    } else {
        DEFAULT_TEMPERATURE@
    }
}

impl ChatSettings {
    pub closed spec fn spec_model(&self) -> Seq<char> {
        self.model@
    }

    pub closed spec fn spec_max_tokens(&self) -> u32 {
        self.max_tokens
    }

    pub closed spec fn spec_temperature(&self) -> Seq<char> {
        self.temperature@
    }

    fn select(model: Option<String>, default_model: &str, max_tokens: Option<u32>, temperature: Option<String>) -> (r: ChatSettings)
        ensures
            r.spec_model() == model_choice(opt_text(model), default_model@),
            r.spec_max_tokens() == tokens_choice(max_tokens),
            r.spec_temperature() == temperature_choice(opt_text(temperature)),
    {
        let model = match model {
            Some(m) => m,
            None => default_model.to_string(),
        };
        let max_tokens = match max_tokens {
            Some(n) => n,
            None => DEFAULT_MAX_TOKENS,
        };
        let temperature = match temperature {
            Some(t) => if is_float_literal(t.as_str()) {
                t
            } else {
                DEFAULT_TEMPERATURE.to_string()
            },
            None => DEFAULT_TEMPERATURE.to_string(),
        };
        ChatSettings { model, max_tokens, temperature }
    }
}

/// A client of the hosted service.
pub struct DeepSeekProvider {
    api_key: String,
    base_url: String,
    settings: ChatSettings,
}

/// A client of a self-hosted service.
pub struct LocalAIProvider {
    api_url: String,
    settings: ChatSettings,
}

impl View for DeepSeekProvider {
    type V = ProviderView;

    closed spec fn view(&self) -> ProviderView {
        ProviderView {
            kind: AIProviderType::DeepSeek,
            api_key: Some(self.api_key@),
            base_url: self.base_url@,
            model: self.settings.spec_model(),
            max_tokens: self.settings.spec_max_tokens(),
            temperature: self.settings.spec_temperature(),
        }
    }
}

impl View for LocalAIProvider {
    type V = ProviderView;

    closed spec fn view(&self) -> ProviderView {
        ProviderView {
            kind: AIProviderType::Local,
            api_key: None,
            base_url: self.api_url@,
            model: self.settings.spec_model(),
            max_tokens: self.settings.spec_max_tokens(),
            temperature: self.settings.spec_temperature(),
        }
    }
}

impl DeepSeekProvider {
    pub fn new(api_key: String) -> (r: DeepSeekProvider)
        ensures
            r@ == (ProviderView {
                kind: AIProviderType::DeepSeek,
                api_key: Some(api_key@),
                base_url: DEEPSEEK_BASE_URL@,
                model: DEEPSEEK_DEFAULT_MODEL@,
                max_tokens: DEFAULT_MAX_TOKENS,
                temperature: DEFAULT_TEMPERATURE@,
            }),
    {
        Self::with_config(api_key, None, None, None)
    }

    /// A client with the given settings; a temperature that is no
    /// floating-point literal is replaced by the default.
    pub fn with_config(
        api_key: String,
        model: Option<String>,
        max_tokens: Option<u32>,
        temperature: Option<String>,
    ) -> (r: DeepSeekProvider)
        ensures
            r@ == (ProviderView {
                kind: AIProviderType::DeepSeek,
                api_key: Some(api_key@),
                base_url: DEEPSEEK_BASE_URL@,
                model: model_choice(opt_text(model), DEEPSEEK_DEFAULT_MODEL@),
                max_tokens: tokens_choice(max_tokens),
                temperature: temperature_choice(opt_text(temperature)),
            }),
    {
        let settings = ChatSettings::select(model, DEEPSEEK_DEFAULT_MODEL, max_tokens, temperature);
        DeepSeekProvider { api_key, base_url: DEEPSEEK_BASE_URL.to_string(), settings }
    }

    pub fn api_key(&self) -> (r: &str)
        ensures
            self@.api_key == Some(r@),
    {
        self.api_key.as_str()
    }

    pub fn model(&self) -> (r: &str)
        ensures
            r@ == self@.model,
    {
        self.settings.model.as_str()
    }
}

impl LocalAIProvider {
    pub fn new(api_url: String) -> (r: LocalAIProvider)
        ensures
            r@ == (ProviderView {
                kind: AIProviderType::Local,
                api_key: None,
                base_url: api_url@,
                model: LOCAL_DEFAULT_MODEL@,
                max_tokens: DEFAULT_MAX_TOKENS,
                temperature: DEFAULT_TEMPERATURE@,
            }),
    {
        Self::with_config(api_url, None, None, None)
    }

    /// A client with the given settings; a temperature that is no
    /// floating-point literal is replaced by the default.
    pub fn with_config(
        api_url: String,
        model: Option<String>,
        max_tokens: Option<u32>,
        temperature: Option<String>,
    ) -> (r: LocalAIProvider)
        ensures
            r@ == (ProviderView {
                kind: AIProviderType::Local,
                api_key: None,
                base_url: api_url@,
                model: model_choice(opt_text(model), LOCAL_DEFAULT_MODEL@),
                max_tokens: tokens_choice(max_tokens),
                temperature: temperature_choice(opt_text(temperature)),
            }),
    {
        let settings = ChatSettings::select(model, LOCAL_DEFAULT_MODEL, max_tokens, temperature);
        LocalAIProvider { api_url, settings }
    }

    pub fn api_url(&self) -> (r: &str)
        ensures
            r@ == self@.base_url,
    {
        self.api_url.as_str()
    }

    pub fn model(&self) -> (r: &str)
        ensures
            r@ == self@.model,
    {
        self.settings.model.as_str()
    }
}

/// A provider that the factory built: one of the two services.
pub enum Provider {
    DeepSeek(DeepSeekProvider),
    Local(LocalAIProvider),
}

impl View for Provider {
    type V = ProviderView;

    open spec fn view(&self) -> ProviderView {
        match self {
            Provider::DeepSeek(p) => p@,
            Provider::Local(p) => p@,
        }
    }
}

/// One message of a chat exchange.
pub struct ChatMessage {
    pub role: String,
    pub content: Option<String>,
}

/// Everything a chat-completion call sends: where, with which credential, and
/// the body's model, messages, output-token bound and temperature.
pub struct ChatRequest {
    pub url: String,
    pub authorization: Option<String>,
    pub model: String,
    pub messages: Vec<ChatMessage>,
    pub max_tokens: u32,
    pub temperature: String,
}

pub open spec fn message_view(m: ChatMessage) -> (Seq<char>, Option<Seq<char>>) {
    (m.role@, opt_text(m.content))
}

pub open spec fn endpoint_of(p: ProviderView) -> Seq<char> {
    match p.kind {
        AIProviderType::DeepSeek => p.base_url + "/chat/completions"@,
        AIProviderType::Local => p.base_url + "/v1/chat/completions"@,
    }
}

pub open spec fn authorization_of(p: ProviderView) -> Option<Seq<char>> {
    match p.api_key {
        Some(k) => Some("Bearer "@ + k),
        None => None,
    }
}

/// Whether `r` is the request of provider `p` carrying `messages`.
pub open spec fn is_request(r: ChatRequest, p: ProviderView, messages: Seq<(Seq<char>, Option<Seq<char>>)>) -> bool {
    &&& r.url@ == endpoint_of(p)
    &&& opt_text(r.authorization) == authorization_of(p)
    &&& r.model@ == p.model
    &&& r.max_tokens == p.max_tokens
    &&& r.temperature@ == p.temperature
    &&& r.messages@.map_values(|m: ChatMessage| message_view(m)) == messages
}

pub open spec fn question_messages(kind: AIProviderType, context: Seq<char>) -> Seq<(Seq<char>, Option<Seq<char>>)> {
    match kind {
        AIProviderType::DeepSeek => seq![
            ("system"@, Some(DEEPSEEK_QUESTION_SYSTEM@)),
            ("user"@, Some(DEEPSEEK_QUESTION_INTRO@ + context)),
        ],
        AIProviderType::Local => seq![
            ("system"@, Some(LOCAL_QUESTION_SYSTEM@)),
            ("user"@, Some(LOCAL_QUESTION_INTRO@ + context)),
        ],
    }
}

pub open spec fn evaluation_messages(
    kind: AIProviderType,
    question: Seq<char>,
    answer: Seq<char>,
    context: Seq<char>,
) -> Seq<(Seq<char>, Option<Seq<char>>)> {
    match kind {
        AIProviderType::DeepSeek => seq![
            ("system"@, Some(DEEPSEEK_EVALUATION_SYSTEM@)),
            ("user"@, Some(DEEPSEEK_MATERIAL_LABEL@ + context + DEEPSEEK_QUESTION_LABEL@ + question
                + DEEPSEEK_ANSWER_LABEL@ + answer + DEEPSEEK_EVALUATION_CLOSING@)),
        ],
        AIProviderType::Local => seq![
            ("system"@, Some(LOCAL_EVALUATION_SYSTEM@)),
            ("user"@, Some(LOCAL_MATERIAL_LABEL@ + context + LOCAL_QUESTION_LABEL@ + question
                + LOCAL_ANSWER_LABEL@ + answer + LOCAL_EVALUATION_CLOSING@)),
        ],
    }
}

pub open spec fn probe_messages() -> Seq<(Seq<char>, Option<Seq<char>>)> {
    seq![("user"@, Some(CONNECTION_PROBE@))]
}

pub open spec fn fallback_suggestion_of(kind: AIProviderType) -> Seq<char> {
    match kind {
        AIProviderType::DeepSeek => DEEPSEEK_FALLBACK_SUGGESTION@,
        AIProviderType::Local => LOCAL_FALLBACK_SUGGESTION@,
    }
}

fn message(role: &str, content: String) -> (r: ChatMessage)
    ensures
        message_view(r) == (role@, Some(content@)),
{
    ChatMessage { role: role.to_string(), content: Some(content) }
}

impl Provider {
    fn request(&self, messages: Vec<ChatMessage>) -> (r: ChatRequest)
        ensures
            is_request(r, self@, messages@.map_values(|m: ChatMessage| message_view(m))),
    {
        match self {
            Provider::DeepSeek(p) => {
                let mut url = p.base_url.clone();
                url.append("/chat/completions");
                let mut authorization = "Bearer ".to_string();
                authorization.append(p.api_key.as_str());
                ChatRequest {
                    url,
                    authorization: Some(authorization),
                    model: p.settings.model.clone(),
                    messages,
                    max_tokens: p.settings.max_tokens,
                    temperature: p.settings.temperature.clone(),
                }
            },
            Provider::Local(p) => {
                let mut url = p.api_url.clone();
                url.append("/v1/chat/completions");
                ChatRequest {
                    url,
                    authorization: None,
                    model: p.settings.model.clone(),
                    messages,
                    max_tokens: p.settings.max_tokens,
                    temperature: p.settings.temperature.clone(),
                }
            },
        }
    }

    /// The request that asks the service for a question on `context`.
    pub fn question_request(&self, context: &str) -> (r: ChatRequest)
        ensures
            is_request(r, self@, question_messages(self@.kind, context@)),
    {
        let (system, intro) = match self {
            Provider::DeepSeek(_) => (DEEPSEEK_QUESTION_SYSTEM, DEEPSEEK_QUESTION_INTRO),
            Provider::Local(_) => (LOCAL_QUESTION_SYSTEM, LOCAL_QUESTION_INTRO),
        };
        let mut user = intro.to_string();
        user.append(context);
        let mut messages: Vec<ChatMessage> = Vec::new();
        messages.push(message("system", system.to_string()));
        messages.push(message("user", user));
        let r = self.request(messages);
        assert(r.messages@.map_values(|m: ChatMessage| message_view(m)) =~= question_messages(self@.kind, context@));
        r
    }

    /// The request that asks the service to grade `answer` to `question`
    /// against `context`.
    pub fn evaluation_request(&self, question: &str, answer: &str, context: &str) -> (r: ChatRequest)
        ensures
            is_request(r, self@, evaluation_messages(self@.kind, question@, answer@, context@)),
    {
        let (system, material, question_label, answer_label, closing) = match self {
            Provider::DeepSeek(_) => (
                DEEPSEEK_EVALUATION_SYSTEM,
                DEEPSEEK_MATERIAL_LABEL,
                DEEPSEEK_QUESTION_LABEL,
                DEEPSEEK_ANSWER_LABEL,
                DEEPSEEK_EVALUATION_CLOSING,
            ),
            Provider::Local(_) => (
                LOCAL_EVALUATION_SYSTEM,
                LOCAL_MATERIAL_LABEL,
                LOCAL_QUESTION_LABEL,
                LOCAL_ANSWER_LABEL,
                LOCAL_EVALUATION_CLOSING,
            ),
        };
        let mut user = material.to_string();
        user.append(context);
        user.append(question_label);
        user.append(question);
        user.append(answer_label);
        user.append(answer);
        user.append(closing);
        let mut messages: Vec<ChatMessage> = Vec::new();
        messages.push(message("system", system.to_string()));
        messages.push(message("user", user));
        let r = self.request(messages);
        assert(r.messages@.map_values(|m: ChatMessage| message_view(m)) =~= evaluation_messages(
            self@.kind,
            question@,
            answer@,
            context@,
        ));
        r
    }

    /// The minimal request that probes whether the service answers.
    pub fn connection_request(&self) -> (r: ChatRequest)
        ensures
            is_request(r, self@, probe_messages()),
    {
        let mut messages: Vec<ChatMessage> = Vec::new();
        messages.push(message("user", CONNECTION_PROBE.to_string()));
        let r = self.request(messages);
        assert(r.messages@.map_values(|m: ChatMessage| message_view(m)) =~= probe_messages());
        r
    }

    /// The suggestion given with a degraded evaluation.
    pub fn fallback_suggestion(&self) -> (r: &'static str)
        ensures
            r@ == fallback_suggestion_of(self@.kind),
    {
        match self {
            Provider::DeepSeek(_) => DEEPSEEK_FALLBACK_SUGGESTION,
            Provider::Local(_) => LOCAL_FALLBACK_SUGGESTION,
        }
    }

    /// The evaluation that a reply to an evaluation request carries; see
    /// `evaluation_from_reply`.
    pub fn evaluation_from_reply(&self, reply: String, parsed: Option<AIEvaluation>) -> (r: AIEvaluation)
        ensures
            r.well_formed(),
            settles(r, reply@, parsed, fallback_suggestion_of(self@.kind)),
    {
        evaluation_from_reply(reply, parsed, self.fallback_suggestion())
    }
}

/// The output-token bound that a setting gives: its value when it reads as a
/// `u32`, the default otherwise.
pub open spec fn tokens_setting(t: Option<Seq<char>>) -> Option<u32> {
    match t {
        Some(text) => parsed_u32(text),
        None => None,
    }
}

/// The provider that `config` describes for `kind`, or the message of the
/// configuration error when a required setting is missing.
pub open spec fn configured(kind: AIProviderType, config: ProviderConfig) -> Result<ProviderView, Seq<char>> {
    match kind {
        AIProviderType::DeepSeek => match config.setting("api_key"@) {
            None => Err(MISSING_API_KEY@),
            Some(key) => Ok(
                ProviderView {
                    kind: AIProviderType::DeepSeek,
                    api_key: Some(key),
                    base_url: DEEPSEEK_BASE_URL@,
                    model: model_choice(config.setting("model"@), DEEPSEEK_DEFAULT_MODEL@),
                    max_tokens: tokens_choice(tokens_setting(config.setting("max_tokens"@))),
                    temperature: temperature_choice(config.setting("temperature"@)),
                },
            ),
        },
        AIProviderType::Local => match config.setting("api_url"@) {
            None => Err(MISSING_API_URL@),
            Some(url) => Ok(
                ProviderView {
                    kind: AIProviderType::Local,
                    api_key: None,
                    base_url: url,
                    model: model_choice(config.setting("model"@), LOCAL_DEFAULT_MODEL@),
                    max_tokens: tokens_choice(tokens_setting(config.setting("max_tokens"@))),
                    temperature: temperature_choice(config.setting("temperature"@)),
                },
            ),
        },
    }
}

fn cloned_setting(config: &ProviderConfig, key: &str) -> (r: Option<String>)
    ensures
        opt_text(r) == config.setting(key@),
{
    match config.get(key) {
        Some(v) => Some(v.clone()),
        None => None,
    }
}

fn tokens_from(config: &ProviderConfig) -> (r: Option<u32>)
    ensures
        r == tokens_setting(config.setting("max_tokens"@)),
{
    match config.get("max_tokens") {
        Some(t) => parse_u32(t.as_str()),
        None => None,
    }
}

/// Builds providers from a tag and a flat map of settings.
pub struct AIServiceFactory;

impl AIServiceFactory {
    /// The provider that `config` describes: the hosted service needs
    /// `api_key`, the self-hosted one `api_url`; `model`, `max_tokens` and
    /// `temperature` are optional, and one that does not read as its type is
    /// ignored in favour of the default.
    pub fn create_provider(provider_type: AIProviderType, config: ProviderConfig) -> (r: Result<Provider, AIError>)
        ensures
            configured(provider_type, config) is Ok ==> (r is Ok && r->Ok_0@ == configured(
                provider_type,
                config,
            )->Ok_0),
            configured(provider_type, config) is Err ==> (r is Err && config_failure(r->Err_0)
                == Some(configured(provider_type, config)->Err_0)),
    {
        let model = cloned_setting(&config, "model");
        let max_tokens = tokens_from(&config);
        let temperature = cloned_setting(&config, "temperature");
        match provider_type {
            AIProviderType::DeepSeek => match cloned_setting(&config, "api_key") {
                None => Err(AIError::ConfigError(MISSING_API_KEY.to_string())),
                Some(api_key) => Ok(
                    Provider::DeepSeek(
                        DeepSeekProvider::with_config(api_key, model, max_tokens, temperature),
                    ),
                ),
            },
            AIProviderType::Local => match cloned_setting(&config, "api_url") {
                None => Err(AIError::ConfigError(MISSING_API_URL.to_string())),
                Some(api_url) => Ok(
                    Provider::Local(LocalAIProvider::with_config(api_url, model, max_tokens, temperature)),
                ),
            },
        }
    }
}

/// The status and message of a rejected request.
pub open spec fn api_failure(e: AIError) -> Option<(u16, Seq<char>)> {
    match e {
        AIError::ApiError { status, message } => Some((status, message@)),
        _ => None,
    }
}

/// Whether `e` reports a reply without message content.
pub open spec fn missing_content(e: AIError) -> bool {
    match e {
        AIError::InvalidResponse(m) => m@ == NO_CONTENT@,
        _ => false,
    }
}

/// The message of a configuration error.
pub open spec fn config_failure(e: AIError) -> Option<Seq<char>> {
    match e {
        AIError::ConfigError(m) => Some(m@),
        _ => None,
    }
}

/// What a chat-completion call yields, from the reply's status, its body and
/// what the body reads as in the shape of a chat-completion reply: the
/// message content of its first choice (`None` when there is no choice or the
/// content is null), or the message of the failure to read it. A status
/// outside 2xx is the service's refusal, with the body as its message.
pub fn reply_content(status: u16, body: String, decoded: Result<Option<String>, String>) -> (r: Result<String, AIError>)
    ensures
        !(200 <= status < 300) ==> (r is Err && api_failure(r->Err_0) == Some((status, body@))),
        200 <= status < 300 ==> match decoded {
            Ok(Some(t)) => r is Ok && r->Ok_0@ == t@,
            Ok(None) => r is Err && missing_content(r->Err_0),
            Err(m) => r is Err && r->Err_0 is JsonError && r->Err_0->JsonError_0@ == m@,
        },
{
    if status < 200 || status >= 300 {
        return Err(AIError::ApiError { status, message: body });
    }
    match decoded {
        Ok(Some(text)) => Ok(text),
        Ok(None) => Err(AIError::InvalidResponse(NO_CONTENT.to_string())),
        Err(message) => Err(AIError::JsonError(message)),
    }
}

/// Whether a probe succeeded: any failure of the call reads as `false`.
pub fn connection_status(outcome: &Result<String, AIError>) -> (r: bool)
    ensures
        r == outcome is Ok,
{
    outcome.is_ok()
}

/// A reply that does not read in the shape of an evaluation is settled by
/// the degraded evaluation: score 70, the raw reply as feedback, and exactly
/// one suggestion. It is never an error.
pub proof fn unexpected_shape_gives_degraded_evaluation(e: AIEvaluation, raw: Seq<char>, fallback: Seq<char>)
    requires
        settles(e, raw, None, fallback),
    ensures
        e.score == 70,
        e.feedback@ == raw,
        e.suggestions.len() == 1,
        e.suggestions[0]@ == fallback,
{
}

/// Whatever the reply, the evaluation's score lies in [0, 100].
pub proof fn settled_scores_are_bounded(e: AIEvaluation, raw: Seq<char>, parsed: Option<AIEvaluation>, fallback: Seq<char>)
    requires
        settles(e, raw, parsed, fallback),
    ensures
        e.well_formed(),
{
}

/// The hosted service cannot be configured without `api_key`, and is
/// configured whenever it is given.
pub proof fn hosted_provider_needs_api_key(config: ProviderConfig)
    ensures
        config.setting("api_key"@) is None ==> configured(AIProviderType::DeepSeek, config) == Err::<ProviderView, Seq<char>>(MISSING_API_KEY@),
        config.setting("api_key"@) is Some ==> configured(AIProviderType::DeepSeek, config) is Ok,
{
}

/// A self-hosted service cannot be configured without `api_url`, and is
/// configured whenever it is given.
pub proof fn self_hosted_provider_needs_api_url(config: ProviderConfig)
    ensures
        config.setting("api_url"@) is None ==> configured(AIProviderType::Local, config) == Err::<ProviderView, Seq<char>>(MISSING_API_URL@),
        config.setting("api_url"@) is Some ==> configured(AIProviderType::Local, config) is Ok,
{
}

/// The question request is a function of the provider and the context alone,
/// and two different contexts never give the same messages: each request can
/// be traced to its own context.
pub proof fn question_request_traces_its_context(kind: AIProviderType, c1: Seq<char>, c2: Seq<char>)
    ensures
        question_messages(kind, c1) == question_messages(kind, c2) <==> c1 == c2,
{
    if question_messages(kind, c1) == question_messages(kind, c2) {
        let intro = match kind {
            AIProviderType::DeepSeek => DEEPSEEK_QUESTION_INTRO@,
            AIProviderType::Local => LOCAL_QUESTION_INTRO@,
        };
        assert(question_messages(kind, c1)[1] == question_messages(kind, c2)[1]);
        assert((intro + c1).skip(intro.len() as int) == c1);
        assert((intro + c2).skip(intro.len() as int) == c2);
    }
}

} // verus!
