//! Settings of the summary and transcription providers, and the check of an
//! OpenAI-compatible endpoint.

use vstd::prelude::*;

use crate::args::{
    i32_arg, is_within_one, is_within_two, number_arg, opt_i32, opt_number, opt_str, req_str,
    solid_str, solid_text_arg, text_arg, with_text, within_one, within_two,
};
use crate::error::{bad_request_error, ApiError};
use crate::json::{text_or_null, whole, Json, JsonView, Number};
use crate::meetings::{success, success_reply};
use crate::protocol::{
    perform, performing, refuse, refused, replied, reply, Action, ActionOf, CustomOpenAi,
    CustomOpenAiOf, Pending, PendingOf, Step, StepView,
};
use crate::text::{
    blank, decimal, decimal_digits, is_blank, join2, join3, owned, same_text, starts_with, trim,
    trim_end_matches, trimmed, trimming_keeps_solid_beginnings, trimming_twice_is_trimming_once,
    without_trailing,
};
use vstd::string::*;

verus! {

// ---------------------------------------------------------------------------
// Model and transcription settings
// ---------------------------------------------------------------------------

/// The key that is stored with model settings: one that is not blank, unless the
/// provider keeps its key elsewhere.
pub open spec fn model_key(args: JsonView, provider: Seq<char>) -> Option<Seq<char>> {
    if provider == "custom-openai"@ {
        None
    } else {
        solid_text_arg(args, "apiKey"@)
    }
}

pub open spec fn save_model_config_step(args: JsonView) -> StepView {
    with_text(
        args,
        "provider"@,
        |provider: Seq<char>|
            with_text(
                args,
                "model"@,
                |model: Seq<char>|
                    with_text(
                        args,
                        "whisperModel"@,
                        |whisper_model: Seq<char>|
                            performing(
                                ActionOf::StoreModelConfig {
                                    provider,
                                    model,
                                    whisper_model,
                                    ollama_endpoint: text_arg(args, "ollamaEndpoint"@),
                                },
                                PendingOf::StoredModelConfig {
                                    provider,
                                    key: model_key(args, provider),
                                },
                            ),
                    ),
            ),
    )
}

pub fn save_model_config(args: &Json) -> (step: Step)
    ensures
        step@ == save_model_config_step(args@),
{
    let provider = match req_str(args, "provider") {
        Ok(s) => s,
        Err(e) => return refuse(e),
    };
    let model = match req_str(args, "model") {
        Ok(s) => s,
        Err(e) => return refuse(e),
    };
    let whisper_model = match req_str(args, "whisperModel") {
        Ok(s) => s,
        Err(e) => return refuse(e),
    };
    let key: Option<String> = if same_text(provider.as_str(), "custom-openai") {
        None
    } else {
        solid_str(args, "apiKey")
    };
    perform(
        Action::StoreModelConfig {
            provider: provider.clone(),
            model,
            whisper_model,
            ollama_endpoint: opt_str(args, "ollamaEndpoint"),
        },
        Pending::StoredModelConfig { provider, key },
    )
}

pub open spec fn save_transcript_config_step(args: JsonView) -> StepView {
    with_text(
        args,
        "provider"@,
        |provider: Seq<char>|
            with_text(
                args,
                "model"@,
                |model: Seq<char>|
                    performing(
                        ActionOf::StoreTranscriptConfig { provider, model },
                        PendingOf::StoredTranscriptConfig {
                            provider,
                            key: solid_text_arg(args, "apiKey"@),
                        },
                    ),
            ),
    )
}

pub fn save_transcript_config(args: &Json) -> (step: Step)
    ensures
        step@ == save_transcript_config_step(args@),
{
    let provider = match req_str(args, "provider") {
        Ok(s) => s,
        Err(e) => return refuse(e),
    };
    let model = match req_str(args, "model") {
        Ok(s) => s,
        Err(e) => return refuse(e),
    };
    let key = solid_str(args, "apiKey");
    perform(
        Action::StoreTranscriptConfig { provider: provider.clone(), model },
        Pending::StoredTranscriptConfig { provider, key },
    )
}

pub open spec fn get_api_key_step(args: JsonView) -> StepView {
    with_text(
        args,
        "provider"@,
        |provider: Seq<char>| performing(ActionOf::LoadApiKey { provider }, PendingOf::ApiKey),
    )
}

pub fn get_api_key(args: &Json) -> (step: Step)
    ensures
        step@ == get_api_key_step(args@),
{
    match req_str(args, "provider") {
        Ok(provider) => perform(Action::LoadApiKey { provider }, Pending::ApiKey),
        Err(e) => refuse(e),
    }
}

pub open spec fn get_transcript_api_key_step(args: JsonView) -> StepView {
    with_text(
        args,
        "provider"@,
        |provider: Seq<char>|
            performing(ActionOf::LoadTranscriptApiKey { provider }, PendingOf::ApiKey),
    )
}

pub fn get_transcript_api_key(args: &Json) -> (step: Step)
    ensures
        step@ == get_transcript_api_key_step(args@),
{
    match req_str(args, "provider") {
        Ok(provider) => perform(Action::LoadTranscriptApiKey { provider }, Pending::ApiKey),
        Err(e) => refuse(e),
    }
}

/// The provider that settings name, or nothing.
pub open spec fn provider_of(setting: JsonView) -> Seq<char> {
    match setting.pick("provider"@).as_str() {
        Some(provider) => provider,
        None => Seq::empty(),
    }
}

fn provider(setting: &Json) -> (out: String)
    ensures
        out@ == provider_of(setting@),
{
    match setting.pick("provider").as_str() {
        Some(provider) => provider,
        None => String::new(),
    }
}

/// With model settings at hand their API key is looked up; without any there is
/// nothing to show.
pub open spec fn model_config_found(setting: Option<JsonView>) -> StepView {
    match setting {
        Some(setting) => performing(
            ActionOf::LoadApiKey { provider: provider_of(setting) },
            PendingOf::ModelConfigKey { provider: provider_of(setting), setting },
        ),
        None => replied(JsonView::Null),
    }
}

pub fn on_model_config(setting: Option<Json>) -> (step: Step)
    ensures
        step@ == model_config_found(setting.deep_view()),
{
    match setting {
        Some(setting) => {
            let provider = provider(&setting);
            perform(
                Action::LoadApiKey { provider: provider.clone() },
                Pending::ModelConfigKey { provider, setting },
            )
        },
        None => reply(Json::Null),
    }
}

/// The model settings as the browser is shown them. An endpoint of the
/// configuration goes before the stored one.
pub open spec fn model_config(
    provider: Seq<char>,
    setting: JsonView,
    key: Option<Seq<char>>,
    endpoint: Option<Seq<char>>,
) -> JsonView {
    JsonView::object().with("provider"@, JsonView::Text(provider)).with(
        "model"@,
        setting.pick("model"@),
    ).with("whisperModel"@, setting.pick("whisperModel"@)).with("apiKey"@, text_or_null(key)).with(
        "ollamaEndpoint"@,
        match endpoint {
            Some(e) => JsonView::Text(e),
            None => setting.pick("ollamaEndpoint"@),
        },
    )
}

pub fn show_model_config(
    provider: String,
    setting: &Json,
    key: Option<String>,
    endpoint: Option<String>,
) -> (out: Json)
    ensures
        out@ == model_config(provider@, setting@, key.deep_view(), endpoint.deep_view()),
{
    let endpoint = match endpoint {
        Some(e) => Json::Text(e),
        None => setting.pick("ollamaEndpoint"),
    };
    Json::object().with("provider", Json::Text(provider)).with(
        "model",
        setting.pick("model"),
    ).with("whisperModel", setting.pick("whisperModel")).with("apiKey", Json::optional(key)).with(
        "ollamaEndpoint",
        endpoint,
    )
}

/// The transcription settings as the browser is shown them.
pub open spec fn transcript_config(
    provider: Seq<char>,
    model: JsonView,
    key: Option<Seq<char>>,
) -> JsonView {
    JsonView::object().with("provider"@, JsonView::Text(provider)).with("model"@, model).with(
        "apiKey"@,
        text_or_null(key),
    )
}

pub fn show_transcript_config(provider: &str, model: Json, key: Option<String>) -> (out: Json)
    ensures
        out@ == transcript_config(provider@, model@, key.deep_view()),
{
    Json::object().with("provider", Json::text(provider)).with("model", model).with(
        "apiKey",
        Json::optional(key),
    )
}

/// With transcription settings at hand their API key is looked up; without any
/// it is Parakeet with its default model.
pub open spec fn transcript_config_found(
    setting: Option<JsonView>,
    default_model: Seq<char>,
) -> StepView {
    match setting {
        Some(setting) => performing(
            ActionOf::LoadTranscriptApiKey { provider: provider_of(setting) },
            PendingOf::TranscriptConfigKey { provider: provider_of(setting), setting },
        ),
        None => replied(transcript_config("parakeet"@, JsonView::Text(default_model), None)),
    }
}

pub fn on_transcript_config(setting: Option<Json>, default_model: String) -> (step: Step)
    ensures
        step@ == transcript_config_found(setting.deep_view(), default_model@),
{
    match setting {
        Some(setting) => {
            let provider = provider(&setting);
            perform(
                Action::LoadTranscriptApiKey { provider: provider.clone() },
                Pending::TranscriptConfigKey { provider, setting },
            )
        },
        None => reply(show_transcript_config("parakeet", Json::Text(default_model), None)),
    }
}

// ---------------------------------------------------------------------------
// An OpenAI-compatible endpoint
// ---------------------------------------------------------------------------

/// Whether an endpoint is an HTTP address.
pub open spec fn http_address(endpoint: Seq<char>) -> bool {
    "http://"@.is_prefix_of(endpoint) || "https://"@.is_prefix_of(endpoint)
}

fn is_http_address(endpoint: &str) -> (r: bool)
    ensures
        r == http_address(endpoint@),
{
    starts_with(endpoint, "http://") || starts_with(endpoint, "https://")
}

/// What is wrong with the settings of an endpoint, if anything is.
pub open spec fn custom_openai_fault(
    endpoint: Seq<char>,
    model: Seq<char>,
    temperature: Option<Number>,
    top_p: Option<Number>,
    max_tokens: Option<i32>,
) -> Option<Seq<char>> {
    if blank(endpoint) {
        Some("Endpoint URL is required"@)
    } else if blank(model) {
        Some("Model name is required"@)
    } else if !http_address(endpoint) {
        Some("Endpoint must start with http:// or https://"@)
    } else if temperature is Some && !within_two(temperature->0) {
        Some("Temperature must be between 0.0 and 2.0"@)
    } else if top_p is Some && !within_one(top_p->0) {
        Some("Top P must be between 0.0 and 1.0"@)
    } else if max_tokens is Some && max_tokens->0 < 1 {
        Some("Max tokens must be at least 1"@)
    } else {
        None
    }
}

fn find_fault(
    endpoint: &str,
    model: &str,
    temperature: Option<Number>,
    top_p: Option<Number>,
    max_tokens: Option<i32>,
) -> (fault: Option<String>)
    ensures
        fault.deep_view() == custom_openai_fault(
            endpoint@,
            model@,
            temperature,
            top_p,
            max_tokens,
        ),
{
    if is_blank(endpoint) {
        return Some(owned("Endpoint URL is required"));
    }
    if is_blank(model) {
        return Some(owned("Model name is required"));
    }
    if !is_http_address(endpoint) {
        return Some(owned("Endpoint must start with http:// or https://"));
    }
    if let Some(t) = temperature {
        if !is_within_two(t) {
            return Some(owned("Temperature must be between 0.0 and 2.0"));
        }
    }
    if let Some(p) = top_p {
        if !is_within_one(p) {
            return Some(owned("Top P must be between 0.0 and 1.0"));
        }
    }
    if let Some(m) = max_tokens {
        if m < 1 {
            return Some(owned("Max tokens must be at least 1"));
        }
    }
    None
}

pub open spec fn save_custom_openai_step(args: JsonView) -> StepView {
    with_text(
        args,
        "endpoint"@,
        |endpoint: Seq<char>|
            with_text(
                args,
                "model"@,
                |model: Seq<char>|
                    {
                        let temperature = number_arg(args, "temperature"@);
                        let top_p = number_arg(args, "topP"@);
                        let max_tokens = i32_arg(args, "maxTokens"@);
                        match custom_openai_fault(
                            endpoint,
                            model,
                            temperature,
                            top_p,
                            max_tokens,
                        ) {
                            Some(fault) => refused(bad_request_error(fault)),
                            None => performing(
                                ActionOf::StoreCustomOpenAi {
                                    config: CustomOpenAiOf {
                                        endpoint: trimmed(endpoint),
                                        api_key: solid_text_arg(args, "apiKey"@),
                                        model: trimmed(model),
                                        max_tokens,
                                        temperature,
                                        top_p,
                                    },
                                },
                                PendingOf::StoredCustomOpenAi,
                            ),
                        }
                    },
            ),
    )
}

pub fn save_custom_openai(args: &Json) -> (step: Step)
    ensures
        step@ == save_custom_openai_step(args@),
{
    let endpoint = match req_str(args, "endpoint") {
        Ok(s) => s,
        Err(e) => return refuse(e),
    };
    let model = match req_str(args, "model") {
        Ok(s) => s,
        Err(e) => return refuse(e),
    };
    let temperature: Option<Number> = opt_number(args, "temperature");
    let top_p: Option<Number> = opt_number(args, "topP");
    let max_tokens: Option<i32> = opt_i32(args, "maxTokens");
    match find_fault(endpoint.as_str(), model.as_str(), temperature, top_p, max_tokens) {
        Some(fault) => refuse(ApiError::bad_request(fault)),
        None => perform(
            Action::StoreCustomOpenAi {
                config: CustomOpenAi {
                    endpoint: trim(endpoint.as_str()),
                    api_key: solid_str(args, "apiKey"),
                    model: trim(model.as_str()),
                    max_tokens,
                    temperature,
                    top_p,
                },
            },
            Pending::StoredCustomOpenAi,
        ),
    }
}

/// Whether the settings of an endpoint can be used: there is a model and an HTTP address,
/// and the numbers lie in their ranges.
pub open spec fn usable_endpoint(config: CustomOpenAiOf<Seq<char>>) -> bool {
    &&& http_address(config.endpoint)
    &&& !blank(config.model)
    &&& config.temperature matches Some(t) ==> within_two(t)
    &&& config.top_p matches Some(p) ==> within_one(p)
    &&& config.max_tokens matches Some(m) ==> m >= 1
    &&& config.api_key matches Some(key) ==> !blank(key)
}

/// Only settings that can be used are ever stored, and their texts are stored without
/// white space around them.
pub proof fn stored_endpoints_are_usable(args: JsonView)
    ensures
        save_custom_openai_step(args) matches StepView::Perform {
            action: ActionOf::StoreCustomOpenAi { config },
            ..
        } ==> usable_endpoint(config) && config.endpoint == trimmed(config.endpoint)
            && config.model == trimmed(config.model),
{
    reveal_strlit("http://");
    reveal_strlit("https://");
    if let Some(endpoint) = text_arg(args, "endpoint"@) {
        trimming_twice_is_trimming_once(endpoint);
        if "http://"@.is_prefix_of(endpoint) {
            trimming_keeps_solid_beginnings(endpoint, "http://"@);
        }
        if "https://"@.is_prefix_of(endpoint) {
            trimming_keeps_solid_beginnings(endpoint, "https://"@);
        }
    }
    if let Some(model) = text_arg(args, "model"@) {
        trimming_twice_is_trimming_once(model);
    }
}

/// The address that chats are posted to.
pub open spec fn chat_url(endpoint: Seq<char>) -> Seq<char> {
    without_trailing(endpoint, '/') + "/chat/completions"@
}

/// The shortest chat there is.
pub open spec fn probe(model: Seq<char>) -> JsonView {
    JsonView::object().with("model"@, JsonView::Text(model)).with(
        "messages"@,
        JsonView::Array(
            seq![
                JsonView::object().with("role"@, JsonView::Text("user"@)).with(
                    "content"@,
                    JsonView::Text("Hi"@),
                ),
            ],
        ),
    ).with("max_tokens"@, whole(5))
}

fn probe_body(model: String) -> (out: Json)
    ensures
        out@ == probe(model@),
{
    let mut messages: Vec<Json> = Vec::new();
    messages.push(
        Json::object().with("role", Json::text("user")).with("content", Json::text("Hi")),
    );
    let list = Json::array(messages);
    assert(list@->Array_0 =~= seq![
        JsonView::object().with("role"@, JsonView::Text("user"@)).with(
            "content"@,
            JsonView::Text("Hi"@),
        ),
    ]);
    Json::object().with("model", Json::Text(model)).with("messages", list).with(
        "max_tokens",
        Json::count(5),
    )
}

pub open spec fn test_custom_openai_step(args: JsonView) -> StepView {
    with_text(
        args,
        "endpoint"@,
        |endpoint: Seq<char>|
            with_text(
                args,
                "model"@,
                |model: Seq<char>|
                    if http_address(endpoint) {
                        performing(
                            ActionOf::PostChat {
                                url: chat_url(endpoint),
                                body: probe(model),
                                bearer: solid_text_arg(args, "apiKey"@),
                            },
                            PendingOf::ChatPosted,
                        )
                    } else {
                        refused(
                            bad_request_error("Endpoint must start with http:// or https://"@),
                        )
                    },
            ),
    )
}

pub fn test_custom_openai(args: &Json) -> (step: Step)
    ensures
        step@ == test_custom_openai_step(args@),
{
    let endpoint = match req_str(args, "endpoint") {
        Ok(s) => s,
        Err(e) => return refuse(e),
    };
    let model = match req_str(args, "model") {
        Ok(s) => s,
        Err(e) => return refuse(e),
    };
    if !is_http_address(endpoint.as_str()) {
        return refuse(
            ApiError::bad_request(owned("Endpoint must start with http:// or https://")),
        );
    }
    let base = trim_end_matches(endpoint.as_str(), '/');
    perform(
        Action::PostChat {
            url: join2(base.as_str(), "/chat/completions"),
            body: probe_body(model),
            bearer: solid_str(args, "apiKey"),
        },
        Pending::ChatPosted,
    )
}

/// An answer to the probe: a success is parsed, anything else is a failure.
pub open spec fn chat_answered(status: u16, body: Seq<char>) -> StepView {
    if 200 <= status < 300 {
        performing(ActionOf::ParseJson { text: body }, PendingOf::ChatParsed { status, body })
    } else {
        refused(
            bad_request_error(
                "Connection failed with status "@ + decimal_digits(status as nat) + ": "@ + body,
            ),
        )
    }
}

pub fn on_chat_answer(status: u16, body: String) -> (step: Step)
    ensures
        step@ == chat_answered(status, body@),
{
    if 200 <= status && status < 300 {
        perform(Action::ParseJson { text: body.clone() }, Pending::ChatParsed { status, body })
    } else {
        let code = decimal(status as u128);
        let mut message = join3("Connection failed with status ", code.as_str(), ": ");
        message.append(body.as_str());
        refuse(ApiError::bad_request(message))
    }
}

/// Whether an answer has the shape of an OpenAI answer: the first of its choices
/// has a message with content, or with the content of its reasoning.
pub open spec fn usable_chat(answer: JsonView) -> bool {
    match answer.pick("choices"@).item(0) {
        Some(choice) => match choice.get("message"@) {
            Some(message) => message.get("content"@) is Some || message.get(
                "reasoning_content"@,
            ) is Some,
            None => false,
        },
        None => false,
    }
}

fn is_usable_chat(answer: &Json) -> (r: bool)
    ensures
        r == usable_chat(answer@),
{
    match answer.pick("choices").item(0) {
        Some(choice) => match choice.get("message") {
            Some(message) => message.get("content").is_some() || message.get(
                "reasoning_content",
            ).is_some(),
            None => false,
        },
        None => false,
    }
}

/// What is said of an answer to the probe that is JSON.
pub open spec fn chat_checked(status: u16, answer: JsonView) -> StepView {
    if usable_chat(answer) {
        replied(
            success("Connection successful and response validated"@).with(
                "http_status"@,
                whole(status as int),
            ),
        )
    } else {
        refused(
            bad_request_error(
                "Endpoint is reachable but doesn't appear to be OpenAI-compatible. Response is missing 'choices' array or 'message.content' / 'message.reasoning_content' field."@,
            ),
        )
    }
}

pub fn check_chat(status: u16, answer: &Json) -> (step: Step)
    ensures
        step@ == chat_checked(status, answer@),
{
    if is_usable_chat(answer) {
        reply(
            success_reply("Connection successful and response validated").with(
                "http_status",
                Json::count(status as u64),
            ),
        )
    } else {
        refuse(
            ApiError::bad_request(
                owned(
                    "Endpoint is reachable but doesn't appear to be OpenAI-compatible. Response is missing 'choices' array or 'message.content' / 'message.reasoning_content' field.",
                ),
            ),
        )
    }
}

/// What is said of an answer to the probe that is not JSON.
pub open spec fn chat_garbled(error: Seq<char>, body: Seq<char>) -> StepView {
    refused(
        bad_request_error(
            "Endpoint is reachable but returned invalid JSON: "@ + error + ". Response: "@ + body,
        ),
    )
}

pub fn refuse_garbled(error: &str, body: &str) -> (step: Step)
    ensures
        step@ == chat_garbled(error@, body@),
{
    let mut message = join3(
        "Endpoint is reachable but returned invalid JSON: ",
        error,
        ". Response: ",
    );
    message.append(body);
    refuse(ApiError::bad_request(message))
}

} // verus!
