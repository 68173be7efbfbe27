//! The background job that makes a summary.
//!
//! Like a command, the job is a conversation: [`SummaryJobOf::run`] gives its first
//! step, and [`SummaryJobOf::resume`] the next one each time an action has been
//! performed. Whatever goes wrong while the summary is made is written down as the
//! reason why its process failed; a process that was cancelled in the meantime is
//! left alone.

use vstd::prelude::*;

use crate::json::{fields_are_found_again, Json, JsonView};
use crate::protocol::{summary_job_view, SummaryJobOf};
use crate::state::{ServerState, ServerView};
use crate::text::{lower_case, owned, same_text, to_lower_case};

verus! {

/// What a language model provider is, as far as the job tells them apart.
#[derive(Debug, Clone, Copy, PartialEq, Eq, Structural)]
pub enum ProviderKind {
    Ollama,
    BuiltInAi,
    CustomOpenAi,
    /// A provider in the cloud.
    Cloud,
}

/// What a summary is generated from.
pub struct SummaryRequestOf<S> {
    pub provider: ProviderKind,
    pub provider_id: S,
    pub model_name: S,
    pub api_key: S,
    pub text: S,
    pub custom_prompt: S,
    pub template_id: S,
    /// How many tokens fit into one request.
    pub token_threshold: u32,
    pub ollama_endpoint: Option<S>,
    pub custom_endpoint: Option<S>,
    pub summary_language: Option<S>,
}

pub type SummaryRequest = SummaryRequestOf<String>;

pub open spec fn request_view(r: SummaryRequest) -> SummaryRequestOf<Seq<char>> {
    SummaryRequestOf {
        provider: r.provider,
        provider_id: r.provider_id@,
        model_name: r.model_name@,
        api_key: r.api_key@,
        text: r.text@,
        custom_prompt: r.custom_prompt@,
        template_id: r.template_id@,
        token_threshold: r.token_threshold,
        ollama_endpoint: r.ollama_endpoint.deep_view(),
        custom_endpoint: r.custom_endpoint.deep_view(),
        summary_language: r.summary_language.deep_view(),
    }
}

/// What the job asks of the world outside. `S` stands for texts and `J` for JSON
/// values.
pub enum JobActionOf<S, J> {
    /// What provider the id names.
    ParseProvider { id: S },
    /// The API key of a provider.
    LoadApiKey { provider: S },
    /// The stored model settings.
    LoadModelConfig,
    /// The endpoint and the key of an OpenAI-compatible server.
    LoadCustomOpenAi,
    /// Find a template and hold it ready.
    LoadTemplate { id: S },
    /// Generate the summary, with the template that was held ready.
    Generate { request: SummaryRequestOf<S> },
    /// The summary process of a meeting.
    LoadProcess { id: S },
    /// The name that a summary gives its meeting.
    ExtractName { markdown: S },
    /// Give a meeting a name.
    NameMeeting { id: S, name: S },
    /// Mark a process as completed, with its result.
    CompleteProcess { id: S, result: J, chunk_count: i64 },
    /// Mark a process as failed, with the reason.
    FailProcess { id: S, error: S },
}

pub type JobAction = JobActionOf<String, Json>;

pub type JobActionView = JobActionOf<Seq<char>, JsonView>;

/// What an action of the job holds.
pub open spec fn job_action_view(action: JobAction) -> JobActionView {
    match action {
        JobActionOf::ParseProvider { id } => JobActionOf::ParseProvider { id: id@ },
        JobActionOf::LoadApiKey { provider } => JobActionOf::LoadApiKey { provider: provider@ },
        JobActionOf::LoadModelConfig => JobActionOf::LoadModelConfig,
        JobActionOf::LoadCustomOpenAi => JobActionOf::LoadCustomOpenAi,
        JobActionOf::LoadTemplate { id } => JobActionOf::LoadTemplate { id: id@ },
        JobActionOf::Generate { request } => JobActionOf::Generate {
            request: request_view(request),
        },
        JobActionOf::LoadProcess { id } => JobActionOf::LoadProcess { id: id@ },
        JobActionOf::ExtractName { markdown } => JobActionOf::ExtractName { markdown: markdown@ },
        JobActionOf::NameMeeting { id, name } => JobActionOf::NameMeeting { id: id@, name: name@ },
        JobActionOf::CompleteProcess { id, result, chunk_count } => JobActionOf::CompleteProcess {
            id: id@,
            result: result@,
            chunk_count,
        },
        JobActionOf::FailProcess { id, error } => JobActionOf::FailProcess {
            id: id@,
            error: error@,
        },
    }
}

/// What the job is waiting for, with what it has found out so far.
pub enum JobPhaseOf<S> {
    Provider,
    Key { kind: ProviderKind },
    Setting { kind: ProviderKind, api_key: S },
    Custom { kind: ProviderKind, api_key: S, ollama_endpoint: Option<S> },
    Template { request: SummaryRequestOf<S> },
    Summary,
    Cancellation { markdown: S, chunk_count: i64 },
    Name { markdown: S, chunk_count: i64 },
    Named { markdown: S, chunk_count: i64 },
    Completed,
    Failed,
}

pub type JobPhase = JobPhaseOf<String>;

pub type JobPhaseView = JobPhaseOf<Seq<char>>;

/// What a phase of the job holds.
pub open spec fn job_phase_view(phase: JobPhase) -> JobPhaseView {
    match phase {
        JobPhaseOf::Provider => JobPhaseOf::Provider,
        JobPhaseOf::Key { kind } => JobPhaseOf::Key { kind },
        JobPhaseOf::Setting { kind, api_key } => JobPhaseOf::Setting { kind, api_key: api_key@ },
        JobPhaseOf::Custom { kind, api_key, ollama_endpoint } => JobPhaseOf::Custom {
            kind,
            api_key: api_key@,
            ollama_endpoint: ollama_endpoint.deep_view(),
        },
        JobPhaseOf::Template { request } => JobPhaseOf::Template { request: request_view(request) },
        JobPhaseOf::Summary => JobPhaseOf::Summary,
        JobPhaseOf::Cancellation { markdown, chunk_count } => JobPhaseOf::Cancellation {
            markdown: markdown@,
            chunk_count,
        },
        JobPhaseOf::Name { markdown, chunk_count } => JobPhaseOf::Name {
            markdown: markdown@,
            chunk_count,
        },
        JobPhaseOf::Named { markdown, chunk_count } => JobPhaseOf::Named {
            markdown: markdown@,
            chunk_count,
        },
        JobPhaseOf::Completed => JobPhaseOf::Completed,
        JobPhaseOf::Failed => JobPhaseOf::Failed,
    }
}

/// The endpoint of an OpenAI-compatible server, and its key.
pub struct CustomServerOf<S> {
    pub endpoint: S,
    pub api_key: Option<S>,
}

pub type CustomServer = CustomServerOf<String>;

pub open spec fn custom_server_view(c: CustomServer) -> CustomServerOf<Seq<char>> {
    CustomServerOf { endpoint: c.endpoint@, api_key: c.api_key.deep_view() }
}

/// What came of an action of the job. `S` stands for texts and `J` for JSON values.
#[allow(inconsistent_fields)]
pub enum JobOutcomeOf<S, J> {
    /// It was done.
    Done,
    /// It could not be done, for a reason.
    Failed { error: S },
    Provider { kind: ProviderKind },
    MaybeText { value: Option<S> },
    MaybeValue { value: Option<J> },
    MaybeCustom { config: Option<CustomServerOf<S>> },
    Summary { markdown: S, chunk_count: i64 },
}

pub type JobOutcome = JobOutcomeOf<String, Json>;

pub type JobOutcomeView = JobOutcomeOf<Seq<char>, JsonView>;

/// What an outcome holds.
pub open spec fn job_outcome_view(outcome: JobOutcome) -> JobOutcomeView {
    match outcome {
        JobOutcomeOf::Done => JobOutcomeOf::Done,
        JobOutcomeOf::Failed { error } => JobOutcomeOf::Failed { error: error@ },
        JobOutcomeOf::Provider { kind } => JobOutcomeOf::Provider { kind },
        JobOutcomeOf::MaybeText { value } => JobOutcomeOf::MaybeText { value: value.deep_view() },
        JobOutcomeOf::MaybeValue { value } => JobOutcomeOf::MaybeValue { value: value.deep_view() },
        JobOutcomeOf::MaybeCustom { config } => JobOutcomeOf::MaybeCustom {
            config: match config {
                Some(c) => Some(custom_server_view(c)),
                None => None,
            },
        },
        JobOutcomeOf::Summary { markdown, chunk_count } => JobOutcomeOf::Summary {
            markdown: markdown@,
            chunk_count,
        },
    }
}

/// Where the job stands: it asks for an action, or it is over.
pub enum JobStepOf<A, P> {
    Perform { action: A, phase: P },
    Over,
}

pub type JobStep = JobStepOf<JobAction, JobPhase>;

pub type JobStepView = JobStepOf<JobActionView, JobPhaseView>;

/// What a step of the job holds.
pub open spec fn job_step_view(step: JobStep) -> JobStepView {
    match step {
        JobStepOf::Perform { action, phase } => JobStepOf::Perform {
            action: job_action_view(action),
            phase: job_phase_view(phase),
        },
        JobStepOf::Over => JobStepOf::Over,
    }
}

// ---------------------------------------------------------------------------
// What the job does
// ---------------------------------------------------------------------------

/// The job begins by asking what its provider is.
pub open spec fn job_begun(job: SummaryJobOf<Seq<char>>) -> JobStepView {
    JobStepOf::Perform {
        action: JobActionOf::ParseProvider { id: job.provider_id },
        phase: JobPhaseOf::Provider,
    }
}

/// A failure is written down as the reason why the process failed.
pub open spec fn job_failed(job: SummaryJobOf<Seq<char>>, error: Seq<char>) -> JobStepView {
    JobStepOf::Perform {
        action: JobActionOf::FailProcess { id: job.meeting_id, error },
        phase: JobPhaseOf::Failed,
    }
}

/// A provider in the cloud needs a key; the others do without one, and the
/// bundled one is not there at all.
pub open spec fn provider_known(job: SummaryJobOf<Seq<char>>, kind: ProviderKind) -> JobStepView {
    match kind {
        ProviderKind::BuiltInAi => job_failed(
            job,
            "The bundled local model is not available in the self-hosted server. Pick Ollama or a cloud provider in Settings."@,
        ),
        ProviderKind::Cloud => JobStepOf::Perform {
            action: JobActionOf::LoadApiKey { provider: job.provider_id },
            phase: JobPhaseOf::Key { kind },
        },
        _ => key_known(kind, Seq::empty()),
    }
}

/// With the key at hand, the settings are next.
pub open spec fn key_known(kind: ProviderKind, api_key: Seq<char>) -> JobStepView {
    JobStepOf::Perform {
        action: JobActionOf::LoadModelConfig,
        phase: JobPhaseOf::Setting { kind, api_key },
    }
}

/// The Ollama endpoint: the configured one, or the one in the settings.
pub open spec fn job_endpoint(server: ServerView, setting: Option<JsonView>) -> Option<Seq<char>> {
    match server.ollama_endpoint {
        Some(e) => Some(e),
        None => match setting {
            Some(s) => s.pick("ollamaEndpoint"@).as_str(),
            None => None,
        },
    }
}

/// How many tokens fit into one request to a provider.
pub open spec fn token_threshold(kind: ProviderKind) -> u32 {
    match kind {
        ProviderKind::Ollama | ProviderKind::CustomOpenAi => 24_000,
        _ => 100_000,
    }
}

/// The request for a summary. An OpenAI-compatible server brings its own key.
pub open spec fn summary_request(
    job: SummaryJobOf<Seq<char>>,
    kind: ProviderKind,
    api_key: Seq<char>,
    ollama_endpoint: Option<Seq<char>>,
    custom: Option<CustomServerOf<Seq<char>>>,
) -> SummaryRequestOf<Seq<char>> {
    SummaryRequestOf {
        provider: kind,
        provider_id: job.provider_id,
        model_name: job.model_name,
        api_key: match custom {
            Some(CustomServerOf { api_key: Some(key), .. }) if kind
                == ProviderKind::CustomOpenAi => key,
            _ => api_key,
        },
        text: job.text,
        custom_prompt: job.custom_prompt,
        template_id: job.template_id,
        token_threshold: token_threshold(kind),
        ollama_endpoint,
        custom_endpoint: match custom {
            Some(c) => Some(c.endpoint),
            None => None,
        },
        summary_language: job.summary_language,
    }
}

/// Whether a process was cancelled.
pub open spec fn cancelled(process: Option<JsonView>) -> bool {
    match process {
        Some(p) => match p.pick("status"@).as_str() {
            Some(status) => lower_case(status) == "cancelled"@,
            None => false,
        },
        None => false,
    }
}

/// The summary is stored as the result of the process.
pub open spec fn storing(
    job: SummaryJobOf<Seq<char>>,
    markdown: Seq<char>,
    chunk_count: i64,
) -> JobStepView {
    JobStepOf::Perform {
        action: JobActionOf::CompleteProcess {
            id: job.meeting_id,
            result: JsonView::object().with("markdown"@, JsonView::Text(markdown)),
            chunk_count,
        },
        phase: JobPhaseOf::Completed,
    }
}

/// A summary that is not to be discarded is asked for the meeting's name.
pub open spec fn naming(markdown: Seq<char>, chunk_count: i64) -> JobStepView {
    JobStepOf::Perform {
        action: JobActionOf::ExtractName { markdown },
        phase: JobPhaseOf::Name { markdown, chunk_count },
    }
}

/// The outcomes that the job can get.
pub open spec fn job_fits(phase: JobPhaseView, outcome: JobOutcomeView) -> bool {
    match phase {
        JobPhaseOf::Provider => outcome is Provider || outcome is Failed,
        JobPhaseOf::Key { .. } => outcome is MaybeText || outcome is Failed,
        JobPhaseOf::Setting { .. } => outcome is MaybeValue || outcome is Failed,
        JobPhaseOf::Custom { .. } => outcome is MaybeCustom || outcome is Failed,
        JobPhaseOf::Template { .. } => outcome is Done || outcome is Failed,
        JobPhaseOf::Summary => outcome is Summary || outcome is Failed,
        JobPhaseOf::Cancellation { .. } => outcome is MaybeValue || outcome is Failed,
        JobPhaseOf::Name { .. } => outcome is MaybeText,
        JobPhaseOf::Named { .. } => outcome is Done || outcome is Failed,
        JobPhaseOf::Completed => outcome is Done || outcome is Failed,
        JobPhaseOf::Failed => outcome is Done || outcome is Failed,
    }
}

/// What the job does with an outcome.
pub open spec fn job_resumed(
    server: ServerView,
    job: SummaryJobOf<Seq<char>>,
    phase: JobPhaseView,
    outcome: JobOutcomeView,
) -> JobStepView {
    match (phase, outcome) {
        (JobPhaseOf::Provider, JobOutcomeOf::Provider { kind }) => provider_known(job, kind),
        (JobPhaseOf::Key { kind }, JobOutcomeOf::MaybeText { value }) => key_known(
            kind,
            match value {
                Some(key) => key,
                None => Seq::empty(),
            },
        ),
        (JobPhaseOf::Setting { kind, api_key }, JobOutcomeOf::MaybeValue { value }) =>
            JobStepOf::Perform {
            action: JobActionOf::LoadCustomOpenAi,
            phase: JobPhaseOf::Custom {
                kind,
                api_key,
                ollama_endpoint: job_endpoint(server, value),
            },
        },
        (
            JobPhaseOf::Custom { kind, api_key, ollama_endpoint },
            JobOutcomeOf::MaybeCustom { config },
        ) => JobStepOf::Perform {
            action: JobActionOf::LoadTemplate { id: job.template_id },
            phase: JobPhaseOf::Template {
                request: summary_request(job, kind, api_key, ollama_endpoint, config),
            },
        },
        (JobPhaseOf::Template { request }, JobOutcomeOf::Done) => JobStepOf::Perform {
            action: JobActionOf::Generate { request },
            phase: JobPhaseOf::Summary,
        },
        (JobPhaseOf::Summary, JobOutcomeOf::Summary { markdown, chunk_count }) =>
            JobStepOf::Perform {
            action: JobActionOf::LoadProcess { id: job.meeting_id },
            phase: JobPhaseOf::Cancellation { markdown, chunk_count },
        },
        (
            JobPhaseOf::Cancellation { markdown, chunk_count },
            JobOutcomeOf::MaybeValue { value },
        ) => if cancelled(value) {
            JobStepOf::Over
        } else {
            naming(markdown, chunk_count)
        },
        (JobPhaseOf::Cancellation { markdown, chunk_count }, JobOutcomeOf::Failed { error }) =>
            naming(markdown, chunk_count),
        (JobPhaseOf::Name { markdown, chunk_count }, JobOutcomeOf::MaybeText { value }) =>
            match value {
            Some(name) => JobStepOf::Perform {
                action: JobActionOf::NameMeeting { id: job.meeting_id, name },
                phase: JobPhaseOf::Named { markdown, chunk_count },
            },
            None => storing(job, markdown, chunk_count),
        },
        (JobPhaseOf::Named { markdown, chunk_count }, _) => storing(job, markdown, chunk_count),
        (JobPhaseOf::Completed, _) => JobStepOf::Over,
        (JobPhaseOf::Failed, _) => JobStepOf::Over,
        (_, JobOutcomeOf::Failed { error }) => job_failed(job, error),
        _ => arbitrary(),
    }
}

/// Whether the job can get this outcome.
pub fn job_accepts(phase: &JobPhase, outcome: &JobOutcome) -> (r: bool)
    ensures
        r == job_fits(job_phase_view(*phase), job_outcome_view(*outcome)),
{
    match (phase, outcome) {
        (JobPhaseOf::Provider, JobOutcomeOf::Provider { .. }) => true,
        (JobPhaseOf::Key { .. }, JobOutcomeOf::MaybeText { .. }) => true,
        (JobPhaseOf::Setting { .. }, JobOutcomeOf::MaybeValue { .. }) => true,
        (JobPhaseOf::Custom { .. }, JobOutcomeOf::MaybeCustom { .. }) => true,
        (JobPhaseOf::Template { .. }, JobOutcomeOf::Done) => true,
        (JobPhaseOf::Summary, JobOutcomeOf::Summary { .. }) => true,
        (JobPhaseOf::Cancellation { .. }, JobOutcomeOf::MaybeValue { .. }) => true,
        (JobPhaseOf::Name { .. }, JobOutcomeOf::MaybeText { .. }) => true,
        (JobPhaseOf::Name { .. }, _) => false,
        (JobPhaseOf::Named { .. }, JobOutcomeOf::Done) => true,
        (JobPhaseOf::Completed, JobOutcomeOf::Done) => true,
        (JobPhaseOf::Failed, JobOutcomeOf::Done) => true,
        (_, JobOutcomeOf::Failed { .. }) => true,
        _ => false,
    }
}

fn ask_key(kind: ProviderKind, api_key: String) -> (step: JobStep)
    ensures
        job_step_view(step) == key_known(kind, api_key@),
{
    JobStep::Perform {
        action: JobAction::LoadModelConfig,
        phase: JobPhase::Setting { kind, api_key },
    }
}

fn ask_name(markdown: String, chunk_count: i64) -> (step: JobStep)
    ensures
        job_step_view(step) == naming(markdown@, chunk_count),
{
    JobStep::Perform {
        action: JobAction::ExtractName { markdown: markdown.clone() },
        phase: JobPhase::Name { markdown, chunk_count },
    }
}

fn find_job_endpoint(state: &ServerState, setting: Option<Json>) -> (endpoint: Option<String>)
    ensures
        endpoint.deep_view() == job_endpoint(state@, setting.deep_view()),
{
    match state.ollama_endpoint() {
        Some(e) => Some(e),
        None => match setting {
            Some(s) => s.pick("ollamaEndpoint").as_str(),
            None => None,
        },
    }
}

/// Whether a status, in lower case, is that of a process that was cancelled.
pub fn means_cancelled(status: &str) -> (r: bool)
    ensures
        r == (status@ == "cancelled"@),
{
    same_text(status, "cancelled")
}

/// Whether a process was cancelled: the user may have done so while the summary
/// was still in the making.
fn was_cancelled(process: &Option<Json>) -> (r: bool)
    ensures
        r == cancelled(process.deep_view()),
{
    match process {
        Some(p) => match p.pick("status").as_str() {
            Some(status) => {
                let lower = to_lower_case(status.as_str());
                means_cancelled(lower.as_str())
            },
            None => false,
        },
        None => false,
    }
}

impl SummaryJobOf<String> {
    /// Begins the job.
    pub fn run(&self) -> (step: JobStep)
        ensures
            job_step_view(step) == job_begun(summary_job_view(*self)),
    {
        JobStep::Perform {
            action: JobAction::ParseProvider { id: self.provider_id.clone() },
            phase: JobPhase::Provider,
        }
    }

    fn fail(&self, error: String) -> (step: JobStep)
        ensures
            job_step_view(step) == job_failed(summary_job_view(*self), error@),
    {
        JobStep::Perform {
            action: JobAction::FailProcess { id: self.meeting_id.clone(), error },
            phase: JobPhase::Failed,
        }
    }

    fn on_provider(&self, kind: ProviderKind) -> (step: JobStep)
        ensures
            job_step_view(step) == provider_known(summary_job_view(*self), kind),
    {
        match kind {
            ProviderKind::BuiltInAi => self.fail(
                owned(
                    "The bundled local model is not available in the self-hosted server. Pick Ollama or a cloud provider in Settings.",
                ),
            ),
            ProviderKind::Cloud => JobStep::Perform {
                action: JobAction::LoadApiKey { provider: self.provider_id.clone() },
                phase: JobPhase::Key { kind },
            },
            _ => ask_key(kind, String::new()),
        }
    }

    fn request(
        &self,
        kind: ProviderKind,
        api_key: String,
        ollama_endpoint: Option<String>,
        custom: Option<CustomServer>,
    ) -> (request: SummaryRequest)
        ensures
            request_view(request) == summary_request(
                summary_job_view(*self),
                kind,
                api_key@,
                ollama_endpoint.deep_view(),
                match custom {
                    Some(c) => Some(custom_server_view(c)),
                    None => None,
                },
            ),
    {
        let mut api_key = api_key;
        let mut custom_endpoint: Option<String> = None;
        if let Some(c) = custom {
            custom_endpoint = Some(c.endpoint);
            if kind == ProviderKind::CustomOpenAi {
                if let Some(key) = c.api_key {
                    api_key = key;
                }
            }
        }
        let token_threshold: u32 = match kind {
            ProviderKind::Ollama | ProviderKind::CustomOpenAi => 24_000,
            _ => 100_000,
        };
        SummaryRequest {
            provider: kind,
            provider_id: self.provider_id.clone(),
            model_name: self.model_name.clone(),
            api_key,
            text: self.text.clone(),
            custom_prompt: self.custom_prompt.clone(),
            template_id: self.template_id.clone(),
            token_threshold,
            ollama_endpoint,
            custom_endpoint,
            summary_language: self.summary_language.clone(),
        }
    }

    fn store(&self, markdown: String, chunk_count: i64) -> (step: JobStep)
        ensures
            job_step_view(step) == storing(summary_job_view(*self), markdown@, chunk_count),
    {
        JobStep::Perform {
            action: JobAction::CompleteProcess {
                id: self.meeting_id.clone(),
                result: Json::object().with("markdown", Json::Text(markdown)),
                chunk_count,
            },
            phase: JobPhase::Completed,
        }
    }

    /// Hands the job the outcome of its action.
    pub fn resume(&self, state: &ServerState, phase: JobPhase, outcome: JobOutcome) -> (step:
        JobStep)
        requires
            job_fits(job_phase_view(phase), job_outcome_view(outcome)),
        ensures
            job_step_view(step) == job_resumed(
                state@,
                summary_job_view(*self),
                job_phase_view(phase),
                job_outcome_view(outcome),
            ),
    {
        match (phase, outcome) {
            (JobPhaseOf::Provider, JobOutcomeOf::Provider { kind }) => self.on_provider(kind),
            (JobPhaseOf::Key { kind }, JobOutcomeOf::MaybeText { value }) => ask_key(
                kind,
                match value {
                    Some(key) => key,
                    None => String::new(),
                },
            ),
            (JobPhaseOf::Setting { kind, api_key }, JobOutcomeOf::MaybeValue { value }) =>
                JobStep::Perform {
                action: JobAction::LoadCustomOpenAi,
                phase: JobPhase::Custom {
                    kind,
                    api_key,
                    ollama_endpoint: find_job_endpoint(state, value),
                },
            },
            (
                JobPhaseOf::Custom { kind, api_key, ollama_endpoint },
                JobOutcomeOf::MaybeCustom { config },
            ) => JobStep::Perform {
                action: JobAction::LoadTemplate { id: self.template_id.clone() },
                phase: JobPhase::Template {
                    request: self.request(kind, api_key, ollama_endpoint, config),
                },
            },
            (JobPhaseOf::Template { request }, JobOutcomeOf::Done) => JobStep::Perform {
                action: JobAction::Generate { request },
                phase: JobPhase::Summary,
            },
            (JobPhaseOf::Summary, JobOutcomeOf::Summary { markdown, chunk_count }) =>
                JobStep::Perform {
                action: JobAction::LoadProcess { id: self.meeting_id.clone() },
                phase: JobPhase::Cancellation { markdown, chunk_count },
            },
            (
                JobPhaseOf::Cancellation { markdown, chunk_count },
                JobOutcomeOf::MaybeValue { value },
            ) => if was_cancelled(&value) {
                JobStep::Over
            } else {
                ask_name(markdown, chunk_count)
            },
            (JobPhaseOf::Cancellation { markdown, chunk_count }, JobOutcomeOf::Failed { .. }) =>
                ask_name(markdown, chunk_count),
            (JobPhaseOf::Name { markdown, chunk_count }, JobOutcomeOf::MaybeText { value }) =>
                match value {
                Some(name) => JobStep::Perform {
                    action: JobAction::NameMeeting { id: self.meeting_id.clone(), name },
                    phase: JobPhase::Named { markdown, chunk_count },
                },
                None => self.store(markdown, chunk_count),
            },
            (JobPhaseOf::Named { markdown, chunk_count }, _) => self.store(markdown, chunk_count),
            (JobPhaseOf::Completed, _) => JobStep::Over,
            (JobPhaseOf::Failed, _) => JobStep::Over,
            (_, JobOutcomeOf::Failed { error }) => self.fail(error),
            _ => vstd::pervasive::unreached(),
        }
    }
}

// ---------------------------------------------------------------------------
// What holds of every job
// ---------------------------------------------------------------------------

/// How many more actions the job may ask for, with the one that it waits for.
pub open spec fn job_actions_left(phase: JobPhaseView) -> nat {
    match phase {
        JobPhaseOf::Provider => 10,
        JobPhaseOf::Key { .. } => 9,
        JobPhaseOf::Setting { .. } => 8,
        JobPhaseOf::Custom { .. } => 7,
        JobPhaseOf::Template { .. } => 6,
        JobPhaseOf::Summary => 5,
        JobPhaseOf::Cancellation { .. } => 4,
        JobPhaseOf::Name { .. } => 3,
        JobPhaseOf::Named { .. } => 2,
        JobPhaseOf::Completed => 1,
        JobPhaseOf::Failed => 1,
    }
}

/// Every outcome brings the job closer to its end, so it is over after ten actions
/// at most.
pub proof fn every_job_ends(
    server: ServerView,
    job: SummaryJobOf<Seq<char>>,
    phase: JobPhaseView,
    outcome: JobOutcomeView,
)
    requires
        job_fits(phase, outcome),
    ensures
        job_resumed(server, job, phase, outcome) matches JobStepOf::Perform { phase: next, .. }
            ==> job_actions_left(next) < job_actions_left(phase),
        job_begun(job) matches JobStepOf::Perform { phase: first, .. } && job_actions_left(first)
            == 10,
{
}

/// Whether the summary is still in the making.
pub open spec fn generating(phase: JobPhaseView) -> bool {
    phase is Provider || phase is Key || phase is Setting || phase is Custom || phase is Template
        || phase is Summary
}

/// Whatever fails while the summary is in the making is written down as the reason
/// why the process of its meeting failed.
pub proof fn failures_are_written_down(
    server: ServerView,
    job: SummaryJobOf<Seq<char>>,
    phase: JobPhaseView,
    error: Seq<char>,
)
    requires
        generating(phase),
    ensures
        job_resumed(server, job, phase, JobOutcomeOf::Failed { error }) matches
            JobStepOf::Perform { action, .. } && action == (JobActionOf::<
            Seq<char>,
            JsonView,
        >::FailProcess { id: job.meeting_id, error }),
{
}

/// A summary whose process was cancelled is discarded: the job is over, and
/// nothing is stored.
pub proof fn cancelled_summaries_are_discarded(
    server: ServerView,
    job: SummaryJobOf<Seq<char>>,
    markdown: Seq<char>,
    chunk_count: i64,
    process: Option<JsonView>,
)
    requires
        cancelled(process),
    ensures
        job_resumed(
            server,
            job,
            JobPhaseOf::Cancellation { markdown, chunk_count },
            JobOutcomeOf::MaybeValue { value: process },
        ) == JobStepOf::<JobActionView, JobPhaseView>::Over,
{
}

/// A summary is stored, and a meeting named after it, only once its process was
/// looked at and had not been cancelled; and what is stored is the summary that was
/// made, as the result of the process of its meeting.
pub proof fn stored_summaries_were_not_cancelled(
    server: ServerView,
    job: SummaryJobOf<Seq<char>>,
    phase: JobPhaseView,
    outcome: JobOutcomeView,
)
    requires
        job_fits(phase, outcome),
    ensures
        job_resumed(server, job, phase, outcome) matches JobStepOf::Perform {
            action,
            phase: next,
        } ==> {
            &&& (action is CompleteProcess || action is NameMeeting ==> phase is Name
                || phase is Named)
            &&& (next is Name ==> phase is Cancellation && (outcome matches
                JobOutcomeOf::MaybeValue { value } ==> !cancelled(value)))
            &&& (next is Cancellation ==> phase is Summary && outcome is Summary)
            &&& (action matches JobActionOf::CompleteProcess { id, result, .. } ==> id
                == job.meeting_id && result == JsonView::object().with(
                "markdown"@,
                JsonView::Text(
                    match phase {
                        JobPhaseOf::Name { markdown, .. } => markdown,
                        JobPhaseOf::Named { markdown, .. } => markdown,
                        _ => Seq::empty(),
                    },
                ),
            ))
        },
{
}

/// The bundled model is never asked for a summary.
pub proof fn the_bundled_model_is_refused(
    server: ServerView,
    job: SummaryJobOf<Seq<char>>,
)
    ensures
        job_resumed(
            server,
            job,
            JobPhaseOf::Provider,
            JobOutcomeOf::Provider { kind: ProviderKind::BuiltInAi },
        ) matches JobStepOf::Perform { action, .. } && action is FailProcess,
{
}

/// Where the job stands once it has been handed these outcomes.
pub open spec fn job_after(
    server: ServerView,
    job: SummaryJobOf<Seq<char>>,
    outcomes: Seq<JobOutcomeView>,
) -> JobStepView
    decreases outcomes.len(),
{
    if outcomes.len() == 0 {
        job_begun(job)
    } else {
        match job_after(server, job, outcomes.drop_last()) {
            JobStepOf::Perform { phase, .. } => job_resumed(server, job, phase, outcomes.last()),
            over => over,
        }
    }
}

/// Whether each of these outcomes is one that the job can get when its turn comes.
pub open spec fn job_gets(
    server: ServerView,
    job: SummaryJobOf<Seq<char>>,
    outcomes: Seq<JobOutcomeView>,
) -> bool
    decreases outcomes.len(),
{
    outcomes.len() > 0 ==> {
        &&& job_gets(server, job, outcomes.drop_last())
        &&& job_after(server, job, outcomes.drop_last()) matches JobStepOf::Perform { phase, .. }
            && job_fits(phase, outcomes.last())
    }
}

/// How many outcomes come before the settings: what the provider is, and for one in the
/// cloud its key.
pub open spec fn known_before_settings(outcomes: Seq<JobOutcomeView>) -> int {
    if outcomes[0] == (JobOutcomeOf::<Seq<char>, JsonView>::Provider {
        kind: ProviderKind::Cloud,
    }) {
        2
    } else {
        1
    }
}

/// The key that was found for a provider in the cloud, and an empty one for the others.
pub open spec fn key_found(outcomes: Seq<JobOutcomeView>) -> Seq<char> {
    if known_before_settings(outcomes) == 2 {
        match outcomes[1] {
            JobOutcomeOf::MaybeText { value: Some(key) } => key,
            _ => Seq::empty(),
        }
    } else {
        Seq::empty()
    }
}

/// Whether an Ollama endpoint is the one to use: the configured one, or where there is none
/// the one in the settings that were found, or where there is none no one.
pub open spec fn endpoint_to_use(
    server: ServerView,
    settings: JobOutcomeView,
    endpoint: Option<Seq<char>>,
) -> bool {
    match server.ollama_endpoint {
        Some(configured) => endpoint == Some(configured),
        None => match settings {
            JobOutcomeOf::MaybeValue { value: Some(JsonView::Object(fields)) } => match (
                JsonView::Object(fields).get("ollamaEndpoint"@)
            ) {
                Some(JsonView::Text(stored)) => endpoint == Some(stored),
                _ => endpoint is None,
            },
            _ => endpoint is None,
        },
    }
}

/// Whether a request asks for the summary that the job is to make: of its text, with its
/// model, prompt and template and in its language; from the provider that its id names,
/// with the key and the endpoints that were found.
pub open spec fn asks_what_the_job_asks(
    server: ServerView,
    job: SummaryJobOf<Seq<char>>,
    outcomes: Seq<JobOutcomeView>,
    request: SummaryRequestOf<Seq<char>>,
) -> bool {
    let n = known_before_settings(outcomes);
    &&& outcomes.len() >= n + 2
    &&& request.text == job.text
    &&& request.model_name == job.model_name
    &&& request.provider_id == job.provider_id
    &&& request.custom_prompt == job.custom_prompt
    &&& request.template_id == job.template_id
    &&& request.summary_language == job.summary_language
    &&& outcomes[0] == (JobOutcomeOf::<Seq<char>, JsonView>::Provider { kind: request.provider })
    &&& request.provider != ProviderKind::BuiltInAi
    &&& request.token_threshold == if request.provider == ProviderKind::Cloud {
        100_000u32
    } else {
        24_000u32
    }
    &&& endpoint_to_use(server, outcomes[n], request.ollama_endpoint)
    &&& match outcomes[n + 1] {
        JobOutcomeOf::MaybeCustom { config: Some(custom) } => {
            &&& request.custom_endpoint == Some(custom.endpoint)
            &&& request.api_key == if request.provider == ProviderKind::CustomOpenAi
                && custom.api_key is Some {
                custom.api_key->0
            } else {
                key_found(outcomes)
            }
        },
        _ => request.custom_endpoint is None && request.api_key == key_found(outcomes),
    }
}

/// What is known of the job while it waits.
spec fn job_stands(
    server: ServerView,
    job: SummaryJobOf<Seq<char>>,
    outcomes: Seq<JobOutcomeView>,
    phase: JobPhaseView,
) -> bool {
    let n = known_before_settings(outcomes);
    match phase {
        JobPhaseOf::Provider => outcomes.len() == 0,
        JobPhaseOf::Key { kind } => outcomes.len() == 1 && kind == ProviderKind::Cloud
            && outcomes[0] == (JobOutcomeOf::<Seq<char>, JsonView>::Provider { kind }),
        JobPhaseOf::Setting { kind, api_key } => {
            &&& outcomes.len() == n
            &&& outcomes[0] == (JobOutcomeOf::<Seq<char>, JsonView>::Provider { kind })
            &&& kind != ProviderKind::BuiltInAi
            &&& api_key == key_found(outcomes)
        },
        JobPhaseOf::Custom { kind, api_key, ollama_endpoint } => {
            &&& outcomes.len() == n + 1
            &&& outcomes[0] == (JobOutcomeOf::<Seq<char>, JsonView>::Provider { kind })
            &&& kind != ProviderKind::BuiltInAi
            &&& api_key == key_found(outcomes)
            &&& endpoint_to_use(server, outcomes[n], ollama_endpoint)
        },
        JobPhaseOf::Template { request } => outcomes.len() == n + 2 && asks_what_the_job_asks(
            server,
            job,
            outcomes,
            request,
        ),
        JobPhaseOf::Summary => outcomes.len() == n + 3,
        JobPhaseOf::Cancellation { markdown, chunk_count } => outcomes.len() == n + 4
            && outcomes[n + 3] == (JobOutcomeOf::<Seq<char>, JsonView>::Summary {
            markdown,
            chunk_count,
        }),
        JobPhaseOf::Name { markdown, chunk_count } => outcomes.len() == n + 5 && outcomes[n + 3]
            == (JobOutcomeOf::<Seq<char>, JsonView>::Summary { markdown, chunk_count }),
        JobPhaseOf::Named { markdown, chunk_count } => outcomes.len() == n + 6 && outcomes[n + 3]
            == (JobOutcomeOf::<Seq<char>, JsonView>::Summary { markdown, chunk_count }),
        JobPhaseOf::Completed => outcomes.len() == n + 6 || outcomes.len() == n + 7,
        JobPhaseOf::Failed => true,
    }
}

proof fn lemma_job_stands(
    server: ServerView,
    job: SummaryJobOf<Seq<char>>,
    outcomes: Seq<JobOutcomeView>,
)
    requires
        job_gets(server, job, outcomes),
    ensures
        job_after(server, job, outcomes) matches JobStepOf::Perform { phase, .. } ==> job_stands(
            server,
            job,
            outcomes,
            phase,
        ),
    decreases outcomes.len(),
{
    if outcomes.len() > 0 {
        let front = outcomes.drop_last();
        lemma_job_stands(server, job, front);
        assert forall|i: int| 0 <= i < front.len() implies front[i] == outcomes[i] by {}
        if front.len() > 0 {
            assert(front[0] == outcomes[0]);
        }
        if front.len() > 1 {
            assert(front[1] == outcomes[1]);
        }
        assert(outcomes.last() == outcomes[outcomes.len() - 1]);
    }
}

/// A summary is made of what the job was given, whatever its provider: the request that is
/// sent off carries the job's own text, model, prompt, template and language, and the key
/// and the endpoints that were found on the way.
pub proof fn summaries_are_made_as_asked(
    server: ServerView,
    job: SummaryJobOf<Seq<char>>,
    outcomes: Seq<JobOutcomeView>,
)
    requires
        job_gets(server, job, outcomes),
    ensures
        job_after(server, job, outcomes) matches JobStepOf::Perform { action, .. } ==> match action {
            JobActionOf::ParseProvider { id } => outcomes.len() == 0 && id == job.provider_id,
            JobActionOf::LoadApiKey { provider } => provider == job.provider_id,
            JobActionOf::LoadTemplate { id } => id == job.template_id,
            JobActionOf::Generate { request } => asks_what_the_job_asks(
                server,
                job,
                outcomes,
                request,
            ) && outcomes.last() is Done,
            _ => true,
        },
{
    lemma_job_stands(server, job, outcomes);
    if outcomes.len() > 0 {
        let front = outcomes.drop_last();
        lemma_job_stands(server, job, front);
        if front.len() > 0 {
            assert(front[0] == outcomes[0]);
            let n = known_before_settings(front);
            if front.len() >= n + 2 {
                assert(front[1] == outcomes[1]);
                assert(front[n] == outcomes[n]);
                assert(front[n + 1] == outcomes[n + 1]);
            }
        }
    }
}

/// What becomes of a summary: it is stored under the meeting's id as it was made, with the
/// number of its chunks; the meeting is named as the summary says; and all of this only
/// where the process is not found to be cancelled.
pub proof fn summaries_are_stored_as_made(
    server: ServerView,
    job: SummaryJobOf<Seq<char>>,
    outcomes: Seq<JobOutcomeView>,
)
    requires
        job_gets(server, job, outcomes),
    ensures
        ({
            let n = known_before_settings(outcomes);
            job_after(server, job, outcomes) matches JobStepOf::Perform { action, .. }
                ==> match action {
                JobActionOf::LoadProcess { id } => id == job.meeting_id,
                JobActionOf::ExtractName { markdown } => outcomes[n + 3] matches
                    JobOutcomeOf::Summary { markdown: made, .. } && markdown == made,
                JobActionOf::NameMeeting { id, name } => id == job.meeting_id && outcomes.last()
                    == (JobOutcomeOf::<Seq<char>, JsonView>::MaybeText { value: Some(name) }),
                JobActionOf::CompleteProcess { id, result, chunk_count } => {
                    &&& id == job.meeting_id
                    &&& outcomes[n + 3] matches JobOutcomeOf::Summary {
                        markdown,
                        chunk_count: made,
                    } && chunk_count == made && result.pick("markdown"@) == JsonView::Text(
                        markdown,
                    )
                },
                JobActionOf::FailProcess { id, error } => id == job.meeting_id && (outcomes.last()
                    == (JobOutcomeOf::<Seq<char>, JsonView>::Failed { error }) || (outcomes.last()
                    == (JobOutcomeOf::<Seq<char>, JsonView>::Provider {
                    kind: ProviderKind::BuiltInAi,
                }) && error
                    == "The bundled local model is not available in the self-hosted server. Pick Ollama or a cloud provider in Settings."@)),
                _ => true,
            }
        }),
{
    lemma_job_stands(server, job, outcomes);
    if outcomes.len() > 0 {
        let front = outcomes.drop_last();
        lemma_job_stands(server, job, front);
        assert(outcomes.last() == outcomes[outcomes.len() - 1]);
        if front.len() > 0 {
            assert(front[0] == outcomes[0]);
            let n = known_before_settings(front);
            if front.len() > n + 3 {
                assert(front[n + 3] == outcomes[n + 3]);
                if let JobOutcomeOf::Summary { markdown, .. } = outcomes[n + 3] {
                    fields_are_found_again(
                        JsonView::object(),
                        "markdown"@,
                        JsonView::Text(markdown),
                    );
                }
            }
        }
    }
}

/// The process of a meeting was cancelled exactly where its status says so, in whatever
/// case it is written: only then is a summary that was made thrown away.
pub proof fn summaries_are_kept_unless_cancelled(
    server: ServerView,
    job: SummaryJobOf<Seq<char>>,
    markdown: Seq<char>,
    chunk_count: i64,
    process: Option<JsonView>,
)
    ensures
        job_resumed(
            server,
            job,
            JobPhaseOf::Cancellation { markdown, chunk_count },
            JobOutcomeOf::MaybeValue { value: process },
        ) is Over <==> (process matches Some(p) && (p.get("status"@) matches Some(
            JsonView::Text(status),
        ) && lower_case(status) == "cancelled"@)),
        job_resumed(
            server,
            job,
            JobPhaseOf::Cancellation { markdown, chunk_count },
            JobOutcomeOf::MaybeValue { value: process },
        ) matches JobStepOf::Perform { action, .. } ==> action == (JobActionOf::<
            Seq<char>,
            JsonView,
        >::ExtractName { markdown }),
{
}

/// Whether the job waits for what comes of this action.
spec fn job_waits(action: JobActionView, phase: JobPhaseView) -> bool {
    match phase {
        JobPhaseOf::Provider => action is ParseProvider,
        JobPhaseOf::Key { .. } => action is LoadApiKey,
        JobPhaseOf::Setting { .. } => action is LoadModelConfig,
        JobPhaseOf::Custom { .. } => action is LoadCustomOpenAi,
        JobPhaseOf::Template { .. } => action is LoadTemplate,
        JobPhaseOf::Summary => action is Generate,
        JobPhaseOf::Cancellation { .. } => action is LoadProcess,
        JobPhaseOf::Name { .. } => action is ExtractName,
        JobPhaseOf::Named { .. } => action is NameMeeting,
        JobPhaseOf::Completed => action is CompleteProcess,
        JobPhaseOf::Failed => action is FailProcess,
    }
}

proof fn lemma_job_waits(
    server: ServerView,
    job: SummaryJobOf<Seq<char>>,
    outcomes: Seq<JobOutcomeView>,
)
    requires
        job_gets(server, job, outcomes),
    ensures
        job_after(server, job, outcomes) matches JobStepOf::Perform { action, phase }
            ==> job_waits(action, phase),
    decreases outcomes.len(),
{
    if outcomes.len() > 0 {
        lemma_job_waits(server, job, outcomes.drop_last());
    }
}

/// The job takes its course, one action after the other: the provider is looked up, the key
/// of one in the cloud, the settings, the endpoint and the template; the summary is made;
/// its process is looked at; the meeting is named where the summary names it; and the
/// summary is stored. A failure ends the course only while the summary is in the making:
/// it is written down.
pub proof fn jobs_take_their_course(
    server: ServerView,
    job: SummaryJobOf<Seq<char>>,
    outcomes: Seq<JobOutcomeView>,
)
    requires
        outcomes.len() > 0,
        job_gets(server, job, outcomes),
    ensures
        job_after(server, job, outcomes.drop_last()) matches JobStepOf::Perform { action, .. } && {
            let next = job_after(server, job, outcomes);
            let failed = outcomes.last() is Failed;
            let asks = next matches JobStepOf::Perform { action: asked, .. } && match action {
                JobActionOf::ParseProvider { .. } => if failed {
                    asked is FailProcess
                } else {
                    match outcomes.last()->kind {
                        ProviderKind::BuiltInAi => asked is FailProcess,
                        ProviderKind::Cloud => asked is LoadApiKey,
                        _ => asked is LoadModelConfig,
                    }
                },
                JobActionOf::LoadApiKey { .. } => if failed {
                    asked is FailProcess
                } else {
                    asked is LoadModelConfig
                },
                JobActionOf::LoadModelConfig => if failed {
                    asked is FailProcess
                } else {
                    asked is LoadCustomOpenAi
                },
                JobActionOf::LoadCustomOpenAi => if failed {
                    asked is FailProcess
                } else {
                    asked is LoadTemplate
                },
                JobActionOf::LoadTemplate { .. } => if failed {
                    asked is FailProcess
                } else {
                    asked is Generate
                },
                JobActionOf::Generate { .. } => if failed {
                    asked is FailProcess
                } else {
                    asked is LoadProcess
                },
                JobActionOf::LoadProcess { .. } => asked is ExtractName,
                JobActionOf::ExtractName { .. } => if outcomes.last() == (JobOutcomeOf::<
                    Seq<char>,
                    JsonView,
                >::MaybeText { value: None }) {
                    asked is CompleteProcess
                } else {
                    asked is NameMeeting
                },
                JobActionOf::NameMeeting { .. } => asked is CompleteProcess,
                JobActionOf::CompleteProcess { .. } => false,
                JobActionOf::FailProcess { .. } => false,
            };
            let over = next is Over && (action is CompleteProcess || action is FailProcess || (
            action is LoadProcess && !failed));
            asks || over
        },
{
    lemma_job_waits(server, job, outcomes.drop_last());
}

/// Requests and outcomes are seen whole: nothing of them is lost on the way.
pub proof fn job_requests_and_outcomes_are_seen_whole(
    job: SummaryJobOf<String>,
    request: SummaryRequest,
    text: String,
    value: Option<Json>,
    found: Option<String>,
    custom: CustomServer,
    chunk_count: i64,
    kind: ProviderKind,
    result: Json,
)
    ensures
        summary_job_view(job).meeting_id == job.meeting_id@,
        summary_job_view(job).text == job.text@,
        summary_job_view(job).provider_id == job.provider_id@,
        summary_job_view(job).model_name == job.model_name@,
        summary_job_view(job).custom_prompt == job.custom_prompt@,
        summary_job_view(job).template_id == job.template_id@,
        summary_job_view(job).summary_language == job.summary_language.deep_view(),
        request_view(request).provider == request.provider,
        request_view(request).provider_id == request.provider_id@,
        request_view(request).model_name == request.model_name@,
        request_view(request).api_key == request.api_key@,
        request_view(request).text == request.text@,
        request_view(request).custom_prompt == request.custom_prompt@,
        request_view(request).template_id == request.template_id@,
        request_view(request).token_threshold == request.token_threshold,
        request_view(request).ollama_endpoint == request.ollama_endpoint.deep_view(),
        request_view(request).custom_endpoint == request.custom_endpoint.deep_view(),
        request_view(request).summary_language == request.summary_language.deep_view(),
        job_action_view(JobActionOf::Generate { request }) == (JobActionOf::<
            Seq<char>,
            JsonView,
        >::Generate { request: request_view(request) }),
        job_action_view(JobActionOf::CompleteProcess { id: text, result, chunk_count }) == (
        JobActionOf::CompleteProcess { id: text@, result: result@, chunk_count }),
        job_action_view(JobActionOf::FailProcess { id: text, error: text }) == (JobActionOf::<
            Seq<char>,
            JsonView,
        >::FailProcess { id: text@, error: text@ }),
        job_action_view(JobActionOf::NameMeeting { id: text, name: text }) == (JobActionOf::<
            Seq<char>,
            JsonView,
        >::NameMeeting { id: text@, name: text@ }),
        job_outcome_view(JobOutcomeOf::Provider { kind }) == (JobOutcomeOf::<
            Seq<char>,
            JsonView,
        >::Provider { kind }),
        job_outcome_view(JobOutcomeOf::MaybeText { value: found }) == (JobOutcomeOf::<
            Seq<char>,
            JsonView,
        >::MaybeText { value: found.deep_view() }),
        job_outcome_view(JobOutcomeOf::MaybeValue { value }) == (JobOutcomeOf::<
            Seq<char>,
            JsonView,
        >::MaybeValue { value: value.deep_view() }),
        job_outcome_view(JobOutcomeOf::MaybeCustom { config: Some(custom) }) == (JobOutcomeOf::<
            Seq<char>,
            JsonView,
        >::MaybeCustom {
            config: Some(
                CustomServerOf { endpoint: custom.endpoint@, api_key: custom.api_key.deep_view() },
            ),
        }),
        job_outcome_view(JobOutcomeOf::Summary { markdown: text, chunk_count }) == (JobOutcomeOf::<
            Seq<char>,
            JsonView,
        >::Summary { markdown: text@, chunk_count }),
        job_outcome_view(JobOutcomeOf::Failed { error: text }) == (JobOutcomeOf::<
            Seq<char>,
            JsonView,
        >::Failed { error: text@ }),
{
}

/// Whatever an action of the job can bring is taken.
pub proof fn job_outcomes_are_taken(
    server: ServerView,
    job: SummaryJobOf<Seq<char>>,
    outcomes: Seq<JobOutcomeView>,
    outcome: JobOutcomeView,
)
    requires
        job_gets(server, job, outcomes),
    ensures
        job_after(server, job, outcomes) matches JobStepOf::Perform { action, phase } ==> match action {
            JobActionOf::ParseProvider { .. } => outcome is Provider || outcome is Failed,
            JobActionOf::LoadApiKey { .. } => outcome is MaybeText || outcome is Failed,
            JobActionOf::LoadModelConfig => outcome is MaybeValue || outcome is Failed,
            JobActionOf::LoadCustomOpenAi => outcome is MaybeCustom || outcome is Failed,
            JobActionOf::LoadTemplate { .. } => outcome is Done || outcome is Failed,
            JobActionOf::Generate { .. } => outcome is Summary || outcome is Failed,
            JobActionOf::LoadProcess { .. } => outcome is MaybeValue || outcome is Failed,
            JobActionOf::ExtractName { .. } => outcome is MaybeText,
            JobActionOf::NameMeeting { .. } => outcome is Done || outcome is Failed,
            JobActionOf::CompleteProcess { .. } => outcome is Done || outcome is Failed,
            JobActionOf::FailProcess { .. } => outcome is Done || outcome is Failed,
        } == job_fits(phase, outcome),
{
    lemma_job_waits(server, job, outcomes);
}

} // verus!
