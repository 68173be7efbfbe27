//! Running one utterance through whichever engine the transcript settings select.
//!
//! Like a command, a transcription is a conversation: [`transcribe`] gives its first
//! step, and [`resume_transcription`] the next one each time an action has been
//! performed.

use vstd::prelude::*;

use crate::engines::{find_available, first_available};
use crate::json::{Json, JsonView};
use crate::protocol::{Engine, ModelView, Outcome, OutcomeView};
use crate::text::{join2, owned, same_text};

verus! {

/// What a transcription asks of the world outside. `S` stands for texts.
pub enum EngineActionOf<S> {
    /// The stored transcription settings.
    LoadTranscriptConfig,
    /// Wait for the one slot in which the engines run, and hold it until the
    /// transcription is over.
    AwaitTurn,
    /// Whether a model is loaded.
    IsModelLoaded { engine: Engine },
    /// The models of an engine.
    DiscoverModels { engine: Engine },
    /// Load a model.
    LoadModel { engine: Engine, name: S },
    /// Transcribe the utterance.
    Transcribe { engine: Engine, language: Option<S> },
}

pub type EngineAction = EngineActionOf<String>;

pub type EngineActionView = EngineActionOf<Seq<char>>;

/// What an action of a transcription holds.
pub open spec fn engine_action_view(action: EngineAction) -> EngineActionView {
    match action {
        EngineActionOf::LoadTranscriptConfig => EngineActionOf::LoadTranscriptConfig,
        EngineActionOf::AwaitTurn => EngineActionOf::AwaitTurn,
        EngineActionOf::IsModelLoaded { engine } => EngineActionOf::IsModelLoaded { engine },
        EngineActionOf::DiscoverModels { engine } => EngineActionOf::DiscoverModels { engine },
        EngineActionOf::LoadModel { engine, name } => EngineActionOf::LoadModel {
            engine,
            name: name@,
        },
        EngineActionOf::Transcribe { engine, language } => EngineActionOf::Transcribe {
            engine,
            language: language.deep_view(),
        },
    }
}

/// What a transcription is waiting for.
#[derive(Debug, Clone, Copy, PartialEq, Eq, Structural)]
pub enum EnginePhase {
    Settings,
    Turn { engine: Engine },
    Loaded { engine: Engine },
    Models { engine: Engine },
    Loading { engine: Engine },
    Text,
}

/// Where a transcription stands: it asks for an action, or it has its text, or the
/// reason why there is none.
pub enum EngineStepOf<S> {
    Perform { action: EngineActionOf<S>, phase: EnginePhase },
    Reply { result: Result<S, S> },
}

pub type EngineStep = EngineStepOf<String>;

pub type EngineStepView = EngineStepOf<Seq<char>>;

/// What a step of a transcription holds.
pub open spec fn engine_step_view(step: EngineStep) -> EngineStepView {
    match step {
        EngineStepOf::Perform { action, phase } => EngineStepOf::Perform {
            action: engine_action_view(action),
            phase,
        },
        EngineStepOf::Reply { result } => EngineStepOf::Reply {
            result: match result {
                Ok(text) => Ok(text@),
                Err(error) => Err(error@),
            },
        },
    }
}

/// The engine that transcription settings select: Whisper where they say so, and
/// Parakeet otherwise, also where there are none.
pub open spec fn selected_engine(setting: Option<JsonView>) -> Engine {
    match setting {
        Some(s) => if s.pick("provider"@).as_str() == Some("localWhisper"@) {
            Engine::Whisper
        } else {
            Engine::Parakeet
        },
        None => Engine::Parakeet,
    }
}

/// What is said where an engine has no model to load.
pub open spec fn no_models(engine: Engine) -> Seq<char> {
    match engine {
        Engine::Whisper => "No Whisper models are available. Download one in Settings."@,
        Engine::Parakeet => "No Parakeet models are available. Download one in Settings."@,
    }
}

/// The utterance is transcribed. Only Whisper is told the language.
pub open spec fn listening(engine: Engine, language: Option<Seq<char>>) -> EngineStepView {
    EngineStepOf::Perform {
        action: EngineActionOf::Transcribe {
            engine,
            language: match engine {
                Engine::Whisper => language,
                Engine::Parakeet => None,
            },
        },
        phase: EnginePhase::Text,
    }
}

/// The engine is waited for.
pub open spec fn engine_selected(engine: Engine) -> EngineStepView {
    EngineStepOf::Perform {
        action: EngineActionOf::AwaitTurn,
        phase: EnginePhase::Turn { engine },
    }
}

/// The first model that is available is loaded; where there is none, that is said.
pub open spec fn models_listed(engine: Engine, models: Seq<ModelView>) -> EngineStepView {
    match first_available(models, None, 0) {
        Some(name) => EngineStepOf::Perform {
            action: EngineActionOf::LoadModel { engine, name },
            phase: EnginePhase::Loading { engine },
        },
        None => EngineStepOf::Reply { result: Err(no_models(engine)) },
    }
}

/// The outcomes that a transcription can get.
pub open spec fn engine_fits(phase: EnginePhase, outcome: OutcomeView) -> bool {
    match phase {
        EnginePhase::Settings => outcome is MaybeValue || outcome is Failed,
        EnginePhase::Turn { .. } => outcome is Done || outcome is Failed,
        EnginePhase::Loaded { .. } => outcome is Flag,
        EnginePhase::Models { .. } => outcome is Models || outcome is Failed,
        EnginePhase::Loading { .. } => outcome is Done || outcome is Failed,
        EnginePhase::Text => outcome is Text || outcome is Failed,
    }
}

/// What a transcription begins with.
pub open spec fn transcription_begun() -> EngineStepView {
    EngineStepOf::Perform {
        action: EngineActionOf::LoadTranscriptConfig,
        phase: EnginePhase::Settings,
    }
}

/// What a transcription does with an outcome.
pub open spec fn transcription_resumed(
    language: Option<Seq<char>>,
    phase: EnginePhase,
    outcome: OutcomeView,
) -> EngineStepView {
    match (phase, outcome) {
        (EnginePhase::Settings, OutcomeView::MaybeValue { value }) => engine_selected(
            selected_engine(value),
        ),
        (EnginePhase::Settings, OutcomeView::Failed { error }) => engine_selected(
            selected_engine(None),
        ),
        (EnginePhase::Turn { engine }, OutcomeView::Done) => EngineStepOf::Perform {
            action: EngineActionOf::IsModelLoaded { engine },
            phase: EnginePhase::Loaded { engine },
        },
        (EnginePhase::Turn { engine }, OutcomeView::Failed { error }) => EngineStepOf::Reply {
            result: Err("transcription queue closed: "@ + error),
        },
        (EnginePhase::Loaded { engine }, OutcomeView::Flag { value }) => if value {
            listening(engine, language)
        } else {
            EngineStepOf::Perform {
                action: EngineActionOf::DiscoverModels { engine },
                phase: EnginePhase::Models { engine },
            }
        },
        (EnginePhase::Models { engine }, OutcomeView::Models { list }) => models_listed(
            engine,
            list,
        ),
        (EnginePhase::Loading { engine }, OutcomeView::Done) => listening(engine, language),
        (EnginePhase::Text, OutcomeView::Text { value }) => EngineStepOf::Reply {
            result: Ok(value),
        },
        (_, OutcomeView::Failed { error }) => EngineStepOf::Reply { result: Err(error) },
        _ => arbitrary(),
    }
}

/// Whether a transcription can get this outcome.
pub fn engine_accepts(phase: EnginePhase, outcome: &Outcome) -> (r: bool)
    ensures
        r == engine_fits(phase, outcome@),
{
    match (phase, outcome) {
        (EnginePhase::Settings, Outcome::MaybeValue { .. }) => true,
        (EnginePhase::Turn { .. }, Outcome::Done) => true,
        (EnginePhase::Loaded { .. }, Outcome::Flag { .. }) => true,
        (EnginePhase::Loaded { .. }, _) => false,
        (EnginePhase::Models { .. }, Outcome::Models { .. }) => true,
        (EnginePhase::Loading { .. }, Outcome::Done) => true,
        (EnginePhase::Text, Outcome::Text { .. }) => true,
        (_, Outcome::Failed { .. }) => true,
        _ => false,
    }
}

fn select_engine(setting: Option<Json>) -> (engine: Engine)
    ensures
        engine == selected_engine(setting.deep_view()),
{
    match setting {
        Some(s) => match s.pick("provider").as_str() {
            Some(provider) => if same_text(provider.as_str(), "localWhisper") {
                Engine::Whisper
            } else {
                Engine::Parakeet
            },
            None => Engine::Parakeet,
        },
        None => Engine::Parakeet,
    }
}

fn await_turn(engine: Engine) -> (step: EngineStep)
    ensures
        engine_step_view(step) == engine_selected(engine),
{
    EngineStep::Perform { action: EngineAction::AwaitTurn, phase: EnginePhase::Turn { engine } }
}

fn listen(engine: Engine, language: &Option<String>) -> (step: EngineStep)
    ensures
        engine_step_view(step) == listening(engine, language.deep_view()),
{
    let language = match engine {
        Engine::Whisper => language.clone(),
        Engine::Parakeet => None,
    };
    EngineStep::Perform {
        action: EngineAction::Transcribe { engine, language },
        phase: EnginePhase::Text,
    }
}

/// Begins a transcription.
pub fn transcribe() -> (step: EngineStep)
    ensures
        engine_step_view(step) == transcription_begun(),
{
    EngineStep::Perform {
        action: EngineAction::LoadTranscriptConfig,
        phase: EnginePhase::Settings,
    }
}

/// Hands a transcription the outcome of its action.
pub fn resume_transcription(
    language: &Option<String>,
    phase: EnginePhase,
    outcome: Outcome,
) -> (step: EngineStep)
    requires
        engine_fits(phase, outcome@),
    ensures
        engine_step_view(step) == transcription_resumed(language.deep_view(), phase, outcome@),
{
    match (phase, outcome) {
        (EnginePhase::Settings, Outcome::MaybeValue { value }) => await_turn(select_engine(value)),
        (EnginePhase::Settings, Outcome::Failed { .. }) => await_turn(select_engine(None)),
        (EnginePhase::Turn { engine }, Outcome::Done) => EngineStep::Perform {
            action: EngineAction::IsModelLoaded { engine },
            phase: EnginePhase::Loaded { engine },
        },
        (EnginePhase::Turn { .. }, Outcome::Failed { error }) => EngineStep::Reply {
            result: Err(join2("transcription queue closed: ", error.as_str())),
        },
        (EnginePhase::Loaded { engine }, Outcome::Flag { value }) => if value {
            listen(engine, language)
        } else {
            EngineStep::Perform {
                action: EngineAction::DiscoverModels { engine },
                phase: EnginePhase::Models { engine },
            }
        },
        (EnginePhase::Models { engine }, Outcome::Models { list }) => match find_available(
            &list,
            None,
        ) {
            Some(name) => EngineStep::Perform {
                action: EngineAction::LoadModel { engine, name },
                phase: EnginePhase::Loading { engine },
            },
            None => EngineStep::Reply {
                result: Err(
                    match engine {
                        Engine::Whisper => owned(
                            "No Whisper models are available. Download one in Settings.",
                        ),
                        Engine::Parakeet => owned(
                            "No Parakeet models are available. Download one in Settings.",
                        ),
                    },
                ),
            },
        },
        (EnginePhase::Loading { engine }, Outcome::Done) => listen(engine, language),
        (EnginePhase::Text, Outcome::Text { value }) => EngineStep::Reply { result: Ok(value) },
        (_, Outcome::Failed { error }) => EngineStep::Reply { result: Err(error) },
        _ => vstd::pervasive::unreached(),
    }
}

// ---------------------------------------------------------------------------
// What holds of every transcription
// ---------------------------------------------------------------------------

/// How many more actions a transcription may ask for, with the one that it waits
/// for.
pub open spec fn engine_actions_left(phase: EnginePhase) -> nat {
    match phase {
        EnginePhase::Settings => 6,
        EnginePhase::Turn { .. } => 5,
        EnginePhase::Loaded { .. } => 4,
        EnginePhase::Models { .. } => 3,
        EnginePhase::Loading { .. } => 2,
        EnginePhase::Text => 1,
    }
}

/// Every outcome brings a transcription closer to its end, so it is over after six
/// actions at most.
pub proof fn every_transcription_ends(
    language: Option<Seq<char>>,
    phase: EnginePhase,
    outcome: OutcomeView,
)
    requires
        engine_fits(phase, outcome),
    ensures
        transcription_resumed(language, phase, outcome) matches EngineStepOf::Perform {
            phase: next,
            ..
        } ==> engine_actions_left(next) < engine_actions_left(phase),
        transcription_begun() matches EngineStepOf::Perform { phase: first, .. }
            && engine_actions_left(first) == 6,
{
}

/// An engine is only made to listen once it has a model: one that it says is
/// loaded, or one that has just been loaded. And it does so only in its turn.
pub proof fn engines_listen_with_a_model(
    language: Option<Seq<char>>,
    phase: EnginePhase,
    outcome: OutcomeView,
)
    requires
        engine_fits(phase, outcome),
    ensures
        transcription_resumed(language, phase, outcome) matches EngineStepOf::Perform {
            action,
            phase: next,
        } ==> {
            &&& (action matches EngineActionOf::Transcribe { engine, .. } ==> (phase == (
            EnginePhase::Loaded { engine }) && outcome == (OutcomeView::Flag { value: true }))
                || (phase == (EnginePhase::Loading { engine }) && outcome is Done))
            &&& (next is Loaded ==> phase is Turn && outcome is Done)
            &&& (next is Loading ==> phase is Models)
            &&& (next is Models ==> phase is Loaded)
        },
{
}

/// Settings that cannot be read do not stop a transcription: any other failure does,
/// and its reason is the answer.
pub proof fn engine_failures_are_reported(
    language: Option<Seq<char>>,
    phase: EnginePhase,
    error: Seq<char>,
)
    requires
        engine_fits(phase, OutcomeView::Failed { error }),
    ensures
        transcription_resumed(language, phase, OutcomeView::Failed { error }) == (match phase {
            EnginePhase::Settings => engine_selected(Engine::Parakeet),
            EnginePhase::Turn { .. } => EngineStepOf::Reply {
                result: Err("transcription queue closed: "@ + error),
            },
            _ => EngineStepOf::Reply { result: Err(error) },
        }),
{
}

/// Where a transcription stands once it has been handed these outcomes.
pub open spec fn transcription_after(
    language: Option<Seq<char>>,
    outcomes: Seq<OutcomeView>,
) -> EngineStepView
    decreases outcomes.len(),
{
    if outcomes.len() == 0 {
        transcription_begun()
    } else {
        match transcription_after(language, outcomes.drop_last()) {
            EngineStepOf::Perform { phase, .. } => transcription_resumed(
                language,
                phase,
                outcomes.last(),
            ),
            over => over,
        }
    }
}

/// Whether each of these outcomes is one that a transcription can get when its turn comes.
pub open spec fn transcription_gets(
    language: Option<Seq<char>>,
    outcomes: Seq<OutcomeView>,
) -> bool
    decreases outcomes.len(),
{
    outcomes.len() > 0 ==> {
        &&& transcription_gets(language, outcomes.drop_last())
        &&& transcription_after(language, outcomes.drop_last()) matches EngineStepOf::Perform {
            phase,
            ..
        } && engine_fits(phase, outcomes.last())
    }
}

/// The engine that is wanted, going by what came of asking for the settings: Whisper where
/// they can be read and their provider is `localWhisper`.
pub open spec fn wanted_engine(settings: OutcomeView) -> Engine {
    match settings {
        OutcomeView::MaybeValue { value: Some(JsonView::Object(fields)) } => if JsonView::Object(
            fields,
        ).get("provider"@) == Some(JsonView::Text("localWhisper"@)) {
            Engine::Whisper
        } else {
            Engine::Parakeet
        },
        _ => Engine::Parakeet,
    }
}

/// Whether a name is that of the first model which is available.
pub open spec fn first_that_is_available(models: Seq<ModelView>, name: Seq<char>) -> bool {
    exists|i: int|
        0 <= i < models.len() && (#[trigger] models[i]).available && models[i].name == name
            && forall|j: int| 0 <= j < i ==> !(#[trigger] models[j]).available
}

proof fn lemma_first_available_from(models: Seq<ModelView>, from: int)
    requires
        0 <= from <= models.len(),
        forall|j: int| 0 <= j < from ==> !(#[trigger] models[j]).available,
    ensures
        match first_available(models, None, from) {
            Some(name) => first_that_is_available(models, name),
            None => forall|j: int| 0 <= j < models.len() ==> !(#[trigger] models[j]).available,
        },
    decreases models.len() - from,
{
    if from < models.len() {
        if models[from].available {
            assert(first_that_is_available(models, models[from].name));
        } else {
            lemma_first_available_from(models, from + 1);
        }
    }
}

/// Whether a step asks an engine to transcribe. Only Whisper is told the language.
pub open spec fn asks_to_transcribe(
    step: EngineStepView,
    engine: Engine,
    language: Option<Seq<char>>,
) -> bool {
    step matches EngineStepOf::Perform { action, .. } && action == (EngineActionOf::<
        Seq<char>,
    >::Transcribe {
        engine,
        language: if engine == Engine::Whisper {
            language
        } else {
            None
        },
    })
}

/// Whether a step asks for this action.
pub open spec fn engine_asks(step: EngineStepView, action: EngineActionView) -> bool {
    step matches EngineStepOf::Perform { action: asked, .. } && asked == action
}

/// Whether a step is the answer.
pub open spec fn engine_answers(
    step: EngineStepView,
    answer: Result<Seq<char>, Seq<char>>,
) -> bool {
    step matches EngineStepOf::Reply { result } && result == answer
}

/// One engine serves a transcription from beginning to end, the one that the settings
/// select. Its turn is waited for; a model is loaded where none is, the first one that is
/// available; the utterance is transcribed in the language that was asked for; and what is
/// heard is the answer.
pub proof fn one_engine_serves_a_transcription(
    language: Option<Seq<char>>,
    settings: OutcomeView,
    models: Seq<ModelView>,
    text: Seq<char>,
)
    requires
        settings is MaybeValue || settings is Failed,
    ensures
        ({
            let engine = wanted_engine(settings);
            let done = OutcomeView::Done;
            let ready = seq![settings, done, OutcomeView::Flag { value: true }];
            let unready = seq![settings, done, OutcomeView::Flag { value: false }];
            let listed = unready.push(OutcomeView::Models { list: models });
            let loaded = listed.push(done);
            let heard = OutcomeView::Text { value: text };
            let after = |outcomes: Seq<OutcomeView>| transcription_after(language, outcomes);
            &&& engine_asks(after(Seq::empty()), EngineActionOf::LoadTranscriptConfig)
            &&& engine_asks(after(seq![settings]), EngineActionOf::AwaitTurn)
            &&& engine_asks(after(seq![settings, done]), EngineActionOf::IsModelLoaded { engine })
            &&& asks_to_transcribe(after(ready), engine, language)
            &&& engine_answers(after(ready.push(heard)), Ok(text))
            &&& engine_asks(after(unready), EngineActionOf::DiscoverModels { engine })
            &&& if exists|i: int| 0 <= i < models.len() && (#[trigger] models[i]).available {
                &&& exists|name: Seq<char>| #[trigger]
                    first_that_is_available(models, name) && engine_asks(
                        after(listed),
                        EngineActionOf::LoadModel { engine, name },
                    )
                &&& asks_to_transcribe(after(loaded), engine, language)
                &&& engine_answers(after(loaded.push(heard)), Ok(text))
            } else {
                engine_answers(
                    after(listed),
                    Err(
                        match engine {
                            Engine::Whisper =>
                                "No Whisper models are available. Download one in Settings."@,
                            Engine::Parakeet =>
                                "No Parakeet models are available. Download one in Settings."@,
                        },
                    ),
                )
            }
        }),
{
    let done = OutcomeView::Done;
    let ready = seq![settings, done, OutcomeView::Flag { value: true }];
    let unready = seq![settings, done, OutcomeView::Flag { value: false }];
    let listed = unready.push(OutcomeView::Models { list: models });
    let loaded = listed.push(done);
    let heard = OutcomeView::Text { value: text };
    let none = Seq::<OutcomeView>::empty();
    assert(transcription_after(language, none) == transcription_begun());
    assert(seq![settings].drop_last() =~= none);
    assert(transcription_after(language, seq![settings]) == engine_selected(
        wanted_engine(settings),
    ));
    assert(seq![settings, done].drop_last() =~= seq![settings]);
    assert(transcription_after(language, seq![settings, done]) is Perform);
    assert(ready.drop_last() =~= seq![settings, done]);
    assert(unready.drop_last() =~= seq![settings, done]);
    assert(transcription_after(language, ready) is Perform);
    assert(transcription_after(language, unready) is Perform);
    assert(ready.push(heard).drop_last() =~= ready);
    assert(listed.drop_last() =~= unready);
    lemma_first_available_from(models, 0);
    if exists|i: int| 0 <= i < models.len() && (#[trigger] models[i]).available {
        let name = first_available(models, None, 0)->0;
        assert(transcription_after(language, listed) is Perform);
        assert(first_that_is_available(models, name));
        assert(loaded.drop_last() =~= listed);
        assert(transcription_after(language, loaded) is Perform);
        assert(loaded.push(heard).drop_last() =~= loaded);
    }
}

/// No other engine is ever asked for anything, whatever comes of the actions; and only an
/// utterance that is transcribed brings a text.
pub proof fn no_other_engine_is_asked(language: Option<Seq<char>>, outcomes: Seq<OutcomeView>)
    requires
        outcomes.len() > 0,
        transcription_gets(language, outcomes),
    ensures
        ({
            let engine = wanted_engine(outcomes[0]);
            match transcription_after(language, outcomes) {
                EngineStepOf::Perform { action, phase } => {
                    &&& match action {
                        EngineActionOf::LoadTranscriptConfig => false,
                        EngineActionOf::AwaitTurn => outcomes.len() == 1,
                        EngineActionOf::IsModelLoaded { engine: e } => e == engine,
                        EngineActionOf::DiscoverModels { engine: e } => e == engine,
                        EngineActionOf::LoadModel { engine: e, .. } => e == engine,
                        EngineActionOf::Transcribe { engine: e, language: l } => e == engine && l
                            == if engine == Engine::Whisper {
                            language
                        } else {
                            None
                        },
                    }
                    &&& match phase {
                        EnginePhase::Settings => false,
                        EnginePhase::Turn { engine: e } => e == engine,
                        EnginePhase::Loaded { engine: e } => e == engine,
                        EnginePhase::Models { engine: e } => e == engine,
                        EnginePhase::Loading { engine: e } => e == engine,
                        EnginePhase::Text => action is Transcribe,
                    }
                },
                EngineStepOf::Reply { result: Ok(text) } => outcomes.last() == (OutcomeView::Text {
                    value: text,
                }),
                EngineStepOf::Reply { result: Err(_) } => outcomes.last() is Failed
                    || outcomes.last() is Models,
            }
        }),
    decreases outcomes.len(),
{
    let front = outcomes.drop_last();
    if front.len() > 0 {
        assert(front[0] == outcomes[0]);
        no_other_engine_is_asked(language, front);
    } else {
        assert(outcomes.last() == outcomes[0]);
    }
}

/// Actions and answers are seen whole: nothing of them is lost on the way.
pub proof fn engine_actions_are_seen_whole(
    engine: Engine,
    name: String,
    language: Option<String>,
    phase: EnginePhase,
)
    ensures
        engine_action_view(EngineActionOf::LoadModel { engine, name }) == (
        EngineActionOf::LoadModel { engine, name: name@ }),
        engine_action_view(EngineActionOf::Transcribe { engine, language }) == (
        EngineActionOf::Transcribe { engine, language: language.deep_view() }),
        engine_action_view(EngineActionOf::DiscoverModels { engine }) == (EngineActionOf::<
            Seq<char>,
        >::DiscoverModels { engine }),
        engine_action_view(EngineActionOf::IsModelLoaded { engine }) == (EngineActionOf::<
            Seq<char>,
        >::IsModelLoaded { engine }),
        engine_action_view(EngineActionOf::AwaitTurn) is AwaitTurn,
        engine_action_view(EngineActionOf::LoadTranscriptConfig) is LoadTranscriptConfig,
        engine_step_view(EngineStepOf::Reply { result: Ok(name) }) == (EngineStepOf::Reply {
            result: Ok::<Seq<char>, Seq<char>>(name@),
        }),
        engine_step_view(EngineStepOf::Reply { result: Err(name) }) == (EngineStepOf::Reply {
            result: Err::<Seq<char>, Seq<char>>(name@),
        }),
        engine_step_view(
            EngineStepOf::Perform { action: EngineActionOf::AwaitTurn, phase },
        ) == (EngineStepOf::<Seq<char>>::Perform { action: EngineActionOf::AwaitTurn, phase }),
{
}

/// Whether a transcription waits for what comes of this action.
spec fn engine_waits(action: EngineActionView, phase: EnginePhase) -> bool {
    match phase {
        EnginePhase::Settings => action is LoadTranscriptConfig,
        EnginePhase::Turn { .. } => action is AwaitTurn,
        EnginePhase::Loaded { .. } => action is IsModelLoaded,
        EnginePhase::Models { .. } => action is DiscoverModels,
        EnginePhase::Loading { .. } => action is LoadModel,
        EnginePhase::Text => action is Transcribe,
    }
}

proof fn lemma_engine_waits(language: Option<Seq<char>>, outcomes: Seq<OutcomeView>)
    requires
        transcription_gets(language, outcomes),
    ensures
        transcription_after(language, outcomes) matches EngineStepOf::Perform { action, phase }
            ==> engine_waits(action, phase),
    decreases outcomes.len(),
{
    if outcomes.len() > 0 {
        lemma_engine_waits(language, outcomes.drop_last());
    }
}

/// Whatever an action of a transcription can bring is taken.
pub proof fn engine_outcomes_are_taken(
    language: Option<Seq<char>>,
    outcomes: Seq<OutcomeView>,
    outcome: OutcomeView,
)
    requires
        transcription_gets(language, outcomes),
    ensures
        transcription_after(language, outcomes) matches EngineStepOf::Perform { action, phase } ==> match action {
            EngineActionOf::LoadTranscriptConfig => outcome is MaybeValue || outcome is Failed,
            EngineActionOf::AwaitTurn => outcome is Done || outcome is Failed,
            EngineActionOf::IsModelLoaded { .. } => outcome is Flag,
            EngineActionOf::DiscoverModels { .. } => outcome is Models || outcome is Failed,
            EngineActionOf::LoadModel { .. } => outcome is Done || outcome is Failed,
            EngineActionOf::Transcribe { .. } => outcome is Text || outcome is Failed,
        } == engine_fits(phase, outcome),
{
    lemma_engine_waits(language, outcomes);
}

/// A transcription that fails says why: whatever fails but the reading of the settings ends
/// it, with its reason.
pub proof fn failed_transcriptions_say_why(
    language: Option<Seq<char>>,
    outcomes: Seq<OutcomeView>,
    error: Seq<char>,
)
    requires
        outcomes.len() > 0,
        transcription_gets(language, outcomes),
        outcomes.last() == (OutcomeView::Failed { error }),
    ensures
        if outcomes.len() == 1 {
            transcription_after(language, outcomes) matches EngineStepOf::Perform { action, phase }
                && action is AwaitTurn && phase == (EnginePhase::Turn { engine: Engine::Parakeet })
        } else if outcomes.len() == 2 {
            engine_answers(
                transcription_after(language, outcomes),
                Err("transcription queue closed: "@ + error),
            )
        } else {
            engine_answers(transcription_after(language, outcomes), Err(error))
        },
{
    lemma_engine_lengths(language, outcomes.drop_last());
}

proof fn lemma_engine_lengths(language: Option<Seq<char>>, outcomes: Seq<OutcomeView>)
    requires
        transcription_gets(language, outcomes),
    ensures
        transcription_after(language, outcomes) matches EngineStepOf::Perform { phase, .. } ==> {
            &&& phase is Settings <==> outcomes.len() == 0
            &&& phase is Turn <==> outcomes.len() == 1
        },
    decreases outcomes.len(),
{
    if outcomes.len() > 0 {
        lemma_engine_lengths(language, outcomes.drop_last());
    }
}

} // verus!
