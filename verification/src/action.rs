//! The decisions of the custom prompt shortcut: which prompt a binding runs,
//! what is sent to the LLM and how, and what happens after each step of the
//! selection and voice flows.

use vstd::prelude::*;

use crate::llm::{PostProcessProvider, ReasoningConfig};
use crate::prompts::{
    first_index, has_id, lemma_first_index_at, lemma_first_index_none, CustomHotkeyPrompt,
    PromptMode, PromptSettings, PromptView,
};
use crate::text::{
    parse_i32, parse_i32_str, replace_all, replace_str, str_eq, strip_prefix, trim, trim_str,
};

verus! {

broadcast use vstd::string::group_string_axioms;

/// The prefix that marks a shortcut binding id as that of a custom prompt;
/// the prompt's id follows it.
pub open spec fn custom_prompt_prefix() -> Seq<char> {
    "custom_prompt_"@
}

/// The id of the provider that runs on Apple Intelligence.
pub open spec fn apple_intelligence_provider_id() -> Seq<char> {
    "apple_intelligence"@
}

/// The placeholder in a prompt's instructions that the input text replaces.
pub open spec fn output_placeholder() -> Seq<char> {
    "${output}"@
}

/// The index of the prompt that the binding `binding_id` runs.
pub open spec fn bound_prompt_index(prompts: Seq<PromptView>, binding_id: Seq<char>) -> Option<int> {
    if custom_prompt_prefix().is_prefix_of(binding_id) {
        first_index(prompts, has_id(binding_id.skip(custom_prompt_prefix().len() as int)))
    } else {
        None
    }
}

/// The prompt that the shortcut binding `binding_id` runs: the first whose id
/// follows the custom prompt prefix.
pub fn find_prompt<'a>(settings: &'a PromptSettings, binding_id: &str) -> (r: Option<
    &'a CustomHotkeyPrompt,
>)
    ensures
        match bound_prompt_index(settings@.prompts, binding_id@) {
            Some(i) => r matches Some(p) && *p == settings.custom_hotkey_prompts@[i],
            None => r is None,
        },
{
    let prompt_id = match strip_prefix(binding_id, "custom_prompt_") {
        Some(id) => id,
        None => return None,
    };
    let ghost s = settings@;
    let ghost f = has_id(prompt_id@);
    let n = settings.custom_hotkey_prompts.len();
    for i in 0..n
        invariant
            n == s.prompts.len(),
            s == settings@,
            f == has_id(prompt_id@),
            bound_prompt_index(s.prompts, binding_id@) == first_index(s.prompts, f),
            forall|j: int| 0 <= j < i ==> !f(#[trigger] s.prompts[j]),
    {
        if str_eq(settings.custom_hotkey_prompts[i].id.as_str(), prompt_id.as_str()) {
            proof {
                lemma_first_index_at(s.prompts, f, i as int);
            }
            return Some(&settings.custom_hotkey_prompts[i]);
        }
    }
    proof {
        lemma_first_index_none(s.prompts, f);
    }
    None
}

/// A value kept in the settings under a key (a model name or an API key per provider).
pub struct SettingEntry {
    pub key: String,
    pub value: String,
}

/// What the LLM call of a custom prompt reads from the settings: the active
/// post-processing provider, and the model and API key set for each provider,
/// each provider's id at most once, as in a map.
pub struct PostProcessSettings {
    provider: Option<PostProcessProvider>,
    models: Vec<SettingEntry>,
    api_keys: Vec<SettingEntry>,
}

/// Whether no two entries share a key.
pub open spec fn keys_distinct(entries: Seq<SettingEntry>) -> bool {
    forall|i: int, j: int|
        0 <= i < j < entries.len() ==> (#[trigger] entries[i]).key@ != (#[trigger] entries[j]).key@
}

/// Whether no two entries of `entries` share a key.
fn entries_have_distinct_keys(entries: &Vec<SettingEntry>) -> (r: bool)
    ensures
        r == keys_distinct(entries@),
{
    let n = entries.len();
    for i in 0..n
        invariant
            n == entries@.len(),
            forall|a: int, b: int| 0 <= a < i && a < b < n ==> (#[trigger] entries@[a]).key@ != (
            #[trigger] entries@[b]).key@,
    {
        for j in i + 1..n
            invariant
                n == entries@.len(),
                i < n,
                forall|a: int, b: int| 0 <= a < i && a < b < n ==> (#[trigger] entries@[a]).key@ != (
                #[trigger] entries@[b]).key@,
                forall|b: int| i < b < j ==> entries@[i as int].key@ != (#[trigger] entries@[b]).key@,
        {
            if str_eq(entries[i].key.as_str(), entries[j].key.as_str()) {
                return false;
            }
        }
    }
    true
}

impl PostProcessSettings {
    #[verifier::type_invariant]
    spec fn each_key_once(self) -> bool {
        keys_distinct(self.models@) && keys_distinct(self.api_keys@)
    }

    /// The active post-processing provider.
    pub closed spec fn active_provider(self) -> Option<PostProcessProvider> {
        self.provider
    }

    /// The model set for each provider.
    pub closed spec fn model_entries(self) -> Seq<SettingEntry> {
        self.models@
    }

    /// The API key set for each provider.
    pub closed spec fn api_key_entries(self) -> Seq<SettingEntry> {
        self.api_keys@
    }

    /// The settings with these values, where neither list holds a key twice.
    pub fn new(
        provider: Option<PostProcessProvider>,
        models: Vec<SettingEntry>,
        api_keys: Vec<SettingEntry>,
    ) -> (r: Option<PostProcessSettings>)
        ensures
            r is Some <==> keys_distinct(models@) && keys_distinct(api_keys@),
            r matches Some(s) ==> s.active_provider() == provider && s.model_entries() == models@
                && s.api_key_entries() == api_keys@,
    {
        if entries_have_distinct_keys(&models) && entries_have_distinct_keys(&api_keys) {
            Some(PostProcessSettings { provider, models, api_keys })
        } else {
            None
        }
    }
}

/// Whether an entry has key `key`.
pub open spec fn has_key(key: Seq<char>) -> spec_fn(SettingEntry) -> bool {
    |e: SettingEntry| e.key@ == key
}

/// The value kept under `key`, or the empty text where there is none: the
/// first entry with the key, which is the only one where keys are distinct.
pub open spec fn setting_value(entries: Seq<SettingEntry>, key: Seq<char>) -> Seq<char> {
    match first_index(entries, has_key(key)) {
        Some(i) => entries[i].value@,
        None => Seq::empty(),
    }
}

/// A request to an OpenAI-compatible provider, ready to send.
pub struct RemoteCall {
    pub provider: PostProcessProvider,
    pub api_key: String,
    pub model: String,
    pub prompt: String,
    pub reasoning_effort: Option<String>,
    pub reasoning: Option<ReasoningConfig>,
}

/// How the LLM step of a custom prompt runs, or that it is skipped.
pub enum LlmCallPlan {
    Skip,
    AppleIntelligence { prompt: String, token_limit: i32 },
    Remote(RemoteCall),
}

/// Whether `c` turns reasoning off the way the provider `id` takes it: as the
/// top-level effort for a custom provider, as the nested object for OpenRouter.
pub open spec fn reasoning_for(c: RemoteCall, id: Seq<char>) -> bool {
    &&& if id == "custom"@ {
        c.reasoning_effort matches Some(e) && e@ == "none"@
    } else {
        c.reasoning_effort is None
    }
    &&& if id == "openrouter"@ {
        c.reasoning matches Some(rc) && rc.effort matches Some(e) && e@ == "none"@ && rc.exclude
            == Some(true)
    } else {
        c.reasoning is None
    }
}

/// Whether `r` is how the LLM step runs for `prompt` on `input`: skipped when no
/// provider is active or it has no model; on Apple Intelligence where that
/// provider is active (skipped where the platform lacks it), with the model
/// read as a token limit; else as a request to the provider.
pub open spec fn llm_plan_is(
    r: LlmCallPlan,
    settings: PostProcessSettings,
    prompt: CustomHotkeyPrompt,
    input: Seq<char>,
    apple_intelligence_supported: bool,
) -> bool {
    match settings.active_provider() {
        None => r is Skip,
        Some(p) => {
            let model = setting_value(settings.model_entries(), p.id@);
            let text = replace_all(prompt.prompt_text@, output_placeholder(), input);
            if trim(model).len() == 0 {
                r is Skip
            } else if p.id@ == apple_intelligence_provider_id() {
                if apple_intelligence_supported {
                    r matches LlmCallPlan::AppleIntelligence { prompt: q, token_limit } && q@ == text
                        && token_limit == match parse_i32(trim(model)) {
                        Some(v) => v,
                        None => 0i32,
                    }
                } else {
                    r is Skip
                }
            } else {
                r matches LlmCallPlan::Remote(c) && c.provider == p && c.api_key@ == setting_value(
                    settings.api_key_entries(),
                    p.id@,
                ) && c.model@ == model && c.prompt@ == text && reasoning_for(c, p.id@)
            }
        },
    }
}

/// The value kept under `key`, or an empty string.
fn lookup_setting(entries: &Vec<SettingEntry>, key: &str) -> (r: String)
    ensures
        r@ == setting_value(entries@, key@),
{
    let ghost f = has_key(key@);
    let n = entries.len();
    for i in 0..n
        invariant
            n == entries@.len(),
            f == has_key(key@),
            forall|j: int| 0 <= j < i ==> !f(#[trigger] entries@[j]),
    {
        if str_eq(entries[i].key.as_str(), key) {
            proof {
                lemma_first_index_at(entries@, f, i as int);
            }
            return entries[i].value.clone();
        }
    }
    proof {
        lemma_first_index_none(entries@, f);
    }
    String::new()
}

/// How the LLM step of `prompt` runs on `input_text`.
pub fn plan_llm_call(
    settings: &PostProcessSettings,
    prompt: &CustomHotkeyPrompt,
    input_text: &str,
    apple_intelligence_supported: bool,
) -> (r: LlmCallPlan)
    ensures
        llm_plan_is(r, *settings, *prompt, input_text@, apple_intelligence_supported),
        keys_distinct(settings.model_entries()),
        keys_distinct(settings.api_key_entries()),
{
    proof {
        use_type_invariant(settings);
    }
    let provider = match &settings.provider {
        Some(p) => p.duplicate(),
        None => return LlmCallPlan::Skip,
    };
    let model = lookup_setting(&settings.models, provider.id.as_str());
    let trimmed_model = trim_str(model.as_str());
    if trimmed_model.as_str().is_empty() {
        return LlmCallPlan::Skip;
    }
    let api_key = lookup_setting(&settings.api_keys, provider.id.as_str());
    let processed = replace_str(prompt.prompt_text.as_str(), "${output}", input_text);
    if str_eq(provider.id.as_str(), "apple_intelligence") {
        if apple_intelligence_supported {
            let token_limit = match parse_i32_str(trimmed_model.as_str()) {
                Some(v) => v,
                None => 0,
            };
            return LlmCallPlan::AppleIntelligence { prompt: processed, token_limit };
        } else {
            return LlmCallPlan::Skip;
        }
    }
    let reasoning_effort = if str_eq(provider.id.as_str(), "custom") {
        Some("none".to_owned())
    } else {
        None
    };
    let reasoning = if str_eq(provider.id.as_str(), "openrouter") {
        Some(ReasoningConfig { effort: Some("none".to_owned()), exclude: Some(true) })
    } else {
        None
    };
    LlmCallPlan::Remote(
        RemoteCall { provider, api_key, model, prompt: processed, reasoning_effort, reasoning },
    )
}

/// The text that an LLM reply yields: the content of a successful reply that has one.
pub fn llm_reply_text(reply: Result<Option<String>, String>) -> (r: Option<String>)
    ensures
        r == match reply {
            Ok(Some(c)) => Some(c),
            _ => None::<String>,
        },
{
    match reply {
        Ok(Some(content)) => Some(content),
        _ => None,
    }
}

/// The shortcut action that runs a custom prompt.
pub struct CustomPromptAction;

/// What pressing a custom prompt's shortcut starts. Capturing the selection
/// reads it and goes on by `selection_read_step`; recording loads the model,
/// shows the recording state, starts the recording and goes on by
/// `feedback_timing` and `recording_start_step`.
pub enum StartPlan {
    PromptNotFound,
    CaptureSelection(CustomHotkeyPrompt),
    StartRecording(CustomHotkeyPrompt),
}

/// What releasing a custom prompt's shortcut does. Finishing a recording
/// releases the cancel shortcut, shows the transcribing state, unmutes the
/// output and plays the stop sound, then runs the voice flow in the background.
pub enum StopPlan {
    PromptNotFound,
    NotRecording,
    FinishRecording(CustomHotkeyPrompt),
}

impl CustomPromptAction {
    /// What pressing the shortcut `binding_id` starts: reading the selection or
    /// recording the voice, by the mode of the prompt it runs.
    pub fn plan_start(&self, settings: &PromptSettings, binding_id: &str) -> (r: StartPlan)
        ensures
            match bound_prompt_index(settings@.prompts, binding_id@) {
                Some(i) => match settings.custom_hotkey_prompts@[i].mode {
                    PromptMode::Selection => r == StartPlan::CaptureSelection(
                        settings.custom_hotkey_prompts@[i],
                    ),
                    PromptMode::Voice => r == StartPlan::StartRecording(
                        settings.custom_hotkey_prompts@[i],
                    ),
                },
                None => r is PromptNotFound,
            },
    {
        match find_prompt(settings, binding_id) {
            None => StartPlan::PromptNotFound,
            Some(p) => match p.mode {
                PromptMode::Selection => StartPlan::CaptureSelection(p.duplicate()),
                PromptMode::Voice => StartPlan::StartRecording(p.duplicate()),
            },
        }
    }

    /// What releasing the shortcut `binding_id` does: only a voice prompt has a
    /// recording to finish.
    pub fn plan_stop(&self, settings: &PromptSettings, binding_id: &str) -> (r: StopPlan)
        ensures
            match bound_prompt_index(settings@.prompts, binding_id@) {
                Some(i) => match settings.custom_hotkey_prompts@[i].mode {
                    PromptMode::Selection => r is NotRecording,
                    PromptMode::Voice => r == StopPlan::FinishRecording(
                        settings.custom_hotkey_prompts@[i],
                    ),
                },
                None => r is PromptNotFound,
            },
    {
        match find_prompt(settings, binding_id) {
            None => StopPlan::PromptNotFound,
            Some(p) => match p.mode {
                PromptMode::Selection => StopPlan::NotRecording,
                PromptMode::Voice => StopPlan::FinishRecording(p.duplicate()),
            },
        }
    }
}

/// The kind of a failure to start recording, as the interface reports it.
pub fn recording_error_type(microphone_access_denied: bool, no_input_device: bool) -> (r: String)
    ensures
        r@ == if microphone_access_denied {
            "microphone_permission_denied"@
        } else if no_input_device {
            "no_input_device"@
        } else {
            "unknown"@
        },
{
    if microphone_access_denied {
        "microphone_permission_denied".to_owned()
    } else if no_input_device {
        "no_input_device".to_owned()
    } else {
        "unknown".to_owned()
    }
}

/// A `recording-error` event for the interface: the kind of failure and its detail.
pub struct RecordingErrorEvent {
    pub error_type: String,
    pub detail: Option<String>,
}

/// What follows reading the selection for a selection prompt.
pub enum SelectionStart {
    /// Run the prompt on the selected text in the background.
    Process(String),
    /// Nothing is selected: report this event.
    Report(RecordingErrorEvent),
}

/// What follows reading the selection: the text goes on to the LLM step, and
/// a failed read is reported as `no_selection`.
pub fn selection_read_step(read: Result<String, String>) -> (r: SelectionStart)
    ensures
        match read {
            Ok(text) => r == SelectionStart::Process(text),
            Err(_) => r matches SelectionStart::Report(ev) && ev.error_type@ == "no_selection"@
                && (ev.detail matches Some(d) && d@
                == "No text selected. Select text first, or use Voice mode."@),
        },
{
    match read {
        Ok(text) => SelectionStart::Process(text),
        Err(_) => SelectionStart::Report(
            RecordingErrorEvent {
                error_type: "no_selection".to_owned(),
                detail: Some("No text selected. Select text first, or use Voice mode.".to_owned()),
            },
        ),
    }
}

/// When the start sound plays (and the output is muted) for a voice prompt.
pub enum FeedbackTiming {
    /// At once, beside starting the recording: the microphone is always on.
    WithStart,
    /// Shortly after the recording has started, and only if it did.
    AfterStart,
}

/// When the start sound plays: at once with an always-on microphone, else
/// once the recording has started.
pub fn feedback_timing(always_on_microphone: bool) -> (r: FeedbackTiming)
    ensures
        r == if always_on_microphone {
            FeedbackTiming::WithStart
        } else {
            FeedbackTiming::AfterStart
        },
{
    if always_on_microphone {
        FeedbackTiming::WithStart
    } else {
        FeedbackTiming::AfterStart
    }
}

/// What follows an attempt to start recording for a voice prompt.
pub enum RecordingStartAction {
    /// The recording runs: listen for the cancel shortcut.
    ListenForCancel,
    /// It did not start: hide the overlay, set the tray icon to idle, and
    /// report this event.
    Abort(RecordingErrorEvent),
}

/// What follows an attempt to start recording: listening for the cancel
/// shortcut when it started, else the failure reported by its kind, with the
/// failure's message as detail. The two flags say what the message means.
pub fn recording_start_step(
    started: Result<(), String>,
    microphone_access_denied: bool,
    no_input_device: bool,
) -> (r: RecordingStartAction)
    ensures
        match started {
            Ok(()) => r is ListenForCancel,
            Err(e) => r matches RecordingStartAction::Abort(ev) && ev.error_type@ == if microphone_access_denied {
                "microphone_permission_denied"@
            } else if no_input_device {
                "no_input_device"@
            } else {
                "unknown"@
            } && ev.detail == Some(e),
        },
{
    match started {
        Ok(()) => RecordingStartAction::ListenForCancel,
        Err(e) => RecordingStartAction::Abort(
            RecordingErrorEvent {
                error_type: recording_error_type(microphone_access_denied, no_input_device),
                detail: Some(e),
            },
        ),
    }
}

/// What follows the LLM step of a selection prompt.
pub enum SelectionAction {
    /// Paste the text, then hide the overlay and set the tray icon to idle.
    Paste(String),
    /// Hide the overlay and set the tray icon to idle.
    HideOverlay,
    /// Do nothing more.
    Nothing,
}

/// What follows the LLM step of a selection prompt: a non-empty answer is
/// pasted, an empty one changes nothing, and no answer hides the overlay.
pub open spec fn next_selection(llm_result: Option<String>) -> SelectionAction {
    match llm_result {
        Some(text) => if text@.len() > 0 {
            SelectionAction::Paste(text)
        } else {
            SelectionAction::Nothing
        },
        None => SelectionAction::HideOverlay,
    }
}

/// What follows the LLM step of a selection prompt.
pub fn selection_step(llm_result: Option<String>) -> (r: SelectionAction)
    ensures
        r == next_selection(llm_result),
{
    match llm_result {
        Some(text) => if text.as_str().is_empty() {
            SelectionAction::Nothing
        } else {
            SelectionAction::Paste(text)
        },
        None => SelectionAction::HideOverlay,
    }
}

/// Where the voice flow of a custom prompt stands after its shortcut is released.
pub enum VoiceStage {
    Recording,
    Transcribing,
    Processing { transcript: String },
    Finished,
}

/// What the outside work of the voice flow reports back.
pub enum VoiceEvent {
    /// The recording stopped, with this many samples, or none at all.
    RecordingStopped { sample_count: Option<usize> },
    /// The transcription finished, with the text or a failure.
    Transcribed(Result<String, String>),
    /// The LLM step finished, with its answer if it gave one.
    LlmAnswered(Option<String>),
}

/// What the voice flow asks for next.
pub enum VoiceAction {
    /// Save the recording and transcribe it.
    Transcribe,
    /// Show the processing overlay and run the LLM step on the text.
    CallLlm { text: String },
    /// Paste the text, hide the overlay, and save the transcript with the LLM
    /// answer to the history.
    Paste { text: String, transcript: String, llm_result: Option<String> },
    /// Hide the overlay and set the tray icon to idle.
    HideOverlay,
    /// The event does not belong to this stage.
    Ignore,
}

/// The next stage and action of the voice flow, from its stage and what came back.
pub open spec fn voice_transition(stage: VoiceStage, event: VoiceEvent) -> (VoiceStage, VoiceAction) {
    match (stage, event) {
        (VoiceStage::Recording, VoiceEvent::RecordingStopped { sample_count }) => match sample_count {
            Some(n) if n > 0 => (VoiceStage::Transcribing, VoiceAction::Transcribe),
            _ => (VoiceStage::Finished, VoiceAction::HideOverlay),
        },
        (VoiceStage::Transcribing, VoiceEvent::Transcribed(result)) => match result {
            Ok(text) => if text@.len() > 0 {
                (VoiceStage::Processing { transcript: text }, VoiceAction::CallLlm { text })
            } else {
                (VoiceStage::Finished, VoiceAction::HideOverlay)
            },
            Err(_) => (VoiceStage::Finished, VoiceAction::HideOverlay),
        },
        (VoiceStage::Processing { transcript }, VoiceEvent::LlmAnswered(llm_result)) => {
            let text = match llm_result {
                Some(t) => t,
                None => transcript,
            };
            if text@.len() > 0 {
                (VoiceStage::Finished, VoiceAction::Paste { text, transcript, llm_result })
            } else {
                (VoiceStage::Finished, VoiceAction::HideOverlay)
            }
        },
        (s, _) => (s, VoiceAction::Ignore),
    }
}

/// One step of the voice flow: where it goes and what it asks for.
pub fn voice_step(stage: VoiceStage, event: VoiceEvent) -> (r: (VoiceStage, VoiceAction))
    ensures
        r == voice_transition(stage, event),
{
    match (stage, event) {
        (VoiceStage::Recording, VoiceEvent::RecordingStopped { sample_count }) => match sample_count {
            Some(n) => if n > 0 {
                (VoiceStage::Transcribing, VoiceAction::Transcribe)
            } else {
                (VoiceStage::Finished, VoiceAction::HideOverlay)
            },
            None => (VoiceStage::Finished, VoiceAction::HideOverlay),
        },
        (VoiceStage::Transcribing, VoiceEvent::Transcribed(result)) => match result {
            Ok(text) => if text.as_str().is_empty() {
                (VoiceStage::Finished, VoiceAction::HideOverlay)
            } else {
                let transcript = text.clone();
                (VoiceStage::Processing { transcript }, VoiceAction::CallLlm { text })
            },
            Err(_) => (VoiceStage::Finished, VoiceAction::HideOverlay),
        },
        (VoiceStage::Processing { transcript }, VoiceEvent::LlmAnswered(llm_result)) => {
            let text = match &llm_result {
                Some(t) => t.clone(),
                None => transcript.clone(),
            };
            if text.as_str().is_empty() {
                (VoiceStage::Finished, VoiceAction::HideOverlay)
            } else {
                (VoiceStage::Finished, VoiceAction::Paste { text, transcript, llm_result })
            }
        },
        (s, _) => (s, VoiceAction::Ignore),
    }
}

} // verus!
