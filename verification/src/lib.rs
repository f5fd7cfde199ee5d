//! Verified core of the custom hotkey prompt feature and of the
//! OpenAI-compatible LLM client of the Handy dictation app.
//!
//! The library decides; the host performs. It holds the rules of custom
//! prompts (`prompts`), the decisions of the shortcut that runs them
//! (`action`), the requests and replies of the LLM client (`llm`), the text
//! operations they rest on (`text`), and the properties that hold across
//! calls (`laws`).

mod action;
pub mod laws;
mod llm;
mod prompts;
mod text;

pub use action::{
    feedback_timing, find_prompt, llm_reply_text, plan_llm_call, recording_error_type,
    recording_start_step, selection_read_step, selection_step, voice_step, FeedbackTiming,
    RecordingErrorEvent, RecordingStartAction, SelectionStart,
    CustomPromptAction, LlmCallPlan, PostProcessSettings, RemoteCall, SelectionAction, SettingEntry,
    StartPlan, StopPlan, VoiceAction, VoiceEvent, VoiceStage,
};
pub use llm::{
    after_chat_attempt, after_models_attempt, after_primary_attempt, build_headers, chat_parse_error, chat_status_error,
    chat_transport_error, create_client, create_client_with_timeout, endpoint,
    extract_model_ids, first_choice_content, has_fallback, models_parse_error,
    models_status_error, models_transport_error, plan_chat_completion, plan_fetch_models,
    plan_fetch_models_from_url, AttemptNext, ChatChoice, ChatCompletionPlan,
    ChatCompletionRequest, ChatCompletionResponse, ChatMessage, ChatMessageResponse,
    ClientSettings, HttpHeader, JsonMember, JsonSchema, JsonValue, ModelsPlan,
    PostProcessProvider, ReasoningConfig, ResponseFormat, Timeouts,
};
pub use prompts::{
    check_custom_prompt_hotkey_conflict, check_new_prompt, create_custom_hotkey_prompt,
    create_prompt_with_id, unix_millis,
    delete_custom_hotkey_prompt, find_conflict, get_custom_hotkey_prompts, prompt_id,
    prompt_mode_from_name, update_custom_hotkey_prompt, validate_prompt_fields,
    CustomHotkeyPrompt, PromptMode, PromptSettings, PromptUpdate, ShortcutBinding,
};
pub use text::{
    char_is_whitespace, decimal_i64, parse_i32_str, replace_str, starts_with, str_eq,
    strip_prefix, trim_end_matches_char, trim_str,
};
