use handy::{
    feedback_timing, recording_start_step, selection_read_step, FeedbackTiming,
    RecordingStartAction, SelectionStart, llm_reply_text, plan_llm_call, recording_error_type, selection_step, voice_step,
    CustomHotkeyPrompt, CustomPromptAction, LlmCallPlan, PostProcessProvider,
    PostProcessSettings, PromptMode, PromptSettings, SelectionAction, SettingEntry, StartPlan,
    StopPlan, VoiceAction, VoiceEvent, VoiceStage,
};

fn prompt(id: &str, name: &str, text: &str, mode: PromptMode) -> CustomHotkeyPrompt {
    CustomHotkeyPrompt {
        id: id.to_string(),
        name: name.to_string(),
        hotkey: format!("ctrl+{}", id),
        prompt_text: text.to_string(),
        mode,
    }
}

fn settings() -> PromptSettings {
    PromptSettings {
        bindings: vec![],
        custom_hotkey_prompts: vec![
            prompt("p1", "Fix", "Fix: ${output}", PromptMode::Selection),
            prompt("p2", "Say", "Say: ${output}", PromptMode::Voice),
        ],
    }
}

fn entry(k: &str, v: &str) -> SettingEntry {
    SettingEntry { key: k.to_string(), value: v.to_string() }
}

fn provider(id: &str) -> Option<PostProcessProvider> {
    Some(PostProcessProvider {
        id: id.to_string(),
        base_url: "https://example/v1".to_string(),
        additional_url: None,
    })
}

fn pp(id: &str, model: &str) -> PostProcessSettings {
    PostProcessSettings::new(
        provider(id),
        vec![entry("other", "x"), entry(id, model)],
        vec![entry(id, "secret")],
    )
    .unwrap()
}

#[test]
fn start_and_stop_by_mode() {
    let s = settings();
    let a = CustomPromptAction;
    assert!(matches!(a.plan_start(&s, "custom_prompt_p1"), StartPlan::CaptureSelection(p) if p.name == "Fix"));
    assert!(matches!(a.plan_start(&s, "custom_prompt_p2"), StartPlan::StartRecording(p) if p.name == "Say"));
    assert!(matches!(a.plan_start(&s, "custom_prompt_p3"), StartPlan::PromptNotFound));
    assert!(matches!(a.plan_start(&s, "p1"), StartPlan::PromptNotFound));
    assert!(matches!(a.plan_stop(&s, "custom_prompt_p1"), StopPlan::NotRecording));
    assert!(matches!(a.plan_stop(&s, "custom_prompt_p2"), StopPlan::FinishRecording(p) if p.name == "Say"));
    assert!(matches!(a.plan_stop(&s, "transcribe"), StopPlan::PromptNotFound));
}

#[test]
fn remote_call_with_reasoning_off() {
    let p = prompt("p1", "Fix", "Fix: ${output} and ${output}", PromptMode::Selection);
    match plan_llm_call(&pp("custom", " llama3 "), &p, "hi", false) {
        LlmCallPlan::Remote(c) => {
            assert_eq!(c.prompt, "Fix: hi and hi");
            assert_eq!(c.model, " llama3 ");
            assert_eq!(c.api_key, "secret");
            assert_eq!(c.provider.id, "custom");
            assert_eq!(c.reasoning_effort.as_deref(), Some("none"));
            assert!(c.reasoning.is_none());
        }
        _ => panic!("expected a remote call"),
    }
    match plan_llm_call(&pp("openrouter", "m"), &p, "hi", false) {
        LlmCallPlan::Remote(c) => {
            assert!(c.reasoning_effort.is_none());
            let r = c.reasoning.unwrap();
            assert_eq!(r.effort.as_deref(), Some("none"));
            assert_eq!(r.exclude, Some(true));
        }
        _ => panic!("expected a remote call"),
    }
    match plan_llm_call(&pp("openai", "m"), &p, "hi", false) {
        LlmCallPlan::Remote(c) => {
            assert!(c.reasoning_effort.is_none());
            assert!(c.reasoning.is_none());
        }
        _ => panic!("expected a remote call"),
    }
}

#[test]
fn skipped_calls() {
    let p = prompt("p1", "Fix", "Fix: ${output}", PromptMode::Selection);
    let none = PostProcessSettings::new(None, vec![], vec![]).unwrap();
    assert!(matches!(plan_llm_call(&none, &p, "x", true), LlmCallPlan::Skip));
    assert!(matches!(plan_llm_call(&pp("openai", "   "), &p, "x", true), LlmCallPlan::Skip));
    let no_model = PostProcessSettings::new(provider("openai"), vec![], vec![]).unwrap();
    assert!(matches!(plan_llm_call(&no_model, &p, "x", true), LlmCallPlan::Skip));
    assert!(matches!(plan_llm_call(&pp("apple_intelligence", "512"), &p, "x", false), LlmCallPlan::Skip));
}

#[test]
fn apple_intelligence_call() {
    let p = prompt("p1", "Fix", "Fix: ${output}", PromptMode::Selection);
    match plan_llm_call(&pp("apple_intelligence", " 512 "), &p, "x", true) {
        LlmCallPlan::AppleIntelligence { prompt, token_limit } => {
            assert_eq!(prompt, "Fix: x");
            assert_eq!(token_limit, 512);
        }
        _ => panic!("expected Apple Intelligence"),
    }
    match plan_llm_call(&pp("apple_intelligence", "default"), &p, "x", true) {
        LlmCallPlan::AppleIntelligence { token_limit, .. } => assert_eq!(token_limit, 0),
        _ => panic!("expected Apple Intelligence"),
    }
}

#[test]
fn instructions_without_placeholder_go_out_unchanged() {
    let p = prompt("p1", "Fix", "Rewrite politely", PromptMode::Selection);
    match plan_llm_call(&pp("openai", "m"), &p, "ignored", false) {
        LlmCallPlan::Remote(c) => assert_eq!(c.prompt, "Rewrite politely"),
        _ => panic!("expected a remote call"),
    }
}

#[test]
fn reply_text() {
    assert_eq!(llm_reply_text(Ok(Some("a".to_string()))).as_deref(), Some("a"));
    assert_eq!(llm_reply_text(Ok(None)), None);
    assert_eq!(llm_reply_text(Err("x".to_string())), None);
}

#[test]
fn recording_errors() {
    assert_eq!(recording_error_type(true, true), "microphone_permission_denied");
    assert_eq!(recording_error_type(false, true), "no_input_device");
    assert_eq!(recording_error_type(false, false), "unknown");
}

#[test]
fn selection_flow() {
    assert!(matches!(selection_step(Some("done".to_string())), SelectionAction::Paste(t) if t == "done"));
    assert!(matches!(selection_step(Some(String::new())), SelectionAction::Nothing));
    assert!(matches!(selection_step(None), SelectionAction::HideOverlay));
}

#[test]
fn voice_flow_with_llm_answer() {
    let (stage, action) =
        voice_step(VoiceStage::Recording, VoiceEvent::RecordingStopped { sample_count: Some(16000) });
    assert!(matches!(action, VoiceAction::Transcribe));
    let (stage, action) = voice_step(stage, VoiceEvent::Transcribed(Ok("hello".to_string())));
    assert!(matches!(action, VoiceAction::CallLlm { ref text } if text == "hello"));
    let (stage, action) = voice_step(stage, VoiceEvent::LlmAnswered(Some("Hello!".to_string())));
    match action {
        VoiceAction::Paste { text, transcript, llm_result } => {
            assert_eq!(text, "Hello!");
            assert_eq!(transcript, "hello");
            assert_eq!(llm_result.as_deref(), Some("Hello!"));
        }
        _ => panic!("expected a paste"),
    }
    assert!(matches!(stage, VoiceStage::Finished));
}

#[test]
fn voice_flow_falls_back_to_transcript() {
    let stage = VoiceStage::Processing { transcript: "plain".to_string() };
    match voice_step(stage, VoiceEvent::LlmAnswered(None)).1 {
        VoiceAction::Paste { text, llm_result, .. } => {
            assert_eq!(text, "plain");
            assert!(llm_result.is_none());
        }
        _ => panic!("expected a paste"),
    }
    let stage = VoiceStage::Processing { transcript: "plain".to_string() };
    assert!(matches!(
        voice_step(stage, VoiceEvent::LlmAnswered(Some(String::new()))).1,
        VoiceAction::HideOverlay
    ));
}

#[test]
fn voice_flow_stops_early() {
    assert!(matches!(
        voice_step(VoiceStage::Recording, VoiceEvent::RecordingStopped { sample_count: None }),
        (VoiceStage::Finished, VoiceAction::HideOverlay)
    ));
    assert!(matches!(
        voice_step(VoiceStage::Recording, VoiceEvent::RecordingStopped { sample_count: Some(0) }),
        (VoiceStage::Finished, VoiceAction::HideOverlay)
    ));
    assert!(matches!(
        voice_step(VoiceStage::Transcribing, VoiceEvent::Transcribed(Ok(String::new()))),
        (VoiceStage::Finished, VoiceAction::HideOverlay)
    ));
    assert!(matches!(
        voice_step(VoiceStage::Transcribing, VoiceEvent::Transcribed(Err("model".to_string()))),
        (VoiceStage::Finished, VoiceAction::HideOverlay)
    ));
    assert!(matches!(
        voice_step(VoiceStage::Finished, VoiceEvent::LlmAnswered(None)),
        (VoiceStage::Finished, VoiceAction::Ignore)
    ));
}

#[test]
fn settings_refuse_a_key_set_twice() {
    assert!(PostProcessSettings::new(provider("a"), vec![entry("a", "m"), entry("a", "n")], vec![]).is_none());
    assert!(PostProcessSettings::new(provider("a"), vec![], vec![entry("b", "1"), entry("b", "2")]).is_none());
    assert!(PostProcessSettings::new(provider("a"), vec![entry("a", "m"), entry("b", "n")], vec![]).is_some());
}

#[test]
fn selection_read() {
    assert!(matches!(selection_read_step(Ok("sel".to_string())), SelectionStart::Process(t) if t == "sel"));
    match selection_read_step(Err("clipboard".to_string())) {
        SelectionStart::Report(ev) => {
            assert_eq!(ev.error_type, "no_selection");
            assert_eq!(ev.detail.as_deref(), Some("No text selected. Select text first, or use Voice mode."));
        }
        _ => panic!("expected a report"),
    }
}

#[test]
fn recording_start() {
    assert!(matches!(recording_start_step(Ok(()), true, true), RecordingStartAction::ListenForCancel));
    match recording_start_step(Err("no device".to_string()), false, true) {
        RecordingStartAction::Abort(ev) => {
            assert_eq!(ev.error_type, "no_input_device");
            assert_eq!(ev.detail.as_deref(), Some("no device"));
        }
        _ => panic!("expected an abort"),
    }
    assert!(matches!(feedback_timing(true), FeedbackTiming::WithStart));
    assert!(matches!(feedback_timing(false), FeedbackTiming::AfterStart));
}
