use handy::{
    check_custom_prompt_hotkey_conflict, create_custom_hotkey_prompt, create_prompt_with_id,
    delete_custom_hotkey_prompt, find_conflict, find_prompt, get_custom_hotkey_prompts,
    prompt_id, prompt_mode_from_name, update_custom_hotkey_prompt, validate_prompt_fields,
    CustomHotkeyPrompt, PromptMode, PromptSettings, ShortcutBinding,
};

fn binding(name: &str, hotkey: &str) -> ShortcutBinding {
    ShortcutBinding { name: name.to_string(), current_binding: hotkey.to_string() }
}

fn prompt(id: &str, name: &str, hotkey: &str, text: &str, mode: PromptMode) -> CustomHotkeyPrompt {
    CustomHotkeyPrompt {
        id: id.to_string(),
        name: name.to_string(),
        hotkey: hotkey.to_string(),
        prompt_text: text.to_string(),
        mode,
    }
}

fn settings() -> PromptSettings {
    PromptSettings {
        bindings: vec![binding("Transcribe", "ctrl+space"), binding("Cancel", "escape")],
        custom_hotkey_prompts: vec![
            prompt("prompt_1", "Fix grammar", "ctrl+g", "Fix: ${output}", PromptMode::Selection),
            prompt("prompt_2", "Translate", "ctrl+t", "Translate: ${output}", PromptMode::Voice),
        ],
    }
}

fn ids(s: &PromptSettings) -> Vec<String> {
    s.custom_hotkey_prompts.iter().map(|p| p.id.clone()).collect()
}

#[test]
fn create_trims_and_appends() {
    let mut s = settings();
    let p = create_prompt_with_id(
        &mut s,
        "  Summarize ".to_string(),
        " ctrl+s ".to_string(),
        "\tSummarize: ${output}\n".to_string(),
        "voice".to_string(),
        "prompt_77".to_string(),
    )
    .unwrap();
    assert_eq!(p.name, "Summarize");
    assert_eq!(p.hotkey, "ctrl+s");
    assert_eq!(p.prompt_text, "Summarize: ${output}");
    assert_eq!(p.mode, PromptMode::Voice);
    assert_eq!(p.id, "prompt_77");
    assert_eq!(ids(&s), vec!["prompt_1", "prompt_2", "prompt_77"]);
    assert_eq!(s.custom_hotkey_prompts[2].name, "Summarize");
}

#[test]
fn create_takes_its_id_from_the_clock() {
    let mut s = settings();
    let before = std::time::SystemTime::now().duration_since(std::time::UNIX_EPOCH).unwrap().as_millis() as i64;
    let p = create_custom_hotkey_prompt(
        &mut s,
        "Summarize".to_string(),
        "ctrl+s".to_string(),
        "Sum: ${output}".to_string(),
        "selection".to_string(),
    )
    .unwrap();
    let after = std::time::SystemTime::now().duration_since(std::time::UNIX_EPOCH).unwrap().as_millis() as i64;
    let millis: i64 = p.id.strip_prefix("prompt_").unwrap().parse().unwrap();
    assert!(before <= millis && millis <= after);
    assert_eq!(s.custom_hotkey_prompts.len(), 3);
}

#[test]
fn create_refusals_in_order() {
    let cases = [
        (" ", "ctrl+s", "x", "voice", "Prompt name is required"),
        ("A", "  ", "x", "voice", "Hotkey is required"),
        ("A", "ctrl+s", "\n", "voice", "Prompt instructions are required"),
        ("A", "ctrl+s", "x", "Voice", "Invalid mode. Must be 'selection' or 'voice'"),
        (" Fix grammar", "ctrl+s", "x", "voice", "A prompt with this name already exists"),
        ("A", "ctrl+space", "x", "voice", "This hotkey is already used by: System shortcut: Transcribe"),
        ("A", "ctrl+t", "x", "voice", "This hotkey is already used by: Custom prompt: Translate"),
    ];
    for (name, hotkey, text, mode, msg) in cases {
        let mut s = settings();
        let r = create_prompt_with_id(
            &mut s,
            name.to_string(),
            hotkey.to_string(),
            text.to_string(),
            mode.to_string(),
            "prompt_9".to_string(),
        );
        assert_eq!(r.err().as_deref(), Some(msg));
        assert_eq!(ids(&s), vec!["prompt_1", "prompt_2"]);
    }
}

#[test]
fn validation_of_fields() {
    assert_eq!(
        validate_prompt_fields(" a ", " b ", " c ", "selection"),
        Ok(("a".to_string(), "b".to_string(), "c".to_string(), PromptMode::Selection))
    );
    assert_eq!(prompt_mode_from_name("voice"), Some(PromptMode::Voice));
    assert_eq!(prompt_mode_from_name("selection"), Some(PromptMode::Selection));
    assert_eq!(prompt_mode_from_name(" voice"), None);
}

#[test]
fn prompt_ids() {
    assert_eq!(prompt_id(1700000000123), "prompt_1700000000123");
    assert_eq!(prompt_id(0), "prompt_0");
    assert_eq!(prompt_id(-5), "prompt_-5");
}

#[test]
fn conflicts() {
    let s = settings();
    assert_eq!(find_conflict(&s, "escape", None), Some("System shortcut: Cancel".to_string()));
    assert_eq!(find_conflict(&s, "ctrl+g", None), Some("Custom prompt: Fix grammar".to_string()));
    assert_eq!(find_conflict(&s, "ctrl+g", Some("prompt_1")), None);
    assert_eq!(find_conflict(&s, "ctrl+x", None), None);
    assert_eq!(
        check_custom_prompt_hotkey_conflict(&s, "ctrl+t".to_string(), Some("prompt_1".to_string())),
        Ok(Some("Custom prompt: Translate".to_string()))
    );
    assert_eq!(
        check_custom_prompt_hotkey_conflict(&s, "ctrl+t".to_string(), Some("prompt_2".to_string())),
        Ok(None)
    );
}

#[test]
fn update_replaces_in_place() {
    let mut s = settings();
    let u = update_custom_hotkey_prompt(
        &mut s,
        "prompt_1".to_string(),
        "Fix grammar".to_string(),
        "ctrl+h".to_string(),
        "Fix better: ${output}".to_string(),
        "voice".to_string(),
    )
    .unwrap();
    assert_eq!(u.prompt.hotkey, "ctrl+h");
    assert_eq!(u.replaced.as_ref().map(|p| p.hotkey.as_str()), Some("ctrl+g"));
    assert_eq!(ids(&s), vec!["prompt_1", "prompt_2"]);
    assert_eq!(s.custom_hotkey_prompts[0].prompt_text, "Fix better: ${output}");
    assert_eq!(s.custom_hotkey_prompts[0].mode, PromptMode::Voice);
}

#[test]
fn update_keeping_hotkey_releases_nothing() {
    let mut s = settings();
    let u = update_custom_hotkey_prompt(
        &mut s,
        "prompt_2".to_string(),
        "Translate to French".to_string(),
        "ctrl+t".to_string(),
        "Translate: ${output}".to_string(),
        "voice".to_string(),
    )
    .unwrap();
    assert!(u.replaced.is_none());
    assert_eq!(s.custom_hotkey_prompts[1].name, "Translate to French");
}

#[test]
fn update_refusals() {
    let mut s = settings();
    let r = update_custom_hotkey_prompt(
        &mut s,
        "prompt_1".to_string(),
        "Translate".to_string(),
        "ctrl+g".to_string(),
        "x".to_string(),
        "voice".to_string(),
    );
    assert_eq!(r.err().as_deref(), Some("A prompt with this name already exists"));
    let r = update_custom_hotkey_prompt(
        &mut s,
        "prompt_1".to_string(),
        "Fix".to_string(),
        "ctrl+t".to_string(),
        "x".to_string(),
        "voice".to_string(),
    );
    assert_eq!(r.err().as_deref(), Some("This hotkey is already used by: Custom prompt: Translate"));
    let r = update_custom_hotkey_prompt(
        &mut s,
        "prompt_9".to_string(),
        "New".to_string(),
        "ctrl+n".to_string(),
        "x".to_string(),
        "voice".to_string(),
    );
    assert_eq!(r.err().as_deref(), Some("Prompt not found"));
    assert_eq!(s.custom_hotkey_prompts[0].hotkey, "ctrl+g");
}

#[test]
fn delete_removes_and_reports() {
    let mut s = settings();
    let removed = delete_custom_hotkey_prompt(&mut s, "prompt_1".to_string()).unwrap();
    assert_eq!(removed.name, "Fix grammar");
    assert_eq!(ids(&s), vec!["prompt_2"]);
    let r = delete_custom_hotkey_prompt(&mut s, "prompt_1".to_string());
    assert_eq!(r.err().as_deref(), Some("Prompt not found"));
    assert_eq!(ids(&s), vec!["prompt_2"]);
}

#[test]
fn delete_removes_every_prompt_with_the_id() {
    let mut s = settings();
    s.custom_hotkey_prompts.push(prompt("prompt_1", "Other", "ctrl+o", "x", PromptMode::Voice));
    let removed = delete_custom_hotkey_prompt(&mut s, "prompt_1".to_string()).unwrap();
    assert_eq!(removed.name, "Fix grammar");
    assert_eq!(ids(&s), vec!["prompt_2"]);
}

#[test]
fn delete_undoes_create() {
    let mut s = settings();
    let created = create_prompt_with_id(
        &mut s,
        "New".to_string(),
        "ctrl+n".to_string(),
        "x".to_string(),
        "selection".to_string(),
        "prompt_3".to_string(),
    )
    .unwrap();
    let deleted = delete_custom_hotkey_prompt(&mut s, "prompt_3".to_string()).unwrap();
    assert_eq!(deleted.name, created.name);
    assert_eq!(ids(&s), vec!["prompt_1", "prompt_2"]);
}

#[test]
fn created_prompt_runs_on_its_binding() {
    let mut s = settings();
    create_prompt_with_id(
        &mut s,
        "New".to_string(),
        "ctrl+n".to_string(),
        "x".to_string(),
        "selection".to_string(),
        "prompt_3".to_string(),
    )
    .unwrap();
    let found = find_prompt(&s, "custom_prompt_prompt_3").unwrap();
    assert_eq!(found.name, "New");
    assert!(find_prompt(&s, "prompt_3").is_none());
    assert!(find_prompt(&s, "custom_prompt_prompt_4").is_none());
}

#[test]
fn changes_keep_names_and_hotkeys_distinct() {
    let mut s = settings();
    for (name, hotkey) in [("A", "k1"), ("A", "k2"), ("B", "k1"), ("B", "escape"), ("C", "k3")] {
        let _ = create_prompt_with_id(
            &mut s,
            name.to_string(),
            hotkey.to_string(),
            "x".to_string(),
            "voice".to_string(),
            format!("id_{}_{}", name, hotkey),
        );
    }
    let _ = update_custom_hotkey_prompt(
        &mut s,
        "id_A_k1".to_string(),
        "C".to_string(),
        "k4".to_string(),
        "x".to_string(),
        "voice".to_string(),
    );
    let ps = &s.custom_hotkey_prompts;
    for i in 0..ps.len() {
        for j in (i + 1)..ps.len() {
            assert_ne!(ps[i].name, ps[j].name);
            assert_ne!(ps[i].hotkey, ps[j].hotkey);
        }
        for b in &s.bindings {
            assert_ne!(ps[i].hotkey, b.current_binding);
        }
    }
    assert_eq!(ps.len(), 4);
}

#[test]
fn listing_returns_the_stored_prompts() {
    let s = settings();
    let list = get_custom_hotkey_prompts(&s).unwrap();
    assert_eq!(list.len(), 2);
    assert_eq!(list[1].name, "Translate");
}

#[test]
fn clock_readings_to_millis() {
    assert_eq!(handy::unix_millis(Ok(1_700_000_000_123)), 1_700_000_000_123);
    assert_eq!(handy::unix_millis(Err(250)), -250);
    assert_eq!(handy::unix_millis(Ok(u128::MAX)), i64::MAX);
    assert_eq!(handy::unix_millis(Err(u128::MAX)), i64::MIN);
}

#[test]
fn checks_of_a_new_prompt() {
    let s = settings();
    assert_eq!(
        handy::check_new_prompt(&s, " N ", "k", "t", "voice"),
        Ok(("N".to_string(), "k".to_string(), "t".to_string(), PromptMode::Voice))
    );
    assert_eq!(
        handy::check_new_prompt(&s, "N", "escape", "t", "voice").err().as_deref(),
        Some("This hotkey is already used by: System shortcut: Cancel")
    );
}
