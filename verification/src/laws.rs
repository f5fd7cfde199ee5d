//! Properties that hold across calls and for every input: what every change
//! to the stored prompts keeps, what one change undoes of another, what each
//! step of the flows does, and what the requests carry.

use vstd::prelude::*;

use crate::action::{
    llm_plan_is, next_selection, output_placeholder, setting_value, voice_transition, LlmCallPlan,
    PostProcessSettings, SelectionAction, VoiceAction, VoiceEvent, VoiceStage,
};
use crate::llm::{
    chat_connection_prefix, chat_plan_is, client_built, entry_model, has_fallback_url, header,
    header_value_ok, headers_for, headers_view, json_get, message_view, model_ids,
    models_connection_prefix, models_plan_is, next_attempt, reply_content, string_entry,
    AttemptNext, ChatCompletionPlan, ChatCompletionResponse, ChatMessage, ClientSettings,
    HeaderView, JsonValue, ModelsPlan, PostProcessProvider, ReasoningConfig,
};
use crate::prompts::{
    conflict_of, create_applied, create_outcome, delete_applied, first_index, has_id,
    keeps_unless_id, lemma_first_index, lemma_first_index_at, name_taken, prompt_id_for,
    signed_millis, update_applied, update_outcome, validate_fields, BindingView,
    CustomHotkeyPrompt, PromptFields, PromptMode, PromptSettings, PromptView, SettingsView,
    ShortcutBinding,
};
use crate::text::{
    all_digits, decimal, digit_char, digits_value, is_digit, is_whitespace, lemma_replace_absent,
    lemma_trim_idempotent, occurs_nowhere, parse_i32, replace_all, signed_decimal, trim, trim_end,
    trim_end_char, trim_start,
};

verus! {

/// No two prompts share a name or a hotkey, and no prompt uses the hotkey of a
/// system shortcut.
pub open spec fn prompts_consistent(ps: Seq<CustomHotkeyPrompt>, bs: Seq<ShortcutBinding>) -> bool {
    &&& forall|i: int, j: int|
        0 <= i < j < ps.len() ==> (#[trigger] ps[i]).name@ != (#[trigger] ps[j]).name@
    &&& forall|i: int, j: int|
        0 <= i < j < ps.len() ==> (#[trigger] ps[i]).hotkey@ != (#[trigger] ps[j]).hotkey@
    &&& forall|i: int, k: int|
        0 <= i < ps.len() && 0 <= k < bs.len() ==> (#[trigger] ps[i]).hotkey@ != (
        #[trigger] bs[k]).current_binding@
}

/// The stored prompts agree with one another and with the system shortcuts.
pub open spec fn settings_consistent(s: PromptSettings) -> bool {
    prompts_consistent(s.custom_hotkey_prompts@, s.bindings@)
}

/// No two stored prompts share an id.
pub open spec fn ids_distinct(s: PromptSettings) -> bool {
    forall|i: int, j: int|
        0 <= i < j < s.custom_hotkey_prompts@.len() ==> (#[trigger] s.custom_hotkey_prompts@[i]).id@
            != (#[trigger] s.custom_hotkey_prompts@[j]).id@
}

/// Creating a prompt keeps the stored prompts consistent: the new prompt's
/// name is not taken and its hotkey is free.
pub proof fn law_create_keeps_settings_consistent(
    old: PromptSettings,
    new: PromptSettings,
    r: Result<CustomHotkeyPrompt, String>,
    name: Seq<char>,
    hotkey: Seq<char>,
    prompt_text: Seq<char>,
    mode: Seq<char>,
    id: Seq<char>,
)
    requires
        settings_consistent(old),
        create_applied(old, new, r, name, hotkey, prompt_text, mode, id),
    ensures
        settings_consistent(new),
{
    if let Ok(p) = create_outcome(old@, name, hotkey, prompt_text, mode, id) {
        let f = validate_fields(name, hotkey, prompt_text, mode)->Ok_0;
        let q = r->Ok_0;
        let ps = old.custom_hotkey_prompts@;
        let bs = old.bindings@;
        let fb = |b: BindingView| b.current_binding == f.hotkey;
        let fp = |v: PromptView| None::<Seq<char>> != Some(v.id) && v.hotkey == f.hotkey;
        lemma_first_index(old@.bindings, fb);
        lemma_first_index(old@.prompts, fp);
        assert forall|i: int| 0 <= i < ps.len() implies (#[trigger] ps[i]).name@ != q.name@
            && ps[i].hotkey@ != q.hotkey@ by {
            assert(old@.prompts[i] == ps[i]@);
            assert(!fp(old@.prompts[i]));
            if ps[i].name@ == q.name@ {
                assert(old@.prompts[i].name == f.name);
                assert(name_taken(old@, f.name, None));
            }
        }
        assert forall|k: int| 0 <= k < bs.len() implies q.hotkey@ != (
        #[trigger] bs[k]).current_binding@ by {
            assert(old@.bindings[k] == bs[k]@);
            assert(!fb(old@.bindings[k]));
        }
        let nps = new.custom_hotkey_prompts@;
        assert(nps == ps.push(q));
        assert forall|i: int, j: int| 0 <= i < j < nps.len() implies (#[trigger] nps[i]).name@
            != (#[trigger] nps[j]).name@ && nps[i].hotkey@ != nps[j].hotkey@ by {
            if j == ps.len() {
                assert(nps[j] == q);
                assert(nps[i] == ps[i]);
            } else {
                assert(nps[i] == ps[i]);
                assert(nps[j] == ps[j]);
            }
        }
        assert forall|i: int, k: int| 0 <= i < nps.len() && 0 <= k < new.bindings@.len() implies (
        #[trigger] nps[i]).hotkey@ != (#[trigger] new.bindings@[k]).current_binding@ by {
            assert(new.bindings@[k] == bs[k]);
            if i < ps.len() {
                assert(nps[i] == ps[i]);
            } else {
                assert(nps[i] == q);
            }
        }
    }
}

/// Editing a prompt keeps the stored prompts consistent, where ids are
/// distinct: the edited name and hotkey clash with no other prompt and no
/// system shortcut. The ids stay distinct.
pub proof fn law_update_keeps_settings_consistent(
    old: PromptSettings,
    new: PromptSettings,
    r: Result<crate::prompts::PromptUpdate, String>,
    id: Seq<char>,
    name: Seq<char>,
    hotkey: Seq<char>,
    prompt_text: Seq<char>,
    mode: Seq<char>,
)
    requires
        settings_consistent(old),
        ids_distinct(old),
        update_applied(old, new, r, id, name, hotkey, prompt_text, mode),
    ensures
        settings_consistent(new),
        ids_distinct(new),
{
    if let Ok((pos, p)) = update_outcome(old@, id, name, hotkey, prompt_text, mode) {
        let f = validate_fields(name, hotkey, prompt_text, mode)->Ok_0;
        let q = r->Ok_0.prompt;
        let ps = old.custom_hotkey_prompts@;
        let bs = old.bindings@;
        let fb = |b: BindingView| b.current_binding == f.hotkey;
        let fp = |v: PromptView| Some(id) != Some(v.id) && v.hotkey == f.hotkey;
        lemma_first_index(old@.bindings, fb);
        lemma_first_index(old@.prompts, fp);
        lemma_first_index(old@.prompts, has_id(id));
        assert(old@.prompts[pos] == ps[pos]@);
        assert(ps[pos].id@ == id);
        assert forall|i: int| 0 <= i < ps.len() && i != pos implies (#[trigger] ps[i]).name@
            != q.name@ && ps[i].hotkey@ != q.hotkey@ && ps[i].id@ != q.id@ by {
            assert(old@.prompts[i] == ps[i]@);
            if i < pos {
                assert(ps[i].id@ != ps[pos].id@);
            } else {
                assert(ps[pos].id@ != ps[i].id@);
            }
            assert(!fp(old@.prompts[i]));
            if ps[i].name@ == q.name@ {
                assert(old@.prompts[i].name == f.name);
                assert(name_taken(old@, f.name, Some(id)));
            }
        }
        assert forall|k: int| 0 <= k < bs.len() implies q.hotkey@ != (
        #[trigger] bs[k]).current_binding@ by {
            assert(old@.bindings[k] == bs[k]@);
            assert(!fb(old@.bindings[k]));
        }
        let nps = new.custom_hotkey_prompts@;
        assert(nps == ps.update(pos, q));
        assert forall|i: int, j: int| 0 <= i < j < nps.len() implies (#[trigger] nps[i]).name@
            != (#[trigger] nps[j]).name@ && nps[i].hotkey@ != nps[j].hotkey@ && nps[i].id@
            != nps[j].id@ by {
            if i == pos {
                assert(nps[i] == q);
                assert(nps[j] == ps[j]);
            } else if j == pos {
                assert(nps[j] == q);
                assert(nps[i] == ps[i]);
            } else {
                assert(nps[i] == ps[i]);
                assert(nps[j] == ps[j]);
            }
        }
        assert forall|i: int, k: int| 0 <= i < nps.len() && 0 <= k < new.bindings@.len() implies (
        #[trigger] nps[i]).hotkey@ != (#[trigger] new.bindings@[k]).current_binding@ by {
            assert(new.bindings@[k] == bs[k]);
            if i == pos {
                assert(nps[i] == q);
            } else {
                assert(nps[i] == ps[i]);
            }
        }
    }
}

/// Whether `g` tells the elements of `s` apart.
pub open spec fn distinct_by<A>(s: Seq<A>, g: spec_fn(A) -> Seq<char>) -> bool {
    forall|i: int, j: int| 0 <= i < j < s.len() ==> g(#[trigger] s[i]) != g(#[trigger] s[j])
}

proof fn lemma_filter_distinct_by<A>(s: Seq<A>, keep: spec_fn(A) -> bool, g: spec_fn(A) -> Seq<char>)
    requires
        distinct_by(s, g),
    ensures
        distinct_by(s.filter(keep), g),
        forall|a: int| 0 <= a < s.filter(keep).len() ==> s.contains(#[trigger] s.filter(keep)[a]),
    decreases s.len(),
{
    if s.len() == 0 {
        reveal(Seq::filter);
    } else {
        let dl = s.drop_last();
        let last = s.last();
        assert(s =~= dl.push(last));
        assert forall|i: int, j: int| 0 <= i < j < dl.len() implies g(#[trigger] dl[i]) != g(
            #[trigger] dl[j],
        ) by {
            assert(dl[i] == s[i] && dl[j] == s[j]);
        }
        lemma_filter_distinct_by(dl, keep, g);
        dl.lemma_filter_push(last, keep);
        let fd = dl.filter(keep);
        let fs = s.filter(keep);
        assert forall|a: int| 0 <= a < fd.len() implies s.contains(#[trigger] fd[a]) && g(fd[a])
            != g(last) by {
            assert(dl.contains(fd[a]));
            let k = choose|k: int| 0 <= k < dl.len() && dl[k] == fd[a];
            assert(s[k] == dl[k]);
            assert(s[s.len() - 1] == last);
        }
        if keep(last) {
            assert(fs == fd.push(last));
            assert forall|i: int, j: int| 0 <= i < j < fs.len() implies g(#[trigger] fs[i]) != g(
                #[trigger] fs[j],
            ) by {
                assert(fs[i] == fd[i]);
                if j < fd.len() {
                    assert(fs[j] == fd[j]);
                } else {
                    assert(fs[j] == last);
                }
            }
            assert forall|a: int| 0 <= a < fs.len() implies s.contains(#[trigger] fs[a]) by {
                if a < fd.len() {
                    assert(fs[a] == fd[a]);
                } else {
                    assert(fs[a] == last);
                    assert(s[s.len() - 1] == last);
                }
            }
        } else {
            assert(fs == fd);
        }
    }
}

/// The name of a prompt.
pub open spec fn name_of(p: CustomHotkeyPrompt) -> Seq<char> {
    p.name@
}

/// The hotkey of a prompt.
pub open spec fn hotkey_of(p: CustomHotkeyPrompt) -> Seq<char> {
    p.hotkey@
}

/// The id of a prompt.
pub open spec fn id_of(p: CustomHotkeyPrompt) -> Seq<char> {
    p.id@
}

/// Deleting prompts keeps the stored prompts consistent: what remains is part
/// of what was there.
pub proof fn law_delete_keeps_settings_consistent(
    old: PromptSettings,
    new: PromptSettings,
    r: Result<CustomHotkeyPrompt, String>,
    id: Seq<char>,
)
    requires
        settings_consistent(old),
        delete_applied(old, new, r, id),
    ensures
        settings_consistent(new),
        ids_distinct(old) ==> ids_distinct(new),
{
    if first_index(old@.prompts, has_id(id)) is Some {
        let ps = old.custom_hotkey_prompts@;
        let keep = keeps_unless_id(id);
        let fs = ps.filter(keep);
        assert(distinct_by(ps, |p: CustomHotkeyPrompt| name_of(p)));
        assert(distinct_by(ps, |p: CustomHotkeyPrompt| hotkey_of(p)));
        lemma_filter_distinct_by(ps, keep, |p: CustomHotkeyPrompt| name_of(p));
        lemma_filter_distinct_by(ps, keep, |p: CustomHotkeyPrompt| hotkey_of(p));
        assert forall|i: int, j: int| 0 <= i < j < fs.len() implies (#[trigger] fs[i]).name@ != (
        #[trigger] fs[j]).name@ && fs[i].hotkey@ != fs[j].hotkey@ by {
            assert(name_of(fs[i]) != name_of(fs[j]));
            assert(hotkey_of(fs[i]) != hotkey_of(fs[j]));
        }
        assert forall|i: int, k: int| 0 <= i < fs.len() && 0 <= k < old.bindings@.len() implies (
        #[trigger] fs[i]).hotkey@ != (#[trigger] old.bindings@[k]).current_binding@ by {
            assert(ps.contains(fs[i]));
            let m = choose|m: int| 0 <= m < ps.len() && ps[m] == fs[i];
            assert(ps[m] == fs[i]);
        }
        if ids_distinct(old) {
            assert(distinct_by(ps, |p: CustomHotkeyPrompt| id_of(p)));
            lemma_filter_distinct_by(ps, keep, |p: CustomHotkeyPrompt| id_of(p));
            assert forall|i: int, j: int| 0 <= i < j < fs.len() implies (#[trigger] fs[i]).id@ != (
            #[trigger] fs[j]).id@ by {
                assert(id_of(fs[i]) != id_of(fs[j]));
            }
        }
    }
}

/// Creating a prompt under an id that no prompt has keeps the ids distinct.
pub proof fn law_create_with_fresh_id_keeps_ids_distinct(
    old: PromptSettings,
    new: PromptSettings,
    r: Result<CustomHotkeyPrompt, String>,
    name: Seq<char>,
    hotkey: Seq<char>,
    prompt_text: Seq<char>,
    mode: Seq<char>,
    id: Seq<char>,
)
    requires
        ids_distinct(old),
        first_index(old@.prompts, has_id(id)) is None,
        create_applied(old, new, r, name, hotkey, prompt_text, mode, id),
    ensures
        ids_distinct(new),
{
    if r is Ok {
        let ps = old.custom_hotkey_prompts@;
        let nps = new.custom_hotkey_prompts@;
        let q = r->Ok_0;
        lemma_first_index(old@.prompts, has_id(id));
        assert forall|i: int, j: int| 0 <= i < j < nps.len() implies (#[trigger] nps[i]).id@ != (
        #[trigger] nps[j]).id@ by {
            assert(nps[i] == ps[i]);
            assert(old@.prompts[i] == ps[i]@);
            assert(!has_id(id)(old@.prompts[i]));
            if j < ps.len() {
                assert(nps[j] == ps[j]);
            } else {
                assert(nps[j] == q);
            }
        }
    }
}

proof fn lemma_filter_keeps_all<A>(s: Seq<A>, keep: spec_fn(A) -> bool)
    requires
        forall|i: int| 0 <= i < s.len() ==> keep(#[trigger] s[i]),
    ensures
        s.filter(keep) == s,
    decreases s.len(),
{
    if s.len() == 0 {
        reveal(Seq::filter);
        assert(s.filter(keep) =~= s);
    } else {
        let dl = s.drop_last();
        assert(s =~= dl.push(s.last()));
        assert forall|i: int| 0 <= i < dl.len() implies keep(#[trigger] dl[i]) by {
            assert(dl[i] == s[i]);
        }
        lemma_filter_keeps_all(dl, keep);
        dl.lemma_filter_push(s.last(), keep);
        assert(keep(s[s.len() - 1]));
    }
}

/// Deleting a prompt just created, under an id that no prompt had, gives back
/// that prompt and leaves the stored prompts as they were before.
pub proof fn law_delete_undoes_create(
    s0: PromptSettings,
    s1: PromptSettings,
    s2: PromptSettings,
    created: Result<CustomHotkeyPrompt, String>,
    deleted: Result<CustomHotkeyPrompt, String>,
    name: Seq<char>,
    hotkey: Seq<char>,
    prompt_text: Seq<char>,
    mode: Seq<char>,
    id: Seq<char>,
)
    requires
        first_index(s0@.prompts, has_id(id)) is None,
        create_applied(s0, s1, created, name, hotkey, prompt_text, mode, id),
        created is Ok,
        delete_applied(s1, s2, deleted, id),
    ensures
        deleted == created,
        s2.custom_hotkey_prompts@ == s0.custom_hotkey_prompts@,
        s2.bindings@ == s0.bindings@,
{
    let ps = s0.custom_hotkey_prompts@;
    let q = created->Ok_0;
    lemma_first_index(s0@.prompts, has_id(id));
    assert forall|i: int| 0 <= i < ps.len() implies keeps_unless_id(id)(#[trigger] ps[i]) by {
        assert(s0@.prompts[i] == ps[i]@);
        assert(!has_id(id)(s0@.prompts[i]));
    }
    let nps = s1.custom_hotkey_prompts@;
    assert(nps == ps.push(q));
    assert forall|j: int| 0 <= j < ps.len() implies !has_id(id)(#[trigger] s1@.prompts[j]) by {
        assert(s1@.prompts[j] == nps[j]@);
        assert(nps[j] == ps[j]);
        assert(s0@.prompts[j] == ps[j]@);
        assert(!has_id(id)(s0@.prompts[j]));
    }
    assert(s1@.prompts[ps.len() as int] == q@);
    lemma_first_index_at(s1@.prompts, has_id(id), ps.len() as int);
    lemma_filter_keeps_all(ps, keeps_unless_id(id));
    ps.lemma_filter_push(q, keeps_unless_id(id));
}

/// A prompt just created, under an id that no prompt had, is the one that its
/// shortcut binding (the custom prompt prefix, then the id) runs.
pub proof fn law_created_prompt_runs_on_its_binding(
    s0: PromptSettings,
    s1: PromptSettings,
    created: Result<CustomHotkeyPrompt, String>,
    name: Seq<char>,
    hotkey: Seq<char>,
    prompt_text: Seq<char>,
    mode: Seq<char>,
    id: Seq<char>,
)
    requires
        first_index(s0@.prompts, has_id(id)) is None,
        create_applied(s0, s1, created, name, hotkey, prompt_text, mode, id),
        created is Ok,
    ensures
        crate::action::bound_prompt_index(s1@.prompts, crate::action::custom_prompt_prefix() + id)
            == Some(s0.custom_hotkey_prompts@.len() as int),
        s1.custom_hotkey_prompts@[s0.custom_hotkey_prompts@.len() as int] == created->Ok_0,
{
    let ps = s0.custom_hotkey_prompts@;
    let q = created->Ok_0;
    let prefix = crate::action::custom_prompt_prefix();
    let binding = prefix + id;
    assert(prefix.is_prefix_of(binding)) by {
        assert(binding.subrange(0, prefix.len() as int) =~= prefix);
    }
    assert(binding.skip(prefix.len() as int) =~= id);
    lemma_first_index(s0@.prompts, has_id(id));
    let nps = s1.custom_hotkey_prompts@;
    assert(nps == ps.push(q));
    assert forall|j: int| 0 <= j < ps.len() implies !has_id(id)(#[trigger] s1@.prompts[j]) by {
        assert(s1@.prompts[j] == nps[j]@);
        assert(nps[j] == ps[j]);
        assert(s0@.prompts[j] == ps[j]@);
        assert(!has_id(id)(s0@.prompts[j]));
    }
    assert(s1@.prompts[ps.len() as int] == q@);
    lemma_first_index_at(s1@.prompts, has_id(id), ps.len() as int);
}


/// The voice flow only asks the LLM about a non-empty transcript, and only
/// pastes non-empty text: the LLM's answer where it gave one, else the transcript.
pub proof fn law_voice_flow_pastes_only_text(stage: VoiceStage, event: VoiceEvent)
    ensures
        match voice_transition(stage, event).1 {
            VoiceAction::CallLlm { text } => text@.len() > 0,
            VoiceAction::Paste { text, transcript, llm_result } => text@.len() > 0 && text
                == match llm_result {
                Some(t) => t,
                None => transcript,
            },
            _ => true,
        },
        voice_transition(stage, event).0 matches VoiceStage::Processing { transcript } ==> (
        transcript@.len() > 0 || voice_transition(stage, event).0 == stage),
{
}

/// The selection flow pastes only a non-empty answer, and leaves the overlay
/// up when the answer is empty.
pub proof fn law_selection_flow_pastes_only_text(llm_result: Option<String>)
    ensures
        match llm_result {
            Some(text) => if text@.len() > 0 {
                next_selection(llm_result) == SelectionAction::Paste(text)
            } else {
                next_selection(llm_result) is Nothing
            },
            None => next_selection(llm_result) is HideOverlay,
        },
{
}

/// A chat request goes on to the fallback URL exactly when the first URL could
/// not be reached and there is a fallback URL; an answer with a failing status
/// or one that cannot be read stands.
pub proof fn law_chat_falls_back_only_when_unreachable(
    e: String,
    detail: Seq<char>,
    status: Seq<char>,
    body: Seq<char>,
    url: String,
)
    ensures
        e@ == "HTTP request failed: "@ + detail ==> next_attempt::<Option<String>>(
            Err(e),
            Some(url),
            chat_connection_prefix(),
        ) == AttemptNext::<Option<String>>::Retry(url),
        e@ == "API request failed with status "@ + status + ": "@ + body ==> next_attempt::<
            Option<String>,
        >(Err(e), Some(url), chat_connection_prefix()) == AttemptNext::<Option<String>>::Finish(
            Err(e),
        ),
        e@ == "Failed to parse API response: "@ + detail ==> next_attempt::<Option<String>>(
            Err(e),
            Some(url),
            chat_connection_prefix(),
        ) == AttemptNext::<Option<String>>::Finish(Err(e)),
        forall|outcome: Result<Option<String>, String>|
            next_attempt(outcome, None, chat_connection_prefix()) == AttemptNext::Finish(outcome),
{
    reveal_strlit("HTTP request failed: ");
    reveal_strlit("HTTP request failed:");
    reveal_strlit("API request failed with status ");
    reveal_strlit("Failed to parse API response: ");
    let p = chat_connection_prefix();
    if e@ == "HTTP request failed: "@ + detail {
        assert(e@.subrange(0, p.len() as int) =~= p);
    }
    if e@ == "API request failed with status "@ + status + ": "@ + body {
        assert(e@[0] != p[0]);
    }
    if e@ == "Failed to parse API response: "@ + detail {
        assert(e@[0] != p[0]);
    }
}

/// A model-list request goes on to the fallback URL exactly when the first URL
/// could not be reached and there is a fallback URL; an answer with a failing
/// status or one that is not JSON stands.
pub proof fn law_models_fall_back_only_when_unreachable(
    e: String,
    detail: Seq<char>,
    status: Seq<char>,
    body: Seq<char>,
    url: String,
)
    ensures
        e@ == "Failed to fetch models: "@ + detail ==> next_attempt::<Vec<String>>(
            Err(e),
            Some(url),
            models_connection_prefix(),
        ) == AttemptNext::<Vec<String>>::Retry(url),
        e@ == "Model list request failed ("@ + status + "): "@ + body ==> next_attempt::<
            Vec<String>,
        >(Err(e), Some(url), models_connection_prefix()) == AttemptNext::<Vec<String>>::Finish(
            Err(e),
        ),
        e@ == "Failed to parse response: "@ + detail ==> next_attempt::<Vec<String>>(
            Err(e),
            Some(url),
            models_connection_prefix(),
        ) == AttemptNext::<Vec<String>>::Finish(Err(e)),
        forall|outcome: Result<Vec<String>, String>|
            next_attempt(outcome, None, models_connection_prefix()) == AttemptNext::Finish(outcome),
{
    reveal_strlit("Failed to fetch models: ");
    reveal_strlit("Failed to fetch models:");
    reveal_strlit("Model list request failed (");
    reveal_strlit("Failed to parse response: ");
    let p = models_connection_prefix();
    if e@ == "Failed to fetch models: "@ + detail {
        assert(e@.subrange(0, p.len() as int) =~= p);
    }
    if e@ == "Model list request failed ("@ + status + "): "@ + body {
        assert(e@[0] != p[0]);
    }
    if e@ == "Failed to parse response: "@ + detail {
        assert(e@[10] != p[10]);
    }
}

/// A request has a fallback URL exactly when its provider has a non-empty
/// additional URL, and exactly then its client has the short timeout: five
/// seconds to connect, ten in all.
pub proof fn law_fallback_comes_with_short_timeout(
    chat: Result<ChatCompletionPlan, String>,
    models: Result<ModelsPlan, String>,
    provider: PostProcessProvider,
    api_key: Seq<char>,
    model: Seq<char>,
    user_content: Seq<char>,
    system_prompt: Option<Seq<char>>,
    json_schema: Option<serde_json::Value>,
    reasoning_effort: Option<String>,
    reasoning: Option<ReasoningConfig>,
)
    requires
        chat_plan_is(
            chat,
            provider,
            api_key,
            model,
            user_content,
            system_prompt,
            json_schema,
            reasoning_effort,
            reasoning,
        ),
        models_plan_is(models, provider, api_key),
    ensures
        chat matches Ok(plan) ==> {
            &&& (plan.fallback_url is Some <==> has_fallback_url(provider))
            &&& (plan.client.timeouts is Some <==> has_fallback_url(provider))
            &&& plan.client.timeouts matches Some(t) ==> t.connect_secs == 5 && t.total_secs == 10
        },
        models matches Ok(plan) ==> {
            &&& (plan.fallback_url is Some <==> has_fallback_url(provider))
            &&& (plan.client.timeouts is Some <==> has_fallback_url(provider))
            &&& plan.client.timeouts matches Some(t) ==> t.connect_secs == 5 && t.total_secs == 10
        },
{
}


/// Checking the fields that a check let through lets them through unchanged:
/// saving a prompt again as it is stored does not change its fields.
pub proof fn law_checked_fields_are_stable(
    name: Seq<char>,
    hotkey: Seq<char>,
    prompt_text: Seq<char>,
    mode: Seq<char>,
)
    requires
        validate_fields(name, hotkey, prompt_text, mode) is Ok,
    ensures
        ({
            let f = validate_fields(name, hotkey, prompt_text, mode)->Ok_0;
            validate_fields(f.name, f.hotkey, f.prompt_text, mode) == Ok::<PromptFields, Seq<char>>(f)
        }),
{
    lemma_trim_idempotent(name);
    lemma_trim_idempotent(hotkey);
    lemma_trim_idempotent(prompt_text);
}

/// Instructions that hold no `${output}` placeholder go to the LLM as they are.
pub proof fn law_instructions_without_placeholder_go_out_unchanged(
    r: LlmCallPlan,
    settings: PostProcessSettings,
    prompt: CustomHotkeyPrompt,
    input: Seq<char>,
    apple_intelligence_supported: bool,
)
    requires
        llm_plan_is(r, settings, prompt, input, apple_intelligence_supported),
        occurs_nowhere(prompt.prompt_text@, output_placeholder()),
    ensures
        r matches LlmCallPlan::Remote(c) ==> c.prompt@ == prompt.prompt_text@,
        r matches LlmCallPlan::AppleIntelligence { prompt: q, .. } ==> q@ == prompt.prompt_text@,
{
    lemma_replace_absent(prompt.prompt_text@, output_placeholder(), input);
}


/// Where no key is set twice, the value read under an entry's key is that
/// entry's value, as a map lookup gives it.
pub proof fn law_setting_value_is_the_value_under_its_key(
    entries: Seq<crate::action::SettingEntry>,
    i: int,
)
    requires
        crate::action::keys_distinct(entries),
        0 <= i < entries.len(),
    ensures
        crate::action::setting_value(entries, entries[i].key@) == entries[i].value@,
{
    let key = entries[i].key@;
    assert forall|j: int| 0 <= j < i implies !crate::action::has_key(key)(#[trigger] entries[j]) by {
        assert(entries[j].key@ != entries[i].key@);
    }
    lemma_first_index_at(entries, crate::action::has_key(key), i);
}


/// Each step of the voice flow, for every input: a recording with samples goes
/// on to transcription and one without samples ends the flow; a non-empty
/// transcript goes to the LLM and an empty or failed one ends the flow; a
/// non-empty LLM answer is pasted as it is, with the transcript and the answer
/// kept for the history, and without an answer the transcript is pasted; an
/// empty text is never pasted; an event that does not belong to the stage
/// changes nothing.
pub proof fn law_voice_steps(
    stage: VoiceStage,
    event: VoiceEvent,
    transcript: String,
    t: String,
    e: String,
    n: usize,
)
    ensures
        n > 0 ==> voice_transition(
            VoiceStage::Recording,
            VoiceEvent::RecordingStopped { sample_count: Some(n) },
        ) == (VoiceStage::Transcribing, VoiceAction::Transcribe),
        voice_transition(
            VoiceStage::Recording,
            VoiceEvent::RecordingStopped { sample_count: Some(0usize) },
        ) == (VoiceStage::Finished, VoiceAction::HideOverlay),
        voice_transition(
            VoiceStage::Recording,
            VoiceEvent::RecordingStopped { sample_count: None },
        ) == (VoiceStage::Finished, VoiceAction::HideOverlay),
        t@.len() > 0 ==> voice_transition(
            VoiceStage::Transcribing,
            VoiceEvent::Transcribed(Ok(t)),
        ) == (VoiceStage::Processing { transcript: t }, VoiceAction::CallLlm { text: t }),
        t@.len() == 0 ==> voice_transition(
            VoiceStage::Transcribing,
            VoiceEvent::Transcribed(Ok(t)),
        ) == (VoiceStage::Finished, VoiceAction::HideOverlay),
        voice_transition(VoiceStage::Transcribing, VoiceEvent::Transcribed(Err(e))) == (
            VoiceStage::Finished,
            VoiceAction::HideOverlay,
        ),
        t@.len() > 0 ==> voice_transition(
            VoiceStage::Processing { transcript },
            VoiceEvent::LlmAnswered(Some(t)),
        ) == (
            VoiceStage::Finished,
            VoiceAction::Paste { text: t, transcript, llm_result: Some(t) },
        ),
        t@.len() == 0 ==> voice_transition(
            VoiceStage::Processing { transcript },
            VoiceEvent::LlmAnswered(Some(t)),
        ) == (VoiceStage::Finished, VoiceAction::HideOverlay),
        transcript@.len() > 0 ==> voice_transition(
            VoiceStage::Processing { transcript },
            VoiceEvent::LlmAnswered(None),
        ) == (
            VoiceStage::Finished,
            VoiceAction::Paste { text: transcript, transcript, llm_result: None },
        ),
        transcript@.len() == 0 ==> voice_transition(
            VoiceStage::Processing { transcript },
            VoiceEvent::LlmAnswered(None),
        ) == (VoiceStage::Finished, VoiceAction::HideOverlay),
        stage is Finished ==> voice_transition(stage, event) == (stage, VoiceAction::Ignore),
        stage is Recording && !(event is RecordingStopped) ==> voice_transition(stage, event) == (
            stage,
            VoiceAction::Ignore,
        ),
        stage is Transcribing && !(event is Transcribed) ==> voice_transition(stage, event) == (
            stage,
            VoiceAction::Ignore,
        ),
        stage is Processing && !(event is LlmAnswered) ==> voice_transition(stage, event) == (
            stage,
            VoiceAction::Ignore,
        ),
{
}

/// The LLM step of a custom prompt, for every input: nothing is called without
/// an active provider or with a blank model; Apple Intelligence gets the
/// instructions with the input in place of `${output}` and the model read as a
/// token limit where the platform has it, and is skipped where it does not;
/// any other provider gets a request whatever its API key, the empty key too,
/// with the key and model stored for it and the same instructions, reasoning
/// turned off as a top-level effort for a custom provider and as the nested
/// object for OpenRouter, and no reasoning field otherwise.
pub proof fn law_llm_step(
    r: LlmCallPlan,
    settings: PostProcessSettings,
    prompt: CustomHotkeyPrompt,
    input: Seq<char>,
    apple_intelligence_supported: bool,
)
    requires
        llm_plan_is(r, settings, prompt, input, apple_intelligence_supported),
    ensures
        settings.active_provider() is None ==> r is Skip,
        settings.active_provider() matches Some(p) ==> {
            let model = setting_value(settings.model_entries(), p.id@);
            let api_key = setting_value(settings.api_key_entries(), p.id@);
            let text = replace_all(prompt.prompt_text@, "${output}"@, input);
            &&& trim(model).len() == 0 ==> r is Skip
            &&& (trim(model).len() > 0 && p.id@ == "apple_intelligence"@
                && apple_intelligence_supported) ==> (r matches LlmCallPlan::AppleIntelligence {
                prompt: q,
                token_limit,
            } && q@ == text && token_limit == match parse_i32(trim(model)) {
                Some(v) => v,
                None => 0i32,
            })
            &&& (p.id@ == "apple_intelligence"@ && !apple_intelligence_supported) ==> r is Skip
            &&& (trim(model).len() > 0 && p.id@ != "apple_intelligence"@) ==> (
            r matches LlmCallPlan::Remote(c) && {
                &&& c.provider == p
                &&& c.api_key@ == api_key
                &&& c.model@ == model
                &&& c.prompt@ == text
                &&& (p.id@ == "custom"@ ==> (c.reasoning_effort matches Some(x) && x@ == "none"@))
                &&& (p.id@ != "custom"@ ==> c.reasoning_effort is None)
                &&& (p.id@ == "openrouter"@ ==> (c.reasoning matches Some(rc) && rc.effort matches Some(x)
                    && x@ == "none"@ && rc.exclude == Some(true)))
                &&& (p.id@ != "openrouter"@ ==> c.reasoning is None)
            })
        },
{
}

/// A planned chat completion request carries what it was given: the model,
/// the system prompt (where there is one) before the user's content, the
/// schema as a strict `json_schema` response format (where there is one), and
/// exactly the reasoning options passed in, so that none of them is added or
/// dropped. It goes to the base URL without trailing slashes followed by
/// `/chat/completions`, and it can always be planned when there is no API key.
pub proof fn law_chat_request_carries_its_arguments(
    r: Result<ChatCompletionPlan, String>,
    provider: PostProcessProvider,
    api_key: Seq<char>,
    model: Seq<char>,
    user_content: Seq<char>,
    system_prompt: Option<Seq<char>>,
    json_schema: Option<serde_json::Value>,
    reasoning_effort: Option<String>,
    reasoning: Option<ReasoningConfig>,
)
    requires
        chat_plan_is(
            r,
            provider,
            api_key,
            model,
            user_content,
            system_prompt,
            json_schema,
            reasoning_effort,
            reasoning,
        ),
    ensures
        api_key.len() == 0 ==> r is Ok,
        r matches Ok(plan) ==> {
            &&& plan.request.reasoning_effort == reasoning_effort
            &&& plan.request.reasoning == reasoning
            &&& plan.request.model@ == model
            &&& plan.primary_url@ == trim_end_char(provider.base_url@, '/') + "/chat/completions"@
            &&& system_prompt is None ==> {
                &&& plan.request.messages@.len() == 1
                &&& plan.request.messages@[0].role@ == "user"@
                &&& plan.request.messages@[0].content@ == user_content
            }
            &&& system_prompt matches Some(sp) ==> {
                &&& plan.request.messages@.len() == 2
                &&& plan.request.messages@[0].role@ == "system"@
                &&& plan.request.messages@[0].content@ == sp
                &&& plan.request.messages@[1].role@ == "user"@
                &&& plan.request.messages@[1].content@ == user_content
            }
            &&& json_schema is None ==> plan.request.response_format is None
            &&& json_schema matches Some(schema) ==> (plan.request.response_format matches Some(f)
                && f.format_type@ == "json_schema"@ && f.json_schema.strict
                && f.json_schema.schema == schema)
        },
{
    if let Ok(plan) = r {
        let ms = plan.request.messages@;
        let views = ms.map_values(|m: ChatMessage| message_view(m));
        assert(views.len() == ms.len());
        if system_prompt is None {
            assert(views[0] == message_view(ms[0]));
        } else {
            assert(views[0] == message_view(ms[0]));
            assert(views[1] == message_view(ms[1]));
        }
    }
}

/// What follows the first attempt of a request, for every outcome: a success
/// always stands, whatever the fallback URL; a failure goes on to the fallback
/// URL exactly when there is one and the failure's message begins with the
/// prefix of an unreachable URL; every other failure stands.
pub proof fn law_first_attempt_outcome<T>(
    v: T,
    e: String,
    fallback_url: Option<String>,
    prefix: Seq<char>,
)
    ensures
        next_attempt(Ok::<T, String>(v), fallback_url, prefix) == AttemptNext::Finish(
            Ok::<T, String>(v),
        ),
        fallback_url is None ==> next_attempt(Err::<T, String>(e), fallback_url, prefix)
            == AttemptNext::<T>::Finish(Err(e)),
        fallback_url matches Some(u) ==> next_attempt(Err::<T, String>(e), fallback_url, prefix)
            == if prefix.is_prefix_of(e@) {
            AttemptNext::<T>::Retry(u)
        } else {
            AttemptNext::<T>::Finish(Err(e))
        },
{
}

/// A prompt that a create request makes has the id it was given, the trimmed
/// name, hotkey and instructions, and the mode that the request names:
/// `selection` makes a selection prompt and `voice` a voice prompt. The same
/// holds of the prompt that an edit puts in place, which keeps the id of the
/// first prompt with that id, at that prompt's position.
pub proof fn law_made_prompt_has_requested_fields(
    s: crate::prompts::SettingsView,
    name: Seq<char>,
    hotkey: Seq<char>,
    prompt_text: Seq<char>,
    mode: Seq<char>,
    id: Seq<char>,
)
    ensures
        create_outcome(s, name, hotkey, prompt_text, mode, id) matches Ok(p) ==> {
            &&& p.id == id
            &&& p.name == trim(name)
            &&& p.hotkey == trim(hotkey)
            &&& p.prompt_text == trim(prompt_text)
            &&& (mode == "selection"@ ==> p.mode == PromptMode::Selection)
            &&& (mode == "voice"@ ==> p.mode == PromptMode::Voice)
            &&& (mode == "selection"@ || mode == "voice"@)
        },
        update_outcome(s, id, name, hotkey, prompt_text, mode) matches Ok((pos, p)) ==> {
            &&& p.id == id
            &&& p.name == trim(name)
            &&& p.hotkey == trim(hotkey)
            &&& p.prompt_text == trim(prompt_text)
            &&& (mode == "selection"@ ==> p.mode == PromptMode::Selection)
            &&& (mode == "voice"@ ==> p.mode == PromptMode::Voice)
            &&& (mode == "selection"@ || mode == "voice"@)
            &&& 0 <= pos < s.prompts.len()
            &&& s.prompts[pos].id == id
            &&& forall|j: int| 0 <= j < pos ==> (#[trigger] s.prompts[j]).id != id
        },
{
    reveal_strlit("selection");
    reveal_strlit("voice");
    assert("selection"@ != "voice"@) by {
        assert("selection"@[0] != "voice"@[0]);
    }
    if update_outcome(s, id, name, hotkey, prompt_text, mode) is Ok {
        lemma_first_index(s.prompts, has_id(id));
        let pos = first_index(s.prompts, has_id(id))->Some_0;
        assert forall|j: int| 0 <= j < pos implies (#[trigger] s.prompts[j]).id != id by {
            assert(!has_id(id)(s.prompts[j]));
        }
    }
}

/// The headers that every request carries, for every provider and key: the
/// content type, referer, user agent and title; then, for a non-empty key,
/// the key and API version as Anthropic takes them, or the key as a bearer
/// token for every other provider; a key that cannot stand in a header is
/// refused with the message of the header it was meant for.
pub proof fn law_request_headers(provider_id: Seq<char>, api_key: Seq<char>)
    ensures
        api_key.len() == 0 ==> headers_for(provider_id, api_key) == Ok::<
            Seq<HeaderView>,
            Seq<char>,
        >(
            seq![
                header("content-type"@, "application/json"@),
                header("referer"@, "https://github.com/cjpais/Handy"@),
                header("user-agent"@, "Handy/1.0 (+https://github.com/cjpais/Handy)"@),
                header("x-title"@, "Handy"@),
            ],
        ),
        api_key.len() > 0 && provider_id == "anthropic"@ && header_value_ok(api_key) ==> headers_for(
            provider_id,
            api_key,
        ) == Ok::<Seq<HeaderView>, Seq<char>>(
            seq![
                header("content-type"@, "application/json"@),
                header("referer"@, "https://github.com/cjpais/Handy"@),
                header("user-agent"@, "Handy/1.0 (+https://github.com/cjpais/Handy)"@),
                header("x-title"@, "Handy"@),
                header("x-api-key"@, api_key),
                header("anthropic-version"@, "2023-06-01"@),
            ],
        ),
        api_key.len() > 0 && provider_id == "anthropic"@ && !header_value_ok(api_key)
            ==> headers_for(provider_id, api_key) == Err::<Seq<HeaderView>, Seq<char>>(
            "Invalid API key header value: "@ + "failed to parse header value"@,
        ),
        api_key.len() > 0 && provider_id != "anthropic"@ && header_value_ok("Bearer "@ + api_key)
            ==> headers_for(provider_id, api_key) == Ok::<Seq<HeaderView>, Seq<char>>(
            seq![
                header("content-type"@, "application/json"@),
                header("referer"@, "https://github.com/cjpais/Handy"@),
                header("user-agent"@, "Handy/1.0 (+https://github.com/cjpais/Handy)"@),
                header("x-title"@, "Handy"@),
                header("authorization"@, "Bearer "@ + api_key),
            ],
        ),
        api_key.len() > 0 && provider_id != "anthropic"@ && !header_value_ok("Bearer "@ + api_key)
            ==> headers_for(provider_id, api_key) == Err::<Seq<HeaderView>, Seq<char>>(
            "Invalid authorization header value: "@ + "failed to parse header value"@,
        ),
{
    let base = seq![
        header("content-type"@, "application/json"@),
        header("referer"@, "https://github.com/cjpais/Handy"@),
        header("user-agent"@, "Handy/1.0 (+https://github.com/cjpais/Handy)"@),
        header("x-title"@, "Handy"@),
    ];
    assert(base + seq![header("x-api-key"@, api_key), header("anthropic-version"@, "2023-06-01"@)]
        =~= seq![
        header("content-type"@, "application/json"@),
        header("referer"@, "https://github.com/cjpais/Handy"@),
        header("user-agent"@, "Handy/1.0 (+https://github.com/cjpais/Handy)"@),
        header("x-title"@, "Handy"@),
        header("x-api-key"@, api_key),
        header("anthropic-version"@, "2023-06-01"@),
    ]);
    assert(base + seq![header("authorization"@, "Bearer "@ + api_key)] =~= seq![
        header("content-type"@, "application/json"@),
        header("referer"@, "https://github.com/cjpais/Handy"@),
        header("user-agent"@, "Handy/1.0 (+https://github.com/cjpais/Handy)"@),
        header("x-title"@, "Handy"@),
        header("authorization"@, "Bearer "@ + api_key),
    ]);
}

/// Where requests go and with which headers: the base URL without trailing
/// slashes followed by `/chat/completions` or `/models`; a fallback URL, built
/// the same way from the additional URL, exactly when the provider has an
/// additional URL that is more than whitespace; and the client's headers are
/// the ones the provider and key call for. A model-list request can always be
/// planned when there is no API key.
pub proof fn law_request_urls_and_headers(
    chat: Result<ChatCompletionPlan, String>,
    models: Result<ModelsPlan, String>,
    provider: PostProcessProvider,
    api_key: Seq<char>,
    model: Seq<char>,
    user_content: Seq<char>,
    system_prompt: Option<Seq<char>>,
    json_schema: Option<serde_json::Value>,
    reasoning_effort: Option<String>,
    reasoning: Option<ReasoningConfig>,
)
    requires
        chat_plan_is(
            chat,
            provider,
            api_key,
            model,
            user_content,
            system_prompt,
            json_schema,
            reasoning_effort,
            reasoning,
        ),
        models_plan_is(models, provider, api_key),
    ensures
        api_key.len() == 0 ==> models is Ok,
        chat is Ok <==> models is Ok,
        chat matches Ok(plan) ==> {
            &&& plan.primary_url@ == trim_end_char(provider.base_url@, '/') + "/chat/completions"@
            &&& (plan.fallback_url is Some <==> (provider.additional_url matches Some(a) && trim(
                a@,
            ).len() > 0))
            &&& plan.fallback_url matches Some(u) ==> u@ == trim_end_char(
                provider.additional_url->Some_0@,
                '/',
            ) + "/chat/completions"@
            &&& Ok::<Seq<HeaderView>, Seq<char>>(headers_view(plan.client.headers@)) == headers_for(
                provider.id@,
                api_key,
            )
        },
        models matches Ok(plan) ==> {
            &&& plan.primary_url@ == trim_end_char(provider.base_url@, '/') + "/models"@
            &&& (plan.fallback_url is Some <==> (provider.additional_url matches Some(a) && trim(
                a@,
            ).len() > 0))
            &&& plan.fallback_url matches Some(u) ==> u@ == trim_end_char(
                provider.additional_url->Some_0@,
                '/',
            ) + "/models"@
            &&& Ok::<Seq<HeaderView>, Seq<char>>(headers_view(plan.client.headers@)) == headers_for(
                provider.id@,
                api_key,
            )
        },
{
}

/// What a hotkey collides with, for every hotkey and every stored state: the
/// first system shortcut bound to it, named as such; else the first custom
/// prompt on it (other than the one excluded), named as such; else nothing.
pub proof fn law_hotkey_conflicts(s: SettingsView, hotkey: Seq<char>, exclude: Option<Seq<char>>)
    ensures
        (exists|k: int| 0 <= k < s.bindings.len() && (#[trigger] s.bindings[k]).current_binding == hotkey)
            ==> exists|k: int|
            0 <= k < s.bindings.len() && (#[trigger] s.bindings[k]).current_binding == hotkey
                && conflict_of(s, hotkey, exclude) == Some("System shortcut: "@ + s.bindings[k].name)
                && forall|k2: int| 0 <= k2 < k ==> (#[trigger] s.bindings[k2]).current_binding != hotkey,
        (forall|k: int| 0 <= k < s.bindings.len() ==> (#[trigger] s.bindings[k]).current_binding != hotkey)
            && (exists|j: int|
            0 <= j < s.prompts.len() && (#[trigger] s.prompts[j]).hotkey == hotkey && exclude != Some(
                s.prompts[j].id,
            )) ==> exists|j: int|
            0 <= j < s.prompts.len() && (#[trigger] s.prompts[j]).hotkey == hotkey && exclude != Some(
                s.prompts[j].id,
            ) && conflict_of(s, hotkey, exclude) == Some("Custom prompt: "@ + s.prompts[j].name),
        (forall|k: int| 0 <= k < s.bindings.len() ==> (#[trigger] s.bindings[k]).current_binding != hotkey)
            && (forall|j: int|
            0 <= j < s.prompts.len() && (#[trigger] s.prompts[j]).hotkey == hotkey ==> exclude == Some(
                s.prompts[j].id,
            )) ==> conflict_of(s, hotkey, exclude) is None,
{
    let fb = |b: BindingView| b.current_binding == hotkey;
    let fp = |p: PromptView| exclude != Some(p.id) && p.hotkey == hotkey;
    lemma_first_index(s.bindings, fb);
    lemma_first_index(s.prompts, fp);
    if exists|k: int| 0 <= k < s.bindings.len() && (#[trigger] s.bindings[k]).current_binding == hotkey {
        let k = choose|k: int| 0 <= k < s.bindings.len() && (#[trigger] s.bindings[k]).current_binding == hotkey;
        assert(fb(s.bindings[k]));
        let k0 = first_index(s.bindings, fb)->Some_0;
        assert forall|k2: int| 0 <= k2 < k0 implies (#[trigger] s.bindings[k2]).current_binding != hotkey by {
            assert(!fb(s.bindings[k2]));
        }
    }
    if (forall|k: int| 0 <= k < s.bindings.len() ==> (#[trigger] s.bindings[k]).current_binding != hotkey) {
        assert forall|k: int| 0 <= k < s.bindings.len() implies !fb(#[trigger] s.bindings[k]) by {}
        if exists|j: int| 0 <= j < s.prompts.len() && (#[trigger] s.prompts[j]).hotkey == hotkey
            && exclude != Some(s.prompts[j].id) {
            let j = choose|j: int| 0 <= j < s.prompts.len() && (#[trigger] s.prompts[j]).hotkey == hotkey
                && exclude != Some(s.prompts[j].id);
            assert(fp(s.prompts[j]));
        } else {
            assert forall|j: int| 0 <= j < s.prompts.len() implies !fp(#[trigger] s.prompts[j]) by {}
        }
    }
}

/// The checks of a create request, in order and for every input: a blank
/// name, hotkey or instruction text, or a mode other than `selection` and
/// `voice`, is refused with its own message; then a name that a stored prompt
/// has; then a hotkey that a system shortcut or a stored prompt uses; every
/// other request succeeds.
pub proof fn law_create_checks(
    s: SettingsView,
    name: Seq<char>,
    hotkey: Seq<char>,
    prompt_text: Seq<char>,
    mode: Seq<char>,
    id: Seq<char>,
)
    ensures
        trim(name).len() == 0 ==> create_outcome(s, name, hotkey, prompt_text, mode, id) == Err::<
            PromptView,
            Seq<char>,
        >("Prompt name is required"@),
        trim(name).len() > 0 && trim(hotkey).len() == 0 ==> create_outcome(
            s,
            name,
            hotkey,
            prompt_text,
            mode,
            id,
        ) == Err::<PromptView, Seq<char>>("Hotkey is required"@),
        trim(name).len() > 0 && trim(hotkey).len() > 0 && trim(prompt_text).len() == 0
            ==> create_outcome(s, name, hotkey, prompt_text, mode, id) == Err::<
            PromptView,
            Seq<char>,
        >("Prompt instructions are required"@),
        trim(name).len() > 0 && trim(hotkey).len() > 0 && trim(prompt_text).len() > 0 && mode
            != "selection"@ && mode != "voice"@ ==> create_outcome(
            s,
            name,
            hotkey,
            prompt_text,
            mode,
            id,
        ) == Err::<PromptView, Seq<char>>("Invalid mode. Must be 'selection' or 'voice'"@),
        trim(name).len() > 0 && trim(hotkey).len() > 0 && trim(prompt_text).len() > 0 && (mode
            == "selection"@ || mode == "voice"@) && (exists|i: int|
            0 <= i < s.prompts.len() && (#[trigger] s.prompts[i]).name == trim(name))
            ==> create_outcome(s, name, hotkey, prompt_text, mode, id) == Err::<
            PromptView,
            Seq<char>,
        >("A prompt with this name already exists"@),
        trim(name).len() > 0 && trim(hotkey).len() > 0 && trim(prompt_text).len() > 0 && (mode
            == "selection"@ || mode == "voice"@) && (forall|i: int|
            0 <= i < s.prompts.len() ==> (#[trigger] s.prompts[i]).name != trim(name)) ==> (
        create_outcome(s, name, hotkey, prompt_text, mode, id) is Ok <==> conflict_of(
            s,
            trim(hotkey),
            None,
        ) is None),
        create_outcome(s, name, hotkey, prompt_text, mode, id) is Err && conflict_of(
            s,
            trim(hotkey),
            None,
        ) is Some && validate_fields(name, hotkey, prompt_text, mode) is Ok && !name_taken(
            s,
            trim(name),
            None,
        ) ==> create_outcome(s, name, hotkey, prompt_text, mode, id) == Err::<
            PromptView,
            Seq<char>,
        >("This hotkey is already used by: "@ + conflict_of(s, trim(hotkey), None)->Some_0),
{
    reveal_strlit("selection");
    reveal_strlit("voice");
    assert("selection"@ != "voice"@) by {
        assert("selection"@[0] != "voice"@[0]);
    }
    if exists|i: int| 0 <= i < s.prompts.len() && (#[trigger] s.prompts[i]).name == trim(name) {
        let i = choose|i: int| 0 <= i < s.prompts.len() && (#[trigger] s.prompts[i]).name == trim(name);
        assert(None::<Seq<char>> != Some(s.prompts[i].id));
    }
}

/// The shortcut binding of a custom prompt is the custom prompt prefix
/// followed by the prompt's id: a binding without the prefix runs no prompt,
/// a binding runs the first prompt whose id follows the prefix, and it runs one
/// whenever some prompt has that id.
pub proof fn law_binding_runs_prompt_with_its_id(ps: Seq<PromptView>, binding_id: Seq<char>)
    ensures
        !("custom_prompt_"@.is_prefix_of(binding_id)) ==> crate::action::bound_prompt_index(
            ps,
            binding_id,
        ) is None,
        crate::action::bound_prompt_index(ps, binding_id) matches Some(i) ==> {
            &&& 0 <= i < ps.len()
            &&& "custom_prompt_"@ + ps[i].id == binding_id
            &&& forall|j: int| 0 <= j < i ==> "custom_prompt_"@ + (#[trigger] ps[j]).id != binding_id
        },
        (exists|j: int| 0 <= j < ps.len() && "custom_prompt_"@ + (#[trigger] ps[j]).id == binding_id)
            ==> crate::action::bound_prompt_index(ps, binding_id) is Some,
{
    let prefix = crate::action::custom_prompt_prefix();
    let n = prefix.len() as int;
    if prefix.is_prefix_of(binding_id) {
        let id = binding_id.skip(n);
        assert(binding_id =~= prefix + id);
        lemma_first_index(ps, has_id(id));
        assert forall|j: int| 0 <= j < ps.len() && "custom_prompt_"@ + (#[trigger] ps[j]).id == binding_id
            implies ps[j].id == id by {
            assert(ps[j].id =~= (prefix + ps[j].id).skip(n));
        }
        if let Some(i) = first_index(ps, has_id(id)) {
            assert forall|j: int| 0 <= j < i implies "custom_prompt_"@ + (#[trigger] ps[j]).id
                != binding_id by {
                assert(!has_id(id)(ps[j]));
            }
        }
        if exists|j: int| 0 <= j < ps.len() && "custom_prompt_"@ + (#[trigger] ps[j]).id == binding_id {
            let j = choose|j: int| 0 <= j < ps.len() && "custom_prompt_"@ + (#[trigger] ps[j]).id
                == binding_id;
            assert(has_id(id)(ps[j]));
        }
    } else {
        assert forall|j: int| 0 <= j < ps.len() implies "custom_prompt_"@ + (#[trigger] ps[j]).id
            != binding_id by {
            let b = "custom_prompt_"@ + ps[j].id;
            assert(b.subrange(0, n) =~= prefix);
        }
    }
}

/// The content of a chat reply is that of its first choice: none without a
/// choice or when the first choice has no content.
pub proof fn law_reply_is_first_choice(resp: ChatCompletionResponse)
    ensures
        resp.choices@.len() == 0 ==> reply_content(resp) is None,
        resp.choices@.len() > 0 ==> reply_content(resp) == match resp.choices@[0].message.content {
            Some(c) => Some(c@),
            None => None::<Seq<char>>,
        },
{
}

/// An edit changes only the prompt it is for: where it succeeds, the first
/// stored prompt with the id is replaced, in its place, by the edited prompt
/// (the id kept, the fields trimmed, the mode the request names), every other
/// prompt and every system shortcut stays as it was, and the replaced prompt is
/// handed back exactly when its hotkey changed; where it fails nothing
/// changes, and it fails whenever no prompt has the id.
pub proof fn law_update_replaces_only_its_prompt(
    old: PromptSettings,
    new: PromptSettings,
    r: Result<crate::prompts::PromptUpdate, String>,
    id: Seq<char>,
    name: Seq<char>,
    hotkey: Seq<char>,
    prompt_text: Seq<char>,
    mode: Seq<char>,
)
    requires
        update_applied(old, new, r, id, name, hotkey, prompt_text, mode),
    ensures
        r matches Ok(u) ==> exists|pos: int|
            0 <= pos < old.custom_hotkey_prompts@.len() && (#[trigger] old.custom_hotkey_prompts@[pos]).id@
                == id && (forall|j: int|
                0 <= j < pos ==> (#[trigger] old.custom_hotkey_prompts@[j]).id@ != id)
                && new.custom_hotkey_prompts@.len() == old.custom_hotkey_prompts@.len()
                && new.custom_hotkey_prompts@[pos] == u.prompt && (forall|j: int|
                0 <= j < old.custom_hotkey_prompts@.len() && j != pos
                    ==> #[trigger] new.custom_hotkey_prompts@[j] == old.custom_hotkey_prompts@[j])
                && (u.replaced is Some <==> old.custom_hotkey_prompts@[pos].hotkey@ != trim(hotkey))
                && (u.replaced matches Some(q) ==> q == old.custom_hotkey_prompts@[pos]),
        r matches Ok(u) ==> {
            &&& new.bindings@ == old.bindings@
            &&& u.prompt.id@ == id
            &&& u.prompt.name@ == trim(name)
            &&& u.prompt.hotkey@ == trim(hotkey)
            &&& u.prompt.prompt_text@ == trim(prompt_text)
            &&& (mode == "selection"@ ==> u.prompt.mode == PromptMode::Selection)
            &&& (mode == "voice"@ ==> u.prompt.mode == PromptMode::Voice)
        },
        r is Err ==> new == old,
        (forall|j: int|
            0 <= j < old.custom_hotkey_prompts@.len() ==> (#[trigger] old.custom_hotkey_prompts@[j]).id@
                != id) ==> r is Err,
{
    let ps = old.custom_hotkey_prompts@;
    law_made_prompt_has_requested_fields(old@, name, hotkey, prompt_text, mode, id);
    if let Ok((pos, p)) = update_outcome(old@, id, name, hotkey, prompt_text, mode) {
        assert(old@.prompts[pos] == ps[pos]@);
        assert forall|j: int| 0 <= j < pos implies (#[trigger] ps[j]).id@ != id by {
            assert(old@.prompts[j] == ps[j]@);
        }
        assert(ps[pos].id@ == id);
    } else {
        if r is Ok {
            assert(false);
        }
    }
    if forall|j: int| 0 <= j < ps.len() ==> (#[trigger] ps[j]).id@ != id {
        if let Ok((pos, p)) = update_outcome(old@, id, name, hotkey, prompt_text, mode) {
            assert(old@.prompts[pos] == ps[pos]@);
            assert(ps[pos].id@ != id);
        }
    }
}

/// A delete request removes exactly the prompts with its id: it succeeds
/// exactly when some stored prompt has the id, and then hands back one of
/// them, keeps every prompt with another id and every system shortcut, and
/// leaves no prompt with the id; where it fails, with "Prompt not found",
/// nothing changes.
pub proof fn law_delete_removes_exactly_that_id(
    old: PromptSettings,
    new: PromptSettings,
    r: Result<CustomHotkeyPrompt, String>,
    id: Seq<char>,
)
    requires
        delete_applied(old, new, r, id),
    ensures
        r is Ok <==> exists|j: int|
            0 <= j < old.custom_hotkey_prompts@.len() && (#[trigger] old.custom_hotkey_prompts@[j]).id@
                == id,
        r matches Ok(p) ==> p.id@ == id && old.custom_hotkey_prompts@.contains(p),
        r is Ok ==> {
            &&& new.bindings@ == old.bindings@
            &&& forall|i: int|
                0 <= i < new.custom_hotkey_prompts@.len() ==> (#[trigger] new.custom_hotkey_prompts@[i]).id@
                    != id && old.custom_hotkey_prompts@.contains(new.custom_hotkey_prompts@[i])
            &&& forall|j: int|
                0 <= j < old.custom_hotkey_prompts@.len() && (#[trigger] old.custom_hotkey_prompts@[j]).id@
                    != id ==> new.custom_hotkey_prompts@.contains(old.custom_hotkey_prompts@[j])
        },
        r matches Err(e) ==> e@ == "Prompt not found"@ && new == old,
{
    let ps = old.custom_hotkey_prompts@;
    let keep = keeps_unless_id(id);
    lemma_first_index(old@.prompts, has_id(id));
    if let Some(i) = first_index(old@.prompts, has_id(id)) {
        assert(old@.prompts[i] == ps[i]@);
        assert(ps.contains(ps[i]));
        let fs = ps.filter(keep);
        assert forall|k: int| 0 <= k < fs.len() implies (#[trigger] fs[k]).id@ != id && ps.contains(
            fs[k],
        ) by {
            ps.lemma_filter_pred(keep, k);
            assert(fs.contains(fs[k]));
            ps.lemma_filter_contains_rev(keep, fs[k]);
        }
        assert forall|j: int| 0 <= j < ps.len() && (#[trigger] ps[j]).id@ != id implies fs.contains(
            ps[j],
        ) by {
            ps.lemma_filter_contains(keep, j);
        }
    } else {
        assert forall|j: int| 0 <= j < ps.len() implies (#[trigger] ps[j]).id@ != id by {
            assert(old@.prompts[j] == ps[j]@);
        }
    }
}

proof fn lemma_filter_map_all_some<A, B>(s: Seq<A>, f: spec_fn(A) -> Option<B>)
    requires
        forall|i: int| 0 <= i < s.len() ==> (#[trigger] f(s[i])) is Some,
    ensures
        s.filter_map(f).len() == s.len(),
        forall|i: int| 0 <= i < s.len() ==> (#[trigger] s.filter_map(f)[i]) == f(s[i])->Some_0,
    decreases s.len(),
{
    if s.len() > 0 {
        let rest = s.drop_last();
        assert forall|i: int| 0 <= i < rest.len() implies (#[trigger] f(rest[i])) is Some by {
            assert(rest[i] == s[i]);
        }
        lemma_filter_map_all_some(rest, f);
        assert(f(s.last()) is Some);
        assert forall|i: int| 0 <= i < s.len() implies (#[trigger] s.filter_map(f)[i]) == f(
            s[i],
        )->Some_0 by {
            if i < rest.len() {
                assert(rest[i] == s[i]);
                assert(rest.filter_map(f)[i] == f(rest[i])->Some_0);
            }
        }
    }
}

/// The models that a model-list reply names, for every reply: an entry of a
/// `data` list names its string `id`, else its string `name`, else nothing;
/// where every entry names one, the models are those, one per entry, in
/// order; a bare list of strings names those strings, in order; a reply that
/// is neither an object nor a list names no model.
pub proof fn law_model_list(reply: JsonValue, entry: JsonValue)
    ensures
        json_get(entry, "id"@) matches Some(JsonValue::Str(i)) ==> entry_model(entry) == Some(i@),
        json_get(entry, "name"@) matches Some(JsonValue::Str(n)) ==> (!(json_get(
            entry,
            "id"@,
        ) matches Some(JsonValue::Str(_))) ==> entry_model(entry) == Some(n@)),
        !(json_get(entry, "id"@) matches Some(JsonValue::Str(_))) && !(json_get(
            entry,
            "name"@,
        ) matches Some(JsonValue::Str(_))) ==> entry_model(entry) is None,
        json_get(reply, "data"@) matches Some(JsonValue::Array(es)) ==> ((forall|k: int|
            0 <= k < es@.len() ==> (#[trigger] entry_model(es@[k])) is Some) ==> model_ids(reply).len()
            == es@.len() && forall|k: int|
            0 <= k < es@.len() ==> (#[trigger] model_ids(reply)[k]) == entry_model(es@[k])->Some_0),
        reply matches JsonValue::Array(es) ==> ((forall|k: int|
            0 <= k < es@.len() ==> (#[trigger] es@[k]) is Str) ==> model_ids(reply).len() == es@.len()
            && forall|k: int| 0 <= k < es@.len() ==> (#[trigger] model_ids(reply)[k]) == es@[k]->Str_0@),
        (reply is Str || reply is Other) ==> model_ids(reply) == Seq::<Seq<char>>::empty(),
{
    if let Some(JsonValue::Array(es)) = json_get(reply, "data"@) {
        let f = |e: JsonValue| entry_model(e);
        if forall|k: int| 0 <= k < es@.len() ==> (#[trigger] entry_model(es@[k])) is Some {
            assert forall|k: int| 0 <= k < es@.len() implies (#[trigger] f(es@[k])) is Some by {
                assert(entry_model(es@[k]) is Some);
            }
            lemma_filter_map_all_some(es@, f);
        }
    }
    if let JsonValue::Array(es) = reply {
        let f = |e: JsonValue| string_entry(e);
        if forall|k: int| 0 <= k < es@.len() ==> (#[trigger] es@[k]) is Str {
            assert forall|k: int| 0 <= k < es@.len() implies (#[trigger] f(es@[k])) is Some by {
                assert(es@[k] is Str);
            }
            lemma_filter_map_all_some(es@, f);
            assert forall|k: int| 0 <= k < es@.len() implies (#[trigger] model_ids(reply)[k])
                == es@[k]->Str_0@ by {
                assert(f(es@[k]) == Some(es@[k]->Str_0@));
            }
        }
    }
}

proof fn lemma_trim_start_cut(s: Seq<char>) -> (k: int)
    ensures
        0 <= k <= s.len(),
        trim_start(s) == s.skip(k),
        forall|j: int| 0 <= j < k ==> is_whitespace(#[trigger] s[j]),
        k < s.len() ==> !is_whitespace(s[k]),
    decreases s.len(),
{
    if s.len() > 0 && is_whitespace(s[0]) {
        let rest = s.drop_first();
        let k1 = lemma_trim_start_cut(rest);
        assert(rest.skip(k1) =~= s.skip(k1 + 1));
        assert forall|j: int| 0 <= j < k1 + 1 implies is_whitespace(#[trigger] s[j]) by {
            if j > 0 {
                assert(s[j] == rest[j - 1]);
            }
        }
        if k1 + 1 < s.len() {
            assert(s[k1 + 1] == rest[k1]);
        }
        k1 + 1
    } else {
        assert(s.skip(0) =~= s);
        0
    }
}

proof fn lemma_trim_end_cut(s: Seq<char>) -> (k: int)
    ensures
        0 <= k <= s.len(),
        trim_end(s) == s.take(k),
        forall|j: int| k <= j < s.len() ==> is_whitespace(#[trigger] s[j]),
        k > 0 ==> !is_whitespace(s[k - 1]),
    decreases s.len(),
{
    if s.len() > 0 && is_whitespace(s.last()) {
        let rest = s.drop_last();
        let k1 = lemma_trim_end_cut(rest);
        assert(rest.take(k1) =~= s.take(k1));
        assert forall|j: int| k1 <= j < s.len() implies is_whitespace(#[trigger] s[j]) by {
            if j < s.len() - 1 {
                assert(s[j] == rest[j]);
            }
        }
        if k1 > 0 {
            assert(s[k1 - 1] == rest[k1 - 1]);
        }
        k1
    } else {
        assert(s.take(s.len() as int) =~= s);
        s.len() as int
    }
}

/// Trimming, as a check of a prompt's fields and of a model name does it,
/// removes the whitespace at both ends and nothing else: what is left is a
/// stretch of the text, everything before and after it is whitespace, and it
/// neither begins nor ends with whitespace.
pub proof fn law_trim_cuts_edge_whitespace(s: Seq<char>)
    ensures
        exists|a: int, b: int|
            #![trigger s.subrange(a, b)]
            0 <= a <= b <= s.len() && trim(s) == s.subrange(a, b) && (forall|j: int|
                0 <= j < a ==> is_whitespace(#[trigger] s[j])) && (forall|j: int|
                b <= j < s.len() ==> is_whitespace(#[trigger] s[j])),
        trim(s).len() > 0 ==> !is_whitespace(trim(s)[0]) && !is_whitespace(trim(s).last()),
{
    let a = lemma_trim_start_cut(s);
    let t = s.skip(a);
    let k = lemma_trim_end_cut(t);
    let b = a + k;
    assert(t.take(k) =~= s.subrange(a, b));
    assert forall|j: int| b <= j < s.len() implies is_whitespace(#[trigger] s[j]) by {
        assert(s[j] == t[j - a]);
    }
    if trim(s).len() > 0 {
        assert(trim(s)[0] == s[a]);
        assert(trim(s).last() == t[k - 1]);
    }
}

/// A base URL loses only its trailing slashes: what is left begins the URL,
/// everything after it is a slash, and it does not end with one.
pub proof fn law_trailing_slashes_cut(s: Seq<char>, c: char)
    ensures
        trim_end_char(s, c).len() <= s.len(),
        trim_end_char(s, c) == s.take(trim_end_char(s, c).len() as int),
        forall|j: int| trim_end_char(s, c).len() <= j < s.len() ==> #[trigger] s[j] == c,
        trim_end_char(s, c).len() > 0 ==> trim_end_char(s, c).last() != c,
    decreases s.len(),
{
    if s.len() > 0 && s.last() == c {
        let rest = s.drop_last();
        law_trailing_slashes_cut(rest, c);
        let n = trim_end_char(s, c).len() as int;
        assert(rest.take(n) =~= s.take(n));
        assert forall|j: int| n <= j < s.len() implies #[trigger] s[j] == c by {
            if j < s.len() - 1 {
                assert(s[j] == rest[j]);
            }
        }
    } else {
        assert(s.take(s.len() as int) =~= s);
    }
}

proof fn lemma_replace_first(a: Seq<char>, b: Seq<char>, from: Seq<char>, to: Seq<char>)
    requires
        from.len() > 0,
        forall|i: int| 0 <= i < a.len() ==> !from.is_prefix_of(#[trigger] (a + from + b).skip(i)),
    ensures
        replace_all(a + from + b, from, to) == a + to + replace_all(b, from, to),
    decreases a.len(),
{
    let s = a + from + b;
    if a.len() == 0 {
        assert(s =~= from + b);
        assert(s.subrange(0, from.len() as int) =~= from);
        assert(s.skip(from.len() as int) =~= b);
        assert(a + to + replace_all(b, from, to) =~= to + replace_all(b, from, to));
    } else {
        assert(s.skip(0) =~= s);
        assert(!from.is_prefix_of(s));
        let a1 = a.drop_first();
        assert(s.drop_first() =~= a1 + from + b);
        assert forall|i: int| 0 <= i < a1.len() implies !from.is_prefix_of(
            #[trigger] (a1 + from + b).skip(i),
        ) by {
            assert((a1 + from + b).skip(i) =~= s.skip(i + 1));
        }
        lemma_replace_first(a1, b, from, to);
        assert(s[0] == a[0]);
        assert(seq![a[0]] + (a1 + to + replace_all(b, from, to)) =~= a + to + replace_all(
            b,
            from,
            to,
        ));
    }
}

/// Instructions with one `${output}` placeholder go to the LLM with the input
/// text in its place and everything around it as it was.
pub proof fn law_placeholder_takes_the_input(before: Seq<char>, after: Seq<char>, input: Seq<char>)
    requires
        forall|i: int|
            0 <= i < before.len() ==> !"${output}"@.is_prefix_of(
                #[trigger] (before + "${output}"@ + after).skip(i),
            ),
        occurs_nowhere(after, "${output}"@),
    ensures
        replace_all(before + "${output}"@ + after, "${output}"@, input) == before + input + after,
{
    reveal_strlit("${output}");
    lemma_replace_first(before, after, "${output}"@, input);
    lemma_replace_absent(after, "${output}"@, input);
}

proof fn lemma_decimal_reads_back(n: nat)
    ensures
        decimal(n).len() > 0,
        all_digits(decimal(n)),
        digits_value(decimal(n)) == n,
    decreases n,
{
    if n >= 10 {
        lemma_decimal_reads_back(n / 10);
        let d = decimal(n / 10);
        let s = d + seq![digit_char(n % 10)];
        assert(s == decimal(n));
        assert(s.drop_last() =~= d);
        assert(s.last() == digit_char(n % 10));
        assert(digit_char(n % 10) as u32 == 48 + n % 10);
        assert forall|i: int| 0 <= i < s.len() implies is_digit(#[trigger] s[i]) by {
            if i < d.len() {
                assert(s[i] == d[i]);
            }
        }
        assert(digits_value(s) == digits_value(d) * 10 + ((s.last() as u32) - 48));
        assert(n == (n / 10) * 10 + n % 10);
    } else {
        assert(digit_char(n) as u32 == 48 + n);
        let s = decimal(n);
        assert(s.drop_last() =~= Seq::<char>::empty());
        assert(digits_value(s.drop_last()) == 0);
        assert(s.last() == digit_char(n));
        assert(digits_value(s) == (s.last() as u32) - 48);
    }
}

proof fn lemma_signed_decimal_reads_back(n: int)
    ensures
        signed_decimal(n).len() > 0,
        signed_decimal(n)[0] == '-' <==> n < 0,
        signed_decimal(n)[0] != '+',
        n < 0 ==> all_digits(signed_decimal(n).drop_first()) && signed_decimal(n).drop_first().len()
            > 0 && -digits_value(signed_decimal(n).drop_first()) == n,
        n >= 0 ==> all_digits(signed_decimal(n)) && digits_value(signed_decimal(n)) == n,
{
    if n < 0 {
        lemma_decimal_reads_back((-n) as nat);
        assert(signed_decimal(n).drop_first() =~= decimal((-n) as nat));
    } else {
        lemma_decimal_reads_back(n as nat);
        assert(is_digit(decimal(n as nat)[0]));
    }
}

/// A model setting that is the decimal text of a number in the range of `i32`
/// is read as that number when Apple Intelligence takes it as a token limit.
pub proof fn law_token_limit_reads_the_number(n: i32)
    ensures
        parse_i32(signed_decimal(n as int)) == Some(n),
{
    lemma_signed_decimal_reads_back(n as int);
}

/// Prompts created at different milliseconds get different ids, each the
/// text `prompt_` followed by the decimal number of milliseconds.
pub proof fn law_prompt_ids_differ_by_time(a: int, b: int)
    ensures
        prompt_id_for(a) == "prompt_"@ + signed_decimal(a),
        a != b ==> prompt_id_for(a) != prompt_id_for(b),
{
    if a != b && prompt_id_for(a) == prompt_id_for(b) {
        let p = "prompt_"@;
        assert(prompt_id_for(a).skip(p.len() as int) =~= signed_decimal(a));
        assert(prompt_id_for(b).skip(p.len() as int) =~= signed_decimal(b));
        lemma_signed_decimal_reads_back(a);
        lemma_signed_decimal_reads_back(b);
    }
}

/// A client is built exactly when its headers can be: it carries the headers
/// that the provider and key call for, no timeouts unless asked, and when
/// asked `t` seconds to connect and twice that in all, or the largest value
/// where twice does not fit.
pub proof fn law_client_timeouts(
    r: Result<ClientSettings, String>,
    provider_id: Seq<char>,
    api_key: Seq<char>,
    timeout_secs: Option<u64>,
)
    requires
        client_built(r, provider_id, api_key, timeout_secs),
    ensures
        r is Ok <==> headers_for(provider_id, api_key) is Ok,
        r matches Ok(c) ==> Ok::<Seq<HeaderView>, Seq<char>>(headers_view(c.headers@)) == headers_for(
            provider_id,
            api_key,
        ),
        r matches Ok(c) ==> (timeout_secs is None ==> c.timeouts is None),
        r matches Ok(c) ==> (timeout_secs matches Some(t) ==> (c.timeouts matches Some(ts) && ts.connect_secs
            == t && (2 * t <= u64::MAX ==> ts.total_secs == 2 * t) && (2 * t > u64::MAX
            ==> ts.total_secs == u64::MAX))),
{
}

/// A create request that succeeds appends the prompt it made, under the id it
/// was given, after the stored prompts and leaves the system shortcuts alone;
/// one that fails changes nothing.
pub proof fn law_create_appends_the_prompt(
    old: PromptSettings,
    new: PromptSettings,
    r: Result<CustomHotkeyPrompt, String>,
    name: Seq<char>,
    hotkey: Seq<char>,
    prompt_text: Seq<char>,
    mode: Seq<char>,
    id: Seq<char>,
)
    requires
        create_applied(old, new, r, name, hotkey, prompt_text, mode, id),
    ensures
        r matches Ok(q) ==> new.custom_hotkey_prompts@ == old.custom_hotkey_prompts@.push(q)
            && new.bindings@ == old.bindings@ && q.id@ == id,
        r is Err ==> new == old,
{
}

/// The milliseconds that a clock reading gives: the reading itself after the
/// epoch and its negation before it, held to the range of `i64`.
pub proof fn law_clock_millis(m: u128)
    ensures
        m <= i64::MAX ==> signed_millis(Ok(m)) == m && signed_millis(Err(m)) == -m,
        m > i64::MAX ==> signed_millis(Ok(m)) == i64::MAX && signed_millis(Err(m)) == i64::MIN,
{
}

} // verus!
