//! Custom hotkey prompts: what creating, updating, deleting and looking one up
//! does to the stored list, and how a hotkey conflict is found.

use vstd::prelude::*;

use crate::text::{
    concat_str, decimal_i64, opt_str_text, opt_text, signed_decimal, str_eq, trim, trim_str,
};

verus! {

broadcast use vstd::string::group_string_axioms;

/// How a custom prompt gets its input: the selected text, or a voice recording.
#[derive(Clone, Copy, Debug, PartialEq, Eq, Structural)]
pub enum PromptMode {
    Selection,
    Voice,
}

/// A prompt that runs on its own hotkey.
pub struct CustomHotkeyPrompt {
    pub id: String,
    pub name: String,
    pub hotkey: String,
    pub prompt_text: String,
    pub mode: PromptMode,
}

/// A system shortcut, by the name shown to the user and the hotkey it is bound to.
pub struct ShortcutBinding {
    pub name: String,
    pub current_binding: String,
}

/// The stored settings that custom prompts read and write: the system
/// shortcuts (the values of the store's map of shortcuts, in the order the
/// store hands them out; they are only scanned, never looked up by key) and
/// the custom prompts (a list in the store too).
pub struct PromptSettings {
    pub bindings: Vec<ShortcutBinding>,
    pub custom_hotkey_prompts: Vec<CustomHotkeyPrompt>,
}

/// A custom prompt as plain text.
pub struct PromptView {
    pub id: Seq<char>,
    pub name: Seq<char>,
    pub hotkey: Seq<char>,
    pub prompt_text: Seq<char>,
    pub mode: PromptMode,
}

/// A system shortcut as plain text.
pub struct BindingView {
    pub name: Seq<char>,
    pub current_binding: Seq<char>,
}

/// The prompt settings as plain text.
pub struct SettingsView {
    pub bindings: Seq<BindingView>,
    pub prompts: Seq<PromptView>,
}

impl View for CustomHotkeyPrompt {
    type V = PromptView;

    open spec fn view(&self) -> PromptView {
        PromptView {
            id: self.id@,
            name: self.name@,
            hotkey: self.hotkey@,
            prompt_text: self.prompt_text@,
            mode: self.mode,
        }
    }
}

impl View for ShortcutBinding {
    type V = BindingView;

    open spec fn view(&self) -> BindingView {
        BindingView { name: self.name@, current_binding: self.current_binding@ }
    }
}

/// The plain views of a list of prompts.
pub open spec fn prompts_view(s: Seq<CustomHotkeyPrompt>) -> Seq<PromptView> {
    s.map_values(|p: CustomHotkeyPrompt| p@)
}

/// The plain views of a list of shortcuts.
pub open spec fn bindings_view(s: Seq<ShortcutBinding>) -> Seq<BindingView> {
    s.map_values(|b: ShortcutBinding| b@)
}

impl View for PromptSettings {
    type V = SettingsView;

    open spec fn view(&self) -> SettingsView {
        SettingsView {
            bindings: bindings_view(self.bindings@),
            prompts: prompts_view(self.custom_hotkey_prompts@),
        }
    }
}

/// The index of the first element of `s` that satisfies `f`.
pub open spec fn first_index<A>(s: Seq<A>, f: spec_fn(A) -> bool) -> Option<int>
    decreases s.len(),
{
    if s.len() == 0 {
        None
    } else if f(s[0]) {
        Some(0)
    } else {
        match first_index(s.drop_first(), f) {
            Some(i) => Some(i + 1),
            None => None,
        }
    }
}

/// `first_index` finds the first match, and finds none only where there is none.
pub proof fn lemma_first_index<A>(s: Seq<A>, f: spec_fn(A) -> bool)
    ensures
        match first_index(s, f) {
            Some(i) => 0 <= i < s.len() && f(s[i]) && forall|j: int| 0 <= j < i ==> !f(#[trigger] s[j]),
            None => forall|j: int| 0 <= j < s.len() ==> !f(#[trigger] s[j]),
        },
    decreases s.len(),
{
    if s.len() > 0 && !f(s[0]) {
        lemma_first_index(s.drop_first(), f);
        assert forall|j: int| 1 <= j < s.len() implies #[trigger] s[j] == s.drop_first()[j - 1] by {}
        match first_index(s.drop_first(), f) {
            Some(i) => {
                assert forall|j: int| 0 <= j < i + 1 implies !f(#[trigger] s[j]) by {
                    if j > 0 {
                        assert(s[j] == s.drop_first()[j - 1]);
                    }
                }
            },
            None => {
                assert forall|j: int| 0 <= j < s.len() implies !f(#[trigger] s[j]) by {
                    if j > 0 {
                        assert(s[j] == s.drop_first()[j - 1]);
                    }
                }
            },
        }
    }
}

pub proof fn lemma_first_index_at<A>(s: Seq<A>, f: spec_fn(A) -> bool, i: int)
    requires
        0 <= i < s.len(),
        f(s[i]),
        forall|j: int| 0 <= j < i ==> !f(#[trigger] s[j]),
    ensures
        first_index(s, f) == Some(i),
{
    lemma_first_index(s, f);
    match first_index(s, f) {
        Some(k) => {
            if k < i {
                assert(!f(s[k]));
            } else if k > i {
                assert(!f(s[i]));
            }
        },
        None => {
            assert(!f(s[i]));
        },
    }
}

pub proof fn lemma_first_index_none<A>(s: Seq<A>, f: spec_fn(A) -> bool)
    requires
        forall|j: int| 0 <= j < s.len() ==> !f(#[trigger] s[j]),
    ensures
        first_index(s, f) is None,
{
    lemma_first_index(s, f);
    if let Some(k) = first_index(s, f) {
        assert(!f(s[k]));
    }
}

/// Whether a prompt has id `id`.
pub open spec fn has_id(id: Seq<char>) -> spec_fn(PromptView) -> bool {
    |p: PromptView| p.id == id
}

/// The mode that a mode name selects.
pub open spec fn parse_mode(mode: Seq<char>) -> Option<PromptMode> {
    if mode == "selection"@ {
        Some(PromptMode::Selection)
    } else if mode == "voice"@ {
        Some(PromptMode::Voice)
    } else {
        None
    }
}

/// The fields of a prompt as the user entered them, trimmed and checked.
pub struct PromptFields {
    pub name: Seq<char>,
    pub hotkey: Seq<char>,
    pub prompt_text: Seq<char>,
    pub mode: PromptMode,
}

/// The checks on the fields of a new or edited prompt, in the order they are made.
pub open spec fn validate_fields(
    name: Seq<char>,
    hotkey: Seq<char>,
    prompt_text: Seq<char>,
    mode: Seq<char>,
) -> Result<PromptFields, Seq<char>> {
    if trim(name).len() == 0 {
        Err("Prompt name is required"@)
    } else if trim(hotkey).len() == 0 {
        Err("Hotkey is required"@)
    } else if trim(prompt_text).len() == 0 {
        Err("Prompt instructions are required"@)
    } else {
        match parse_mode(mode) {
            None => Err("Invalid mode. Must be 'selection' or 'voice'"@),
            Some(m) => Ok(
                PromptFields {
                    name: trim(name),
                    hotkey: trim(hotkey),
                    prompt_text: trim(prompt_text),
                    mode: m,
                },
            ),
        }
    }
}

/// What a hotkey collides with: the first system shortcut bound to it, else the
/// first custom prompt on it whose id is not `exclude`, each named as the user sees it.
pub open spec fn conflict_of(
    s: SettingsView,
    hotkey: Seq<char>,
    exclude: Option<Seq<char>>,
) -> Option<Seq<char>> {
    match first_index(s.bindings, |b: BindingView| b.current_binding == hotkey) {
        Some(i) => Some("System shortcut: "@ + s.bindings[i].name),
        None => match first_index(
            s.prompts,
            |p: PromptView| exclude != Some(p.id) && p.hotkey == hotkey,
        ) {
            Some(j) => Some("Custom prompt: "@ + s.prompts[j].name),
            None => None,
        },
    }
}

/// Whether some prompt, other than those with id `exclude`, is named `name`.
pub open spec fn name_taken(s: SettingsView, name: Seq<char>, exclude: Option<Seq<char>>) -> bool {
    exists|i: int|
        0 <= i < s.prompts.len() && exclude != Some(s.prompts[i].id) && #[trigger] s.prompts[i].name
            == name
}

/// The prompt that a create request makes with the given id, or the message it is refused with.
pub open spec fn create_outcome(
    s: SettingsView,
    name: Seq<char>,
    hotkey: Seq<char>,
    prompt_text: Seq<char>,
    mode: Seq<char>,
    id: Seq<char>,
) -> Result<PromptView, Seq<char>> {
    match validate_fields(name, hotkey, prompt_text, mode) {
        Err(m) => Err(m),
        Ok(f) => if name_taken(s, f.name, None) {
            Err("A prompt with this name already exists"@)
        } else {
            match conflict_of(s, f.hotkey, None) {
                Some(c) => Err("This hotkey is already used by: "@ + c),
                None => Ok(
                    PromptView {
                        id,
                        name: f.name,
                        hotkey: f.hotkey,
                        prompt_text: f.prompt_text,
                        mode: f.mode,
                    },
                ),
            }
        },
    }
}

/// The position that an update request replaces and the prompt it puts there,
/// or the message it is refused with.
pub open spec fn update_outcome(
    s: SettingsView,
    id: Seq<char>,
    name: Seq<char>,
    hotkey: Seq<char>,
    prompt_text: Seq<char>,
    mode: Seq<char>,
) -> Result<(int, PromptView), Seq<char>> {
    match validate_fields(name, hotkey, prompt_text, mode) {
        Err(m) => Err(m),
        Ok(f) => if name_taken(s, f.name, Some(id)) {
            Err("A prompt with this name already exists"@)
        } else {
            match conflict_of(s, f.hotkey, Some(id)) {
                Some(c) => Err("This hotkey is already used by: "@ + c),
                None => match first_index(s.prompts, has_id(id)) {
                    None => Err("Prompt not found"@),
                    Some(pos) => Ok(
                        (
                            pos,
                            PromptView {
                                id,
                                name: f.name,
                                hotkey: f.hotkey,
                                prompt_text: f.prompt_text,
                                mode: f.mode,
                            },
                        ),
                    ),
                },
            }
        },
    }
}

/// The id that a prompt created at `millis` milliseconds after the Unix epoch gets.
pub open spec fn prompt_id_for(millis: int) -> Seq<char> {
    "prompt_"@ + signed_decimal(millis)
}

impl CustomHotkeyPrompt {
    /// A copy of this prompt.
    pub fn duplicate(&self) -> (r: CustomHotkeyPrompt)
        ensures
            r == *self,
    {
        CustomHotkeyPrompt {
            id: self.id.clone(),
            name: self.name.clone(),
            hotkey: self.hotkey.clone(),
            prompt_text: self.prompt_text.clone(),
            mode: self.mode,
        }
    }
}

/// The mode that `mode` names, if any.
pub fn prompt_mode_from_name(mode: &str) -> (r: Option<PromptMode>)
    ensures
        r == parse_mode(mode@),
{
    if str_eq(mode, "selection") {
        Some(PromptMode::Selection)
    } else if str_eq(mode, "voice") {
        Some(PromptMode::Voice)
    } else {
        None
    }
}

/// The trimmed fields of a prompt, or the message of the first check that fails.
pub fn validate_prompt_fields(name: &str, hotkey: &str, prompt_text: &str, mode: &str) -> (r:
    Result<(String, String, String, PromptMode), String>)
    ensures
        match validate_fields(name@, hotkey@, prompt_text@, mode@) {
            Ok(f) => r matches Ok(v) && v.0@ == f.name && v.1@ == f.hotkey && v.2@ == f.prompt_text
                && v.3 == f.mode,
            Err(m) => r matches Err(e) && e@ == m,
        },
{
    let name = trim_str(name);
    let hotkey = trim_str(hotkey);
    let prompt_text = trim_str(prompt_text);
    if name.as_str().is_empty() {
        return Err("Prompt name is required".to_owned());
    }
    if hotkey.as_str().is_empty() {
        return Err("Hotkey is required".to_owned());
    }
    if prompt_text.as_str().is_empty() {
        return Err("Prompt instructions are required".to_owned());
    }
    match prompt_mode_from_name(mode) {
        Some(m) => Ok((name, hotkey, prompt_text, m)),
        None => Err("Invalid mode. Must be 'selection' or 'voice'".to_owned()),
    }
}

/// What `hotkey` collides with, skipping custom prompts whose id is `exclude_id`.
pub fn find_conflict(settings: &PromptSettings, hotkey: &str, exclude_id: Option<&str>) -> (r:
    Option<String>)
    ensures
        match (r, conflict_of(settings@, hotkey@, opt_str_text(exclude_id))) {
            (Some(a), Some(b)) => a@ == b,
            (None, None) => true,
            _ => false,
        },
{
    let ghost s = settings@;
    let ghost exclude: Option<Seq<char>> = match exclude_id {
        Some(x) => Some(x@),
        None => None,
    };
    let ghost fb = |b: BindingView| b.current_binding == hotkey@;
    let ghost fp = |p: PromptView| exclude != Some(p.id) && p.hotkey == hotkey@;
    let nb = settings.bindings.len();
    for i in 0..nb
        invariant
            nb == s.bindings.len(),
            s == settings@,
            fb == (|b: BindingView| b.current_binding == hotkey@),
            forall|j: int| 0 <= j < i ==> !fb(#[trigger] s.bindings[j]),
    {
        let binding = &settings.bindings[i];
        if str_eq(binding.current_binding.as_str(), hotkey) {
            proof {
                lemma_first_index_at(s.bindings, fb, i as int);
            }
            return Some(concat_str("System shortcut: ", binding.name.as_str()));
        }
    }
    proof {
        lemma_first_index_none(s.bindings, fb);
    }
    let np = settings.custom_hotkey_prompts.len();
    for i in 0..np
        invariant
            np == s.prompts.len(),
            s == settings@,
            exclude == match exclude_id {
                Some(x) => Some(x@),
                None => None::<Seq<char>>,
            },
            fp == (|p: PromptView| exclude != Some(p.id) && p.hotkey == hotkey@),
            first_index(s.bindings, |b: BindingView| b.current_binding == hotkey@) is None,
            forall|j: int| 0 <= j < i ==> !fp(#[trigger] s.prompts[j]),
    {
        let prompt = &settings.custom_hotkey_prompts[i];
        let excluded = match exclude_id {
            Some(x) => str_eq(prompt.id.as_str(), x),
            None => false,
        };
        if !excluded && str_eq(prompt.hotkey.as_str(), hotkey) {
            proof {
                lemma_first_index_at(s.prompts, fp, i as int);
            }
            return Some(concat_str("Custom prompt: ", prompt.name.as_str()));
        }
    }
    proof {
        lemma_first_index_none(s.prompts, fp);
    }
    None
}


/// Whether `new` and `r` are what a create request with the given id makes of `old`:
/// the made prompt appended, or the settings untouched and the refusal's message.
pub open spec fn create_applied(
    old: PromptSettings,
    new: PromptSettings,
    r: Result<CustomHotkeyPrompt, String>,
    name: Seq<char>,
    hotkey: Seq<char>,
    prompt_text: Seq<char>,
    mode: Seq<char>,
    id: Seq<char>,
) -> bool {
    match create_outcome(old@, name, hotkey, prompt_text, mode, id) {
        Ok(p) => r matches Ok(q) && q@ == p && new.bindings@ == old.bindings@
            && new.custom_hotkey_prompts@ == old.custom_hotkey_prompts@.push(q),
        Err(m) => r matches Err(e) && e@ == m && new == old,
    }
}

/// Whether some stored prompt, other than those with id `exclude`, is named `name`.
fn name_in_use(settings: &PromptSettings, name: &str, exclude: Option<&str>) -> (r: bool)
    ensures
        r == name_taken(settings@, name@, match exclude {
            Some(x) => Some(x@),
            None => None,
        }),
{
    let ghost s = settings@;
    let ghost ex: Option<Seq<char>> = match exclude {
        Some(x) => Some(x@),
        None => None,
    };
    let n = settings.custom_hotkey_prompts.len();
    for i in 0..n
        invariant
            n == s.prompts.len(),
            s == settings@,
            ex == match exclude {
                Some(x) => Some(x@),
                None => None::<Seq<char>>,
            },
            forall|j: int| 0 <= j < i ==> !(ex != Some(s.prompts[j].id) && #[trigger] s.prompts[j].name == name@),
    {
        let p = &settings.custom_hotkey_prompts[i];
        let excluded = match exclude {
            Some(x) => str_eq(p.id.as_str(), x),
            None => false,
        };
        if !excluded && str_eq(p.name.as_str(), name) {
            assert(s.prompts[i as int].name == name@);
            return true;
        }
    }
    false
}

/// The trimmed fields of a new prompt, after the checks that a create request
/// makes, or the message of the first check that fails.
pub fn check_new_prompt(
    settings: &PromptSettings,
    name: &str,
    hotkey: &str,
    prompt_text: &str,
    mode: &str,
) -> (r: Result<(String, String, String, PromptMode), String>)
    ensures
        match create_outcome(settings@, name@, hotkey@, prompt_text@, mode@, Seq::empty()) {
            Ok(p) => r matches Ok(f) && f.0@ == p.name && f.1@ == p.hotkey && f.2@ == p.prompt_text
                && f.3 == p.mode,
            Err(m) => r matches Err(e) && e@ == m,
        },
{
    let (clean_name, clean_hotkey, clean_text, clean_mode) = match validate_prompt_fields(
        name,
        hotkey,
        prompt_text,
        mode,
    ) {
        Ok(fields) => fields,
        Err(e) => return Err(e),
    };
    if name_in_use(settings, clean_name.as_str(), None) {
        return Err("A prompt with this name already exists".to_owned());
    }
    match find_conflict(settings, clean_hotkey.as_str(), None) {
        Some(conflict) => {
            return Err(concat_str("This hotkey is already used by: ", conflict.as_str()));
        },
        None => {},
    }
    Ok((clean_name, clean_hotkey, clean_text, clean_mode))
}

/// Adds a prompt with the given id, after the checks that a create request makes.
pub fn create_prompt_with_id(
    settings: &mut PromptSettings,
    name: String,
    hotkey: String,
    prompt_text: String,
    mode: String,
    id: String,
) -> (r: Result<CustomHotkeyPrompt, String>)
    ensures
        create_applied(*old(settings), *final(settings), r, name@, hotkey@, prompt_text@, mode@, id@),
{
    let (clean_name, clean_hotkey, clean_text, clean_mode) = match check_new_prompt(
        settings,
        name.as_str(),
        hotkey.as_str(),
        prompt_text.as_str(),
        mode.as_str(),
    ) {
        Ok(fields) => fields,
        Err(e) => return Err(e),
    };
    let prompt = CustomHotkeyPrompt {
        id,
        name: clean_name,
        hotkey: clean_hotkey,
        prompt_text: clean_text,
        mode: clean_mode,
    };
    settings.custom_hotkey_prompts.push(prompt.duplicate());
    Ok(prompt)
}

/// The id of a prompt created at `millis` milliseconds after the Unix epoch.
pub fn prompt_id(millis: i64) -> (r: String)
    ensures
        r@ == prompt_id_for(millis as int),
{
    concat_str("prompt_", decimal_i64(millis).as_str())
}

/// `std::time::SystemTime::now().duration_since(UNIX_EPOCH)`, in whole
/// milliseconds: `Ok` with how long after the Unix epoch the system clock
/// reads, `Err` with how long before it. The call does not fail or panic.
/// Nothing is claimed of the values, which depend on the clock.
#[verifier::external_body]
fn read_unix_clock() -> (r: Result<u128, u128>) {
    match std::time::SystemTime::now().duration_since(std::time::UNIX_EPOCH) {
        Ok(d) => Ok(d.as_millis()),
        Err(e) => Err(e.duration().as_millis()),
    }
}

/// Milliseconds since the Unix epoch as a signed number, from a clock reading
/// after (`Ok`) or before (`Err`) the epoch, held to the range of `i64`.
pub open spec fn signed_millis(reading: Result<u128, u128>) -> int {
    match reading {
        Ok(m) => if m <= i64::MAX {
            m as int
        } else {
            i64::MAX as int
        },
        Err(m) => if m <= i64::MAX {
            -(m as int)
        } else {
            i64::MIN as int
        },
    }
}

/// Milliseconds since the Unix epoch as a signed number, from a clock reading.
pub fn unix_millis(reading: Result<u128, u128>) -> (r: i64)
    ensures
        r == signed_millis(reading),
{
    match reading {
        Ok(m) => if m <= 9223372036854775807u128 {
            m as i64
        } else {
            i64::MAX
        },
        Err(m) => if m <= 9223372036854775807u128 {
            -(m as i64)
        } else {
            i64::MIN
        },
    }
}

/// Creates a custom prompt from what the user entered, with an id taken from
/// the system clock once the checks have passed.
pub fn create_custom_hotkey_prompt(
    settings: &mut PromptSettings,
    name: String,
    hotkey: String,
    prompt_text: String,
    mode: String,
) -> (r: Result<CustomHotkeyPrompt, String>)
    ensures
        exists|millis: i64|
            create_applied(
                *old(settings),
                *final(settings),
                r,
                name@,
                hotkey@,
                prompt_text@,
                mode@,
                #[trigger] prompt_id_for(millis as int),
            ),
{
    let (clean_name, clean_hotkey, clean_text, clean_mode) = match check_new_prompt(
        settings,
        name.as_str(),
        hotkey.as_str(),
        prompt_text.as_str(),
        mode.as_str(),
    ) {
        Ok(fields) => fields,
        Err(e) => {
            assert(create_applied(
                *old(settings),
                *settings,
                Err::<CustomHotkeyPrompt, String>(e),
                name@,
                hotkey@,
                prompt_text@,
                mode@,
                prompt_id_for(0),
            ));
            return Err(e);
        },
    };
    let millis = unix_millis(read_unix_clock());
    let id = prompt_id(millis);
    let prompt = CustomHotkeyPrompt {
        id,
        name: clean_name,
        hotkey: clean_hotkey,
        prompt_text: clean_text,
        mode: clean_mode,
    };
    settings.custom_hotkey_prompts.push(prompt.duplicate());
    let r = Ok(prompt);
    assert(create_applied(
        *old(settings),
        *settings,
        r,
        name@,
        hotkey@,
        prompt_text@,
        mode@,
        prompt_id_for(millis as int),
    ));
    r
}

/// Whether `new` and `r` are what an update request makes of `old`: the edited
/// prompt in place of the first prompt with the id, with that one handed back
/// where its hotkey is to be released; or the settings untouched and the
/// refusal's message.
pub open spec fn update_applied(
    old: PromptSettings,
    new: PromptSettings,
    r: Result<PromptUpdate, String>,
    id: Seq<char>,
    name: Seq<char>,
    hotkey: Seq<char>,
    prompt_text: Seq<char>,
    mode: Seq<char>,
) -> bool {
    match update_outcome(old@, id, name, hotkey, prompt_text, mode) {
        Ok((pos, p)) => r matches Ok(u) && u.prompt@ == p && new.bindings@ == old.bindings@
            && new.custom_hotkey_prompts@ == old.custom_hotkey_prompts@.update(pos, u.prompt)
            && u.replaced == if old.custom_hotkey_prompts@[pos].hotkey@ != p.hotkey {
            Some(old.custom_hotkey_prompts@[pos])
        } else {
            None
        },
        Err(m) => r matches Err(e) && e@ == m && new == old,
    }
}

/// Whether a stored prompt is kept when the prompts with id `id` are deleted.
pub open spec fn keeps_unless_id(id: Seq<char>) -> spec_fn(CustomHotkeyPrompt) -> bool {
    |p: CustomHotkeyPrompt| p.id@ != id
}

/// Whether `new` and `r` are what a delete request makes of `old`: every
/// prompt with the id removed and the first of them handed back; or, where
/// there is none, the settings untouched and "Prompt not found".
pub open spec fn delete_applied(
    old: PromptSettings,
    new: PromptSettings,
    r: Result<CustomHotkeyPrompt, String>,
    id: Seq<char>,
) -> bool {
    match first_index(old@.prompts, has_id(id)) {
        Some(i) => r matches Ok(p) && p == old.custom_hotkey_prompts@[i] && new.bindings@
            == old.bindings@ && new.custom_hotkey_prompts@ == old.custom_hotkey_prompts@.filter(
            keeps_unless_id(id),
        ),
        None => r matches Err(e) && e@ == "Prompt not found"@ && new == old,
    }
}

/// What an update request did: the prompt now stored, and the prompt it replaced
/// when that one's hotkey has to be released (its hotkey changed).
pub struct PromptUpdate {
    pub prompt: CustomHotkeyPrompt,
    pub replaced: Option<CustomHotkeyPrompt>,
}

/// The index of the first stored prompt with id `id`.
fn position_of(settings: &PromptSettings, id: &str) -> (r: Option<usize>)
    ensures
        match r {
            Some(k) => first_index(settings@.prompts, has_id(id@)) == Some(k as int) && k
                < settings.custom_hotkey_prompts@.len(),
            None => first_index(settings@.prompts, has_id(id@)) is None,
        },
{
    let ghost s = settings@;
    let ghost f = has_id(id@);
    let n = settings.custom_hotkey_prompts.len();
    for i in 0..n
        invariant
            n == s.prompts.len(),
            s == settings@,
            f == (has_id(id@)),
            forall|j: int| 0 <= j < i ==> !f(#[trigger] s.prompts[j]),
    {
        if str_eq(settings.custom_hotkey_prompts[i].id.as_str(), id) {
            proof {
                lemma_first_index_at(s.prompts, f, i as int);
            }
            return Some(i);
        }
    }
    proof {
        lemma_first_index_none(s.prompts, f);
    }
    None
}

/// Replaces the stored prompt with id `id` by the edited one, after the checks
/// that an update request makes.
pub fn update_custom_hotkey_prompt(
    settings: &mut PromptSettings,
    id: String,
    name: String,
    hotkey: String,
    prompt_text: String,
    mode: String,
) -> (r: Result<PromptUpdate, String>)
    ensures
        update_applied(*old(settings), *final(settings), r, id@, name@, hotkey@, prompt_text@, mode@),
{
    let (clean_name, clean_hotkey, clean_text, clean_mode) = match validate_prompt_fields(
        name.as_str(),
        hotkey.as_str(),
        prompt_text.as_str(),
        mode.as_str(),
    ) {
        Ok(fields) => fields,
        Err(e) => return Err(e),
    };
    if name_in_use(settings, clean_name.as_str(), Some(id.as_str())) {
        return Err("A prompt with this name already exists".to_owned());
    }
    match find_conflict(settings, clean_hotkey.as_str(), Some(id.as_str())) {
        Some(conflict) => {
            return Err(concat_str("This hotkey is already used by: ", conflict.as_str()));
        },
        None => {},
    }
    match position_of(settings, id.as_str()) {
        None => Err("Prompt not found".to_owned()),
        Some(pos) => {
            let previous = settings.custom_hotkey_prompts[pos].duplicate();
            let prompt = CustomHotkeyPrompt {
                id,
                name: clean_name,
                hotkey: clean_hotkey,
                prompt_text: clean_text,
                mode: clean_mode,
            };
            let replaced = if str_eq(previous.hotkey.as_str(), prompt.hotkey.as_str()) {
                None
            } else {
                Some(previous)
            };
            settings.custom_hotkey_prompts[pos] = prompt.duplicate();
            Ok(PromptUpdate { prompt, replaced })
        },
    }
}

/// Removes every stored prompt with id `id`, and gives back the first of them,
/// whose hotkey is to be released.
pub fn delete_custom_hotkey_prompt(settings: &mut PromptSettings, id: String) -> (r: Result<
    CustomHotkeyPrompt,
    String,
>)
    ensures
        delete_applied(*old(settings), *final(settings), r, id@),
{
    let ghost old_prompts = settings.custom_hotkey_prompts@;
    let ghost keep = keeps_unless_id(id@);
    let n = settings.custom_hotkey_prompts.len();
    let mut kept: Vec<CustomHotkeyPrompt> = Vec::new();
    let mut first: Option<usize> = None;
    for i in 0..n
        invariant
            n == old_prompts.len(),
            old_prompts == settings.custom_hotkey_prompts@,
            keep == keeps_unless_id(id@),
            kept@ == old_prompts.take(i as int).filter(keep),
            match first {
                None => forall|j: int| 0 <= j < i ==> keep(#[trigger] old_prompts[j]),
                Some(k) => k < i && !keep(old_prompts[k as int]) && forall|j: int|
                    0 <= j < k ==> keep(#[trigger] old_prompts[j]),
            },
    {
        let p = &settings.custom_hotkey_prompts[i];
        proof {
            assert(old_prompts.take(i + 1) =~= old_prompts.take(i as int).push(old_prompts[i as int]));
            old_prompts.take(i as int).lemma_filter_push(old_prompts[i as int], keep);
        }
        if str_eq(p.id.as_str(), id.as_str()) {
            if first.is_none() {
                first = Some(i);
            }
        } else {
            kept.push(p.duplicate());
        }
    }
    proof {
        assert(old_prompts.take(n as int) =~= old_prompts);
    }
    let ghost fv = has_id(id@);
    match first {
        None => {
            proof {
                assert forall|j: int| 0 <= j < n implies !fv(#[trigger] old(settings)@.prompts[j]) by {
                    assert(keep(old_prompts[j]));
                }
                lemma_first_index_none(old(settings)@.prompts, fv);
            }
            Err("Prompt not found".to_owned())
        },
        Some(k) => {
            proof {
                assert forall|j: int| 0 <= j < k implies !fv(#[trigger] old(settings)@.prompts[j]) by {
                    assert(keep(old_prompts[j]));
                }
                lemma_first_index_at(old(settings)@.prompts, fv, k as int);
            }
            let removed = settings.custom_hotkey_prompts[k].duplicate();
            settings.custom_hotkey_prompts = kept;
            Ok(removed)
        },
    }
}

/// The stored custom prompts, in order.
pub fn get_custom_hotkey_prompts(settings: &PromptSettings) -> (r: Result<
    Vec<CustomHotkeyPrompt>,
    String,
>)
    ensures
        r matches Ok(v) && v@ == settings.custom_hotkey_prompts@,
{
    let mut out: Vec<CustomHotkeyPrompt> = Vec::new();
    let n = settings.custom_hotkey_prompts.len();
    for i in 0..n
        invariant
            n == settings.custom_hotkey_prompts@.len(),
            out@ == settings.custom_hotkey_prompts@.take(i as int),
    {
        out.push(settings.custom_hotkey_prompts[i].duplicate());
        assert(out@ =~= settings.custom_hotkey_prompts@.take(i + 1));
    }
    assert(out@ =~= settings.custom_hotkey_prompts@);
    Ok(out)
}

/// What `hotkey` collides with, for the settings screen.
pub fn check_custom_prompt_hotkey_conflict(
    settings: &PromptSettings,
    hotkey: String,
    exclude_id: Option<String>,
) -> (r: Result<Option<String>, String>)
    ensures
        r matches Ok(found) && match (found, conflict_of(settings@, hotkey@, opt_text(exclude_id))) {
            (Some(a), Some(b)) => a@ == b,
            (None, None) => true,
            _ => false,
        },
{
    let exclude = match &exclude_id {
        Some(x) => Some(x.as_str()),
        None => None,
    };
    Ok(find_conflict(settings, hotkey.as_str(), exclude))
}

} // verus!
