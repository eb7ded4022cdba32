//! The decisions behind the app's commands: what a setting the user typed
//! must be, what is kept of it, which hotkey is active, which voices are
//! bound to whom, and what the user is told when something is refused.
//! The commands themselves — the window, the database, the keyring, the
//! network — are the application's.

use vstd::prelude::*;

use crate::character::{Character, CharacterInput};
use crate::dashscope::{spec_is_valid_region, spec_is_valid_workspace_id};
use crate::i18n::{tr, Lang};
use crate::text::{
    copy_opt, copy_str, debug_text, decimal, extend_str, is_blank, is_blank_str, push_debug,
    push_decimal, str_eq, string_of, trim, trim_str,
};

verus! {

/// The push-to-talk hotkey when the user has never chosen one.
pub const DEFAULT_HOTKEY: &'static str = "Ctrl+Shift+Space";

/// Why a command was refused.
#[derive(Debug)]
pub enum CommandError {
    EmptyApiKey,
    NotAWorkspaceId,
    UnknownRegion { region: String },
    NoApiKey,
    EmptyConversationName,
    ConversationNotFound,
    ConversationStillGoing,
    CharacterNotFound,
    MemoryNotFound,
    EmptyAvatarPrompt,
    AlreadyRecording,
    NotRecording,
    /// The voice is still some character's; `name` is that character's.
    VoiceStillBound { name: String },
    /// A picked file over the limit: its size and the limit, in MB.
    BackupTooLarge { mb: u64, max_mb: u64 },
    CharacterFileTooLarge { mb: u64, max_mb: u64 },
    NoUpdateChecked,
}

pub open spec fn spec_command_error_message(e: CommandError, lang: Lang) -> Seq<char> {
    match e {
        CommandError::EmptyApiKey => tr(lang, "API key cannot be empty"@, "API key 不能为空"@),
        CommandError::NotAWorkspaceId => tr(
            lang,
            "That doesn't look like a Workspace ID — enter the id from the Model Studio console (letters, digits, - and _ only), not a URL"@,
            "这不像是 Workspace ID。请填写百炼控制台中的工作空间 ID（只含字母、数字、- 和 _），而不是网址"@,
        ),
        CommandError::UnknownRegion { region } => tr(
            lang,
            "Unknown region "@ + debug_text(region@),
            "未知的地域 "@ + debug_text(region@),
        ),
        CommandError::NoApiKey => tr(lang, "No API key configured yet"@, "尚未配置 API key"@),
        CommandError::EmptyConversationName => tr(
            lang,
            "The name cannot be empty"@,
            "名称不能为空"@,
        ),
        CommandError::ConversationNotFound => tr(lang, "Conversation not found"@, "会话不存在"@),
        CommandError::ConversationStillGoing => tr(
            lang,
            "This conversation is still going — close the mic and let it end before deleting it"@,
            "这是正在进行中的会话，请先结束后再删除"@,
        ),
        CommandError::CharacterNotFound => tr(lang, "Character not found"@, "角色不存在"@),
        CommandError::MemoryNotFound => tr(lang, "Memory not found"@, "记忆不存在"@),
        CommandError::EmptyAvatarPrompt => tr(
            lang,
            "Describe what the avatar should look like first"@,
            "请先描述头像的样子"@,
        ),
        CommandError::AlreadyRecording => tr(lang, "Already recording"@, "已经在录音"@),
        CommandError::NotRecording => tr(lang, "Recording has not been started"@, "尚未开始录音"@),
        CommandError::VoiceStillBound { name } => tr(
            lang,
            "This voice is still bound to character \""@ + name@
                + "\" — switch that character to a different voice before deleting it"@,
            "音色仍绑定在角色「"@ + name@ + "」上，请先在该角色里更换音色再删除"@,
        ),
        CommandError::BackupTooLarge { mb, max_mb } => tr(
            lang,
            "That file is "@ + decimal(mb as nat)
                + " MB — too large to be a Voice Chat backup (the limit is "@ + decimal(
                max_mb as nat,
            ) + " MB)"@,
            "该文件有 "@ + decimal(mb as nat) + " MB，超出了 Voice Chat 备份的大小上限（"@ + decimal(
                max_mb as nat,
            ) + " MB）"@,
        ),
        CommandError::CharacterFileTooLarge { mb, max_mb } => tr(
            lang,
            "That file is "@ + decimal(mb as nat)
                + " MB — too large to be a Voice Chat character (the limit is "@ + decimal(
                max_mb as nat,
            ) + " MB)"@,
            "该文件有 "@ + decimal(mb as nat) + " MB，超出了 Voice Chat 角色文件的大小上限（"@
                + decimal(max_mb as nat) + " MB）"@,
        ),
        CommandError::NoUpdateChecked => tr(lang, "Check for updates first."@, "请先检查更新。"@),
    }
}

impl CommandError {
    pub fn message(&self, lang: Lang) -> (r: String)
        ensures
            r@ == spec_command_error_message(*self, lang),
    {
        let en = lang == Lang::En;
        let mut v: Vec<char> = Vec::new();
        match self {
            CommandError::EmptyApiKey => extend_str(
                &mut v,
                if en { "API key cannot be empty" } else { "API key 不能为空" },
            ),
            CommandError::NotAWorkspaceId => extend_str(
                &mut v,
                if en {
                    "That doesn't look like a Workspace ID — enter the id from the Model Studio console (letters, digits, - and _ only), not a URL"
                } else {
                    "这不像是 Workspace ID。请填写百炼控制台中的工作空间 ID（只含字母、数字、- 和 _），而不是网址"
                },
            ),
            CommandError::UnknownRegion { region } => {
                extend_str(&mut v, if en { "Unknown region " } else { "未知的地域 " });
                push_debug(&mut v, region.as_str());
            },
            CommandError::NoApiKey => extend_str(
                &mut v,
                if en { "No API key configured yet" } else { "尚未配置 API key" },
            ),
            CommandError::EmptyConversationName => extend_str(
                &mut v,
                if en { "The name cannot be empty" } else { "名称不能为空" },
            ),
            CommandError::ConversationNotFound => extend_str(
                &mut v,
                if en { "Conversation not found" } else { "会话不存在" },
            ),
            CommandError::ConversationStillGoing => extend_str(
                &mut v,
                if en {
                    "This conversation is still going — close the mic and let it end before deleting it"
                } else {
                    "这是正在进行中的会话，请先结束后再删除"
                },
            ),
            CommandError::CharacterNotFound => extend_str(
                &mut v,
                if en { "Character not found" } else { "角色不存在" },
            ),
            CommandError::MemoryNotFound => extend_str(
                &mut v,
                if en { "Memory not found" } else { "记忆不存在" },
            ),
            CommandError::EmptyAvatarPrompt => extend_str(
                &mut v,
                if en { "Describe what the avatar should look like first" } else { "请先描述头像的样子" },
            ),
            CommandError::AlreadyRecording => extend_str(
                &mut v,
                if en { "Already recording" } else { "已经在录音" },
            ),
            CommandError::NotRecording => extend_str(
                &mut v,
                if en { "Recording has not been started" } else { "尚未开始录音" },
            ),
            CommandError::VoiceStillBound { name } => {
                extend_str(
                    &mut v,
                    if en { "This voice is still bound to character \"" } else { "音色仍绑定在角色「" },
                );
                extend_str(&mut v, name.as_str());
                extend_str(
                    &mut v,
                    if en {
                        "\" — switch that character to a different voice before deleting it"
                    } else {
                        "」上，请先在该角色里更换音色再删除"
                    },
                );
            },
            CommandError::BackupTooLarge { mb, max_mb } => {
                extend_str(&mut v, if en { "That file is " } else { "该文件有 " });
                push_decimal(&mut v, *mb);
                extend_str(
                    &mut v,
                    if en {
                        " MB — too large to be a Voice Chat backup (the limit is "
                    } else {
                        " MB，超出了 Voice Chat 备份的大小上限（"
                    },
                );
                push_decimal(&mut v, *max_mb);
                extend_str(&mut v, if en { " MB)" } else { " MB）" });
            },
            CommandError::CharacterFileTooLarge { mb, max_mb } => {
                extend_str(&mut v, if en { "That file is " } else { "该文件有 " });
                push_decimal(&mut v, *mb);
                extend_str(
                    &mut v,
                    if en {
                        " MB — too large to be a Voice Chat character (the limit is "
                    } else {
                        " MB，超出了 Voice Chat 角色文件的大小上限（"
                    },
                );
                push_decimal(&mut v, *max_mb);
                extend_str(&mut v, if en { " MB)" } else { " MB）" });
            },
            CommandError::NoUpdateChecked => extend_str(
                &mut v,
                if en { "Check for updates first." } else { "请先检查更新。" },
            ),
        }
        assert(v@ =~= spec_command_error_message(*self, lang));
        string_of(&v)
    }
}

// ---------------------------------------------------------------------
// Connection settings.

/// The API key, as typed: surrounding whitespace dropped, and there has to
/// be something left.
pub fn check_api_key(key: &str) -> (r: Result<String, CommandError>)
    ensures
        is_blank(key@) ==> r matches Err(CommandError::EmptyApiKey),
        !is_blank(key@) ==> (r matches Ok(k) && k@ == trim(key@)),
{
    if is_blank_str(key) {
        return Err(CommandError::EmptyApiKey);
    }
    Ok(trim_str(key))
}

pub struct ConnectionSettings {
    pub workspace_id: Option<String>,
    pub region: Option<String>,
}

/// A setting's text, trimmed; absent is the empty string, which is how
/// "none" is stored.
pub open spec fn trimmed_or_empty(o: Option<String>) -> Seq<char> {
    match o {
        Some(s) => trim(s@),
        None => Seq::<char>::empty(),
    }
}

/// Why connection settings are refused: a workspace id that isn't one,
/// or a region this build doesn't know (trimmed, as typed).
pub ghost enum ConnectionRefusal {
    NotAWorkspaceId,
    UnknownRegion(Seq<char>),
}

/// Both values end up interpolated into the hostname every request — API
/// key attached — is sent to, so they are checked where they enter: an id
/// made of what real ids are made of, a region this build knows, or
/// nothing. `Ok` holds what to store.
pub open spec fn spec_check_connection(s: ConnectionSettings) -> Result<(Seq<char>, Seq<char>), ConnectionRefusal> {
    let w = trimmed_or_empty(s.workspace_id);
    let r = trimmed_or_empty(s.region);
    if w.len() > 0 && !spec_is_valid_workspace_id(w) {
        Err(ConnectionRefusal::NotAWorkspaceId)
    } else if r.len() > 0 && !spec_is_valid_region(r) {
        Err(ConnectionRefusal::UnknownRegion(r))
    } else {
        Ok((w, r))
    }
}

fn trimmed_setting(o: &Option<String>) -> (r: String)
    ensures
        r@ == trimmed_or_empty(*o),
{
    match o {
        Some(s) => trim_str(s.as_str()),
        None => String::new(),
    }
}

pub fn check_connection_settings(s: &ConnectionSettings) -> (r: Result<(String, String), CommandError>)
    ensures
        match r {
            Ok((w, reg)) => spec_check_connection(*s) == Ok::<
                (Seq<char>, Seq<char>),
                ConnectionRefusal,
            >((w@, reg@)),
            Err(CommandError::NotAWorkspaceId) => spec_check_connection(*s) == Err::<
                (Seq<char>, Seq<char>),
                ConnectionRefusal,
            >(ConnectionRefusal::NotAWorkspaceId),
            Err(CommandError::UnknownRegion { region }) => spec_check_connection(*s) == Err::<
                (Seq<char>, Seq<char>),
                ConnectionRefusal,
            >(ConnectionRefusal::UnknownRegion(region@)),
            Err(_) => false,
        },
{
    let w = trimmed_setting(&s.workspace_id);
    if w.unicode_len() > 0 && !crate::dashscope::is_valid_workspace_id(w.as_str()) {
        return Err(CommandError::NotAWorkspaceId);
    }
    let reg = trimmed_setting(&s.region);
    if reg.unicode_len() > 0 && !crate::dashscope::is_valid_region(reg.as_str()) {
        return Err(CommandError::UnknownRegion { region: reg });
    }
    Ok((w, reg))
}

/// A backup's workspace id and region get exactly the check a typed-in
/// value gets: a file carrying them is turned away precisely when Settings
/// would refuse them.
pub proof fn law_restored_connection_checked_as_typed(workspace_id: Option<String>, region: Option<String>)
    ensures
        crate::backup::spec_check_settings(
            crate::backup::BackupSettings {
                api_key: None,
                workspace_id,
                region,
                hotkey: None,
                vad_threshold: None,
                vad_silence_ms: None,
                ui_language: None,
            },
        ) is None <==> spec_check_connection(ConnectionSettings { workspace_id, region }) is Ok,
{
}

/// The display language's tag from the stored setting: the language it
/// names, or the default when the user never chose.
pub fn ui_language_tag(stored: Option<&str>) -> (r: &'static str)
    ensures
        r@ == match stored {
            Some(t) => if t@.len() > 0 {
                crate::i18n::spec_tag(crate::i18n::spec_from_tag(t@))
            } else {
                crate::i18n::spec_tag(crate::i18n::DEFAULT)
            },
            None => crate::i18n::spec_tag(crate::i18n::DEFAULT),
        },
{
    match stored {
        Some(t) => if t.unicode_len() > 0 {
            Lang::from_tag(t).tag()
        } else {
            crate::i18n::DEFAULT.tag()
        },
        None => crate::i18n::DEFAULT.tag(),
    }
}

// ---------------------------------------------------------------------
// The push-to-talk hotkey.

pub open spec fn spec_active_hotkey(stored: Option<Seq<char>>) -> Option<Seq<char>> {
    match stored {
        None => Some(DEFAULT_HOTKEY@),
        Some(s) => if s.len() == 0 {
            None
        } else {
            Some(s)
        },
    }
}

/// The hotkey in force from the stored setting: never set is the default,
/// the empty string is the hotkey turned off.
pub fn active_hotkey(stored: Option<&str>) -> (r: Option<String>)
    ensures
        crate::llm::opt_string(r) == spec_active_hotkey(crate::dashscope::opt_view(stored)),
{
    match stored {
        None => Some(copy_str(DEFAULT_HOTKEY)),
        Some(s) => if s.unicode_len() == 0 {
            None
        } else {
            Some(copy_str(s))
        },
    }
}

/// How the hotkey changes when the user asks for `requested` (`None`, or
/// nothing but whitespace, turns it off).
#[derive(Debug)]
pub enum HotkeyChange {
    /// Already in force: nothing to do.
    Unchanged,
    /// Register `register` first — a combo that is taken or invalid then
    /// leaves the old one working — then let go of `release`, and store
    /// `store`.
    Change { register: Option<String>, release: Option<String>, store: String },
}

pub open spec fn wanted_hotkey(requested: Option<Seq<char>>) -> Option<Seq<char>> {
    match requested {
        Some(r) => if is_blank(r) {
            None
        } else {
            Some(r)
        },
        None => None,
    }
}

pub fn hotkey_change(stored: Option<&str>, requested: Option<String>) -> (r: HotkeyChange)
    ensures
        ({
            let old = spec_active_hotkey(crate::dashscope::opt_view(stored));
            let new = wanted_hotkey(crate::llm::opt_string(requested));
            match r {
                HotkeyChange::Unchanged => new == old,
                HotkeyChange::Change { register, release, store } => new != old
                    && crate::llm::opt_string(register) == new && crate::llm::opt_string(release)
                    == old && store@ == match new {
                    Some(n) => n,
                    None => Seq::<char>::empty(),
                },
            }
        }),
{
    let previous = active_hotkey(stored);
    let wanted: Option<String> = match requested {
        Some(r) => if is_blank_str(r.as_str()) {
            None
        } else {
            Some(r)
        },
        None => None,
    };
    let same = match (&wanted, &previous) {
        (Some(a), Some(b)) => str_eq(a.as_str(), b.as_str()),
        (None, None) => true,
        _ => false,
    };
    if same {
        return HotkeyChange::Unchanged;
    }
    let store = match &wanted {
        Some(w) => copy_str(w.as_str()),
        None => String::new(),
    };
    HotkeyChange::Change { register: wanted, release: previous, store }
}

/// The hotkey a restored backup asks for: trimmed, and none at all when
/// that leaves nothing.
pub fn restored_hotkey(hotkey: &str) -> (r: Option<String>)
    ensures
        is_blank(hotkey@) ==> r is None,
        !is_blank(hotkey@) ==> (r matches Some(h) && h@ == trim(hotkey@)),
{
    if is_blank_str(hotkey) {
        None
    } else {
        Some(trim_str(hotkey))
    }
}

// ---------------------------------------------------------------------
// Conversations and characters.

/// A name typed for a conversation: trimmed, and not empty.
pub fn check_conversation_title(title: &str) -> (r: Result<String, CommandError>)
    ensures
        is_blank(title@) ==> r matches Err(CommandError::EmptyConversationName),
        !is_blank(title@) ==> (r matches Ok(t) && t@ == trim(title@)),
{
    if is_blank_str(title) {
        return Err(CommandError::EmptyConversationName);
    }
    Ok(trim_str(title))
}

/// A conversation the live session is still writing to can't be deleted:
/// every following turn would fail, and the row come back half-written.
pub fn check_deletable(active: Option<&str>, id: &str) -> (r: Result<(), CommandError>)
    ensures
        (active matches Some(a) && a@ == id@) ==> r matches Err(CommandError::ConversationStillGoing),
        !(active matches Some(a) && a@ == id@) ==> r is Ok,
{
    match active {
        Some(a) => if str_eq(a, id) {
            Err(CommandError::ConversationStillGoing)
        } else {
            Ok(())
        },
        None => Ok(()),
    }
}

/// The picture a character no longer uses after an edit, to delete.
pub fn avatar_to_release(before: Option<&str>, after: Option<&str>) -> (r: Option<String>)
    ensures
        match before {
            Some(b) => if (after matches Some(a) && a@ == b@) {
                r is None
            } else {
                r matches Some(x) && x@ == b@
            },
            None => r is None,
        },
{
    match before {
        Some(b) => {
            let same = match after {
                Some(a) => str_eq(a, b),
                None => false,
            };
            if same {
                None
            } else {
                Some(copy_str(b))
            }
        },
        None => None,
    }
}

/// The current character's id from the stored setting: the empty string
/// is none.
pub fn current_character_id(stored: Option<&str>) -> (r: Option<String>)
    ensures
        match stored {
            Some(s) => if s@.len() > 0 {
                r matches Some(x) && x@ == s@
            } else {
                r is None
            },
            None => r is None,
        },
{
    match stored {
        Some(s) => if s.unicode_len() > 0 {
            Some(copy_str(s))
        } else {
            None
        },
        None => None,
    }
}

/// Who becomes current when the current character is deleted: the first
/// that remains, or nobody (stored as the empty string).
pub fn next_current_character(remaining: &[Character]) -> (r: String)
    ensures
        remaining@.len() > 0 ==> r@ == remaining@[0].id@,
        remaining@.len() == 0 ==> r@ == Seq::<char>::empty(),
{
    if remaining.len() > 0 {
        copy_str(remaining[0].id.as_str())
    } else {
        String::new()
    }
}

/// A description to draw an avatar from: trimmed, and not empty.
pub fn check_avatar_prompt(prompt: &str) -> (r: Result<String, CommandError>)
    ensures
        is_blank(prompt@) ==> r matches Err(CommandError::EmptyAvatarPrompt),
        !is_blank(prompt@) ==> (r matches Ok(t) && t@ == trim(prompt@)),
{
    if is_blank_str(prompt) {
        return Err(CommandError::EmptyAvatarPrompt);
    }
    Ok(trim_str(prompt))
}

/// What the persona helper is told.
pub const POLISH_PROMPT: &'static str = "你是角色设定助手。根据用户的一句话描述，扩写出适合语音陪聊角色的人设。严格只输出 JSON，不要有任何其他文字，格式为 {\"persona\": \"2-3 句的人设描述\", \"speech_habits\": \"1-2 句的语言习惯描述\"}";

pub struct PersonaPolish {
    pub persona: String,
    pub speech_habits: String,
}

/// What the persona helper's answer gives: its two fields when it is the
/// JSON asked for, and otherwise the whole answer as the persona.
pub fn polish_result(parsed: Option<(String, String)>, raw: String) -> (r: PersonaPolish)
    ensures
        match parsed {
            Some((p, h)) => r.persona == p && r.speech_habits == h,
            None => r.persona == raw && r.speech_habits@ == Seq::<char>::empty(),
        },
{
    match parsed {
        Some((persona, speech_habits)) => PersonaPolish { persona, speech_habits },
        None => PersonaPolish { persona: raw, speech_habits: String::new() },
    }
}

/// What a character made from a shared file starts as: the file's
/// character, with the voice made for it under this user's account, and
/// the defaults a new character gets where the file is silent.
pub fn imported_input(
    shared: crate::share::SharedCharacter,
    avatar_path: Option<String>,
    voice_kind: &str,
    voice_id: String,
    voice_prompt: Option<String>,
) -> (r: CharacterInput)
    ensures
        r.name == shared.name,
        r.avatar_path == avatar_path,
        r.language == shared.language,
        r.persona == shared.persona,
        r.speech_habits == shared.speech_habits,
        r.voice_kind@ == voice_kind@,
        r.voice_id == Some(voice_id),
        r.voice_prompt == voice_prompt,
        r.memory_enabled == match shared.memory_enabled {
            Some(m) => m,
            None => true,
        },
        r.max_history_turns == match shared.max_history_turns {
            Some(t) => t,
            None => 20,
        },
{
    let memory_enabled = match shared.memory_enabled {
        Some(m) => m,
        None => true,
    };
    let max_history_turns: i64 = match shared.max_history_turns {
        Some(t) => t,
        None => 20,
    };
    CharacterInput {
        name: shared.name,
        avatar_path,
        language: shared.language,
        persona: shared.persona,
        speech_habits: shared.speech_habits,
        voice_kind: copy_str(voice_kind),
        voice_id: Some(voice_id),
        voice_prompt,
        memory_enabled,
        max_history_turns,
    }
}

/// What the user reads when the voice they picked for a shared character
/// can't be shared — before there is any file to blame.
pub open spec fn spec_unshareable_voice(why: crate::checks::Reason, lang: Lang) -> Seq<char> {
    tr(lang, "This voice can't be shared: "@, "无法分享这个音色："@) + crate::checks::spec_reason_text(
        why,
        lang,
    )
}

pub fn unshareable_voice(why: &crate::checks::Reason, lang: Lang) -> (r: String)
    ensures
        r@ == spec_unshareable_voice(*why, lang),
{
    let mut v: Vec<char> = Vec::new();
    extend_str(&mut v, if lang == Lang::En { "This voice can't be shared: " } else { "无法分享这个音色：" });
    let t = why.text(lang);
    extend_str(&mut v, t.as_str());
    string_of(&v)
}

// ---------------------------------------------------------------------
// Voices.

pub struct DesignPreviewResult {
    /// The TTS-series voice the preview enrolled, to be discarded once done
    /// with.
    pub tts_voice: Option<String>,
    pub preview_audio_data_uri: String,
}

/// The preview as the design tab plays it: the WAV as a `data:` URL.
pub fn design_preview_result(preview: crate::voice::service::DesignedVoicePreview) -> (r: DesignPreviewResult)
    ensures
        r.tts_voice == preview.tts_voice,
        r.preview_audio_data_uri@ == "data:audio/wav;base64,"@ + preview.preview_audio_b64@,
{
    let mut v: Vec<char> = Vec::new();
    extend_str(&mut v, "data:audio/wav;base64,");
    extend_str(&mut v, preview.preview_audio_b64.as_str());
    DesignPreviewResult { tts_voice: preview.tts_voice, preview_audio_data_uri: string_of(&v) }
}

/// Whether a voice the design tab hands back may be deleted: anything
/// shaped like a realtime voice — the only kind a character can speak
/// with — is refused, so a wrong id can't cost one.
pub fn is_discardable_preview(voice_id: &str) -> (r: bool)
    ensures
        r == !crate::text::starts_with(voice_id@, crate::voice::service::REALTIME_TARGET_MODEL@),
{
    let v = crate::text::chars_of(voice_id);
    let p = crate::text::chars_of(crate::voice::service::REALTIME_TARGET_MODEL);
    !crate::text::starts_with_chars(&v, &p)
}

pub struct ManagedVoice {
    pub voice_id: String,
    pub status: Option<String>,
    pub created_at: Option<String>,
    pub bound_character_id: Option<String>,
    pub bound_character_name: Option<String>,
    /// Whether the live session can speak with this voice.
    pub realtime_compatible: bool,
}

/// The first character speaking with `voice_id`.
pub open spec fn bound_to(cs: Seq<Character>, voice_id: Seq<char>) -> Option<int>
    decreases cs.len(),
{
    if cs.len() == 0 {
        None
    } else {
        match bound_to(cs.drop_last(), voice_id) {
            Some(i) => Some(i),
            None => if (cs.last().voice_id matches Some(v) && v@ == voice_id) {
                Some(cs.len() - 1)
            } else {
                None
            },
        }
    }
}

proof fn lemma_bound_to_range(cs: Seq<Character>, voice_id: Seq<char>)
    ensures
        bound_to(cs, voice_id) matches Some(i) ==> 0 <= i < cs.len(),
    decreases cs.len(),
{
    if cs.len() > 0 {
        lemma_bound_to_range(cs.drop_last(), voice_id);
    }
}

pub fn bound_character(characters: &[Character], voice_id: &str) -> (r: Option<usize>)
    ensures
        match r {
            Some(i) => bound_to(characters@, voice_id@) == Some(i as int) && i < characters@.len(),
            None => bound_to(characters@, voice_id@) is None,
        },
{
    let mut i: usize = 0;
    while i < characters.len()
        invariant
            i <= characters@.len(),
            bound_to(characters@.take(i as int), voice_id@) is None,
        decreases characters.len() - i,
    {
        assert(characters@.take(i + 1).drop_last() =~= characters@.take(i as int));
        assert(characters@.take(i + 1).last() == characters@[i as int]);
        let hit = match &characters[i].voice_id {
            Some(v) => str_eq(v.as_str(), voice_id),
            None => false,
        };
        if hit {
            proof {
                lemma_bound_prefix(characters@, voice_id@, i + 1);
            }
            return Some(i);
        }
        i += 1;
    }
    assert(characters@.take(characters@.len() as int) =~= characters@);
    None
}

proof fn lemma_bound_prefix(cs: Seq<Character>, voice_id: Seq<char>, k: int)
    requires
        0 <= k <= cs.len(),
        bound_to(cs.take(k), voice_id) is Some,
    ensures
        bound_to(cs, voice_id) == bound_to(cs.take(k), voice_id),
    decreases cs.len() - k,
{
    if k == cs.len() {
        assert(cs.take(k) =~= cs);
    } else {
        assert(cs.take(k + 1).drop_last() =~= cs.take(k));
        lemma_bound_prefix(cs, voice_id, k + 1);
    }
}

/// A voice can't be deleted while a character still speaks with it.
pub fn check_voice_unbound(characters: &[Character], voice_id: &str) -> (r: Result<(), CommandError>)
    ensures
        match bound_to(characters@, voice_id@) {
            Some(i) => r matches Err(CommandError::VoiceStillBound { name }) && name@
                == characters@[i].name@,
            None => r is Ok,
        },
{
    match bound_character(characters, voice_id) {
        Some(i) => Err(CommandError::VoiceStillBound { name: copy_str(characters[i].name.as_str()) }),
        None => Ok(()),
    }
}

/// Each listed voice as the Voice Studio shows it: whether the live
/// session can speak with it, and which character, if any, does.
pub fn managed_voices(
    entries: &[crate::voice::service::VoiceListEntry],
    characters: &[Character],
) -> (r: Vec<ManagedVoice>)
    ensures
        r@.len() == entries@.len(),
        forall|k: int|
            0 <= k < r@.len() ==> {
                let v = #[trigger] r@[k];
                let e = entries@[k];
                &&& v.voice_id@ == e.voice_id@
                &&& v.status == e.status
                &&& v.created_at == e.gmt_create
                &&& v.realtime_compatible == crate::voice::service::spec_is_realtime(
                    e.voice_id@,
                    crate::llm::opt_string(e.target_model),
                )
                &&& match bound_to(characters@, e.voice_id@) {
                    Some(i) => (v.bound_character_id matches Some(x) && x@ == characters@[i].id@)
                        && (v.bound_character_name matches Some(n) && n@ == characters@[i].name@),
                    None => v.bound_character_id is None && v.bound_character_name is None,
                }
            },
{
    let mut out: Vec<ManagedVoice> = Vec::new();
    let mut k: usize = 0;
    while k < entries.len()
        invariant
            k <= entries@.len(),
            out@.len() == k,
            forall|j: int|
                0 <= j < k ==> {
                    let v = #[trigger] out@[j];
                    let e = entries@[j];
                    &&& v.voice_id@ == e.voice_id@
                    &&& v.status == e.status
                    &&& v.created_at == e.gmt_create
                    &&& v.realtime_compatible == crate::voice::service::spec_is_realtime(
                        e.voice_id@,
                        crate::llm::opt_string(e.target_model),
                    )
                    &&& match bound_to(characters@, e.voice_id@) {
                        Some(i) => (v.bound_character_id matches Some(x) && x@
                            == characters@[i].id@) && (v.bound_character_name matches Some(n)
                            && n@ == characters@[i].name@),
                        None => v.bound_character_id is None && v.bound_character_name is None,
                    }
                },
        decreases entries.len() - k,
    {
        let e = &entries[k];
        let realtime = e.is_realtime();
        let (bid, bname) = match bound_character(characters, e.voice_id.as_str()) {
            Some(i) => (
                Some(copy_str(characters[i].id.as_str())),
                Some(copy_str(characters[i].name.as_str())),
            ),
            None => (None, None),
        };
        out.push(
            ManagedVoice {
                voice_id: copy_str(e.voice_id.as_str()),
                status: copy_opt(&e.status),
                created_at: copy_opt(&e.gmt_create),
                bound_character_id: bid,
                bound_character_name: bname,
                realtime_compatible: realtime,
            },
        );
        k += 1;
    }
    out
}

// ---------------------------------------------------------------------
// Backups, shared files, updates.

/// Upper bound on a backup file picked for restoring.
pub const MAX_BACKUP_BYTES: u64 = 256 * 1024 * 1024;
/// Upper bound on a shared character file.
pub const MAX_CHARACTER_FILE_BYTES: u64 = 32 * 1024 * 1024;

/// A picked backup of `size` bytes, checked before it is read: the whole
/// file is held in memory twice over.
pub fn check_backup_size(size: u64) -> (r: Result<(), CommandError>)
    ensures
        size <= MAX_BACKUP_BYTES ==> r is Ok,
        size > MAX_BACKUP_BYTES ==> (r matches Err(CommandError::BackupTooLarge { mb, max_mb })
            && mb == size / 1_048_576 && max_mb == 256),
{
    if size > MAX_BACKUP_BYTES {
        return Err(CommandError::BackupTooLarge { mb: size / 1_048_576, max_mb: MAX_BACKUP_BYTES / 1_048_576 });
    }
    Ok(())
}

/// Likewise a picked character file.
pub fn check_character_file_size(size: u64) -> (r: Result<(), CommandError>)
    ensures
        size <= MAX_CHARACTER_FILE_BYTES ==> r is Ok,
        size > MAX_CHARACTER_FILE_BYTES ==> (r matches Err(
            CommandError::CharacterFileTooLarge { mb, max_mb },
        ) && mb == size / 1_048_576 && max_mb == 32),
{
    if size > MAX_CHARACTER_FILE_BYTES {
        return Err(
            CommandError::CharacterFileTooLarge {
                mb: size / 1_048_576,
                max_mb: MAX_CHARACTER_FILE_BYTES / 1_048_576,
            },
        );
    }
    Ok(())
}

pub struct BackupExport {
    pub path: String,
    pub totals: crate::backup::Totals,
}

/// A newer release than the one running.
pub struct UpdateInfo {
    pub version: String,
    pub current_version: String,
    /// The release notes; none when they are blank.
    pub notes: Option<String>,
    /// When it was published, RFC 3339.
    pub date: Option<String>,
}

pub fn update_info(version: String, current_version: String, notes: Option<String>, date: Option<String>) -> (r: UpdateInfo)
    ensures
        r.version == version,
        r.current_version == current_version,
        r.date == date,
        match notes {
            Some(n) => if is_blank(n@) {
                r.notes is None
            } else {
                r.notes == Some(n)
            },
            None => r.notes is None,
        },
{
    let notes = match notes {
        Some(n) => if is_blank_str(n.as_str()) {
            None
        } else {
            Some(n)
        },
        None => None,
    };
    UpdateInfo { version, current_version, notes, date }
}

/// How the update download is getting on.
pub enum UpdateDownloadEvent {
    Progress { downloaded: u64, total: Option<u64> },
    /// Downloaded and its signature checked; the installer takes over next.
    Installing,
}

/// How much more has to arrive before progress is reported again: a
/// percent of the total, or a MiB when the total isn't known.
pub open spec fn report_step(total: Option<u64>) -> u64 {
    match total {
        Some(t) => if t / 100 >= 1 {
            t / 100
        } else {
            1
        },
        None => 1_048_576,
    }
}

/// Whether to report progress having `downloaded` bytes, `reported` of
/// which were reported last: a step further on, or all of it in.
pub fn should_report(downloaded: u64, reported: u64, total: Option<u64>) -> (r: bool)
    requires
        reported <= downloaded,
    ensures
        r == (downloaded - reported >= report_step(total) || total == Some(downloaded)),
{
    let step: u64 = match total {
        Some(t) => if t / 100 >= 1 {
            t / 100
        } else {
            1
        },
        None => 1_048_576,
    };
    let done = match total {
        Some(t) => t == downloaded,
        None => false,
    };
    downloaded - reported >= step || done
}

} // verus!
