//! One character as a file for handing to someone else: who they are, what
//! they look like if the sender chose to include that, and what they sound
//! like. Nothing else — no memories, no conversations, no ids, no settings
//! and never the API key.
//!
//! The voice travels as what it was made *from*: a preset's name, a Voice
//! Design description, or a recording to clone. Pictures and audio are
//! `data:` URLs, so the file stays one JSON document a person can read.

use vstd::prelude::*;

use crate::avatar::{data_url, spec_decode_data_url, DataErrorV};
use crate::encoding::well_encoded;
use crate::character::{check_name, spec_check_name, Character};
use crate::checks::{
    check_in_set, check_text, in_set, opt_reason, spec_reason_text, spec_text, Reason, ReasonV,
    ValueSet, MAX_HISTORY_TURNS,
};
use crate::i18n::{tr, Lang};
use crate::text::{
    copy_opt, copy_str, decimal, extend_str, push_decimal, str_eq, string_of, trim, trim_str,
    utf8_len,
};
use crate::voice::service::{is_preset, is_preset_voice};

verus! {

/// Stamped into every file and checked on the way back in.
pub const FORMAT: &'static str = "voice-chat-character";

/// Bumped only when the shape changes such that an older build would
/// misread a newer file. Import accepts anything up to this.
pub const VERSION: u32 = 1;

/// Both prose fields go into the instructions on every connect.
pub const PROSE_CHARS: usize = 20_000;
/// What Voice Design accepts, and what the Voice Studio's box allows.
pub const VOICE_PROMPT_CHARS: usize = 500;
pub const PREVIEW_TEXT_CHARS: usize = 1_000;

#[derive(Debug)]
pub struct SharedCharacter {
    pub format: String,
    pub version: u32,
    pub name: String,
    /// A reply language; a hand-written file that leaves it out gets
    /// `auto`.
    pub language: String,
    pub persona: String,
    pub speech_habits: String,
    /// A `data:` URL, when the sender included the picture.
    pub avatar: Option<String>,
    pub voice: SharedVoice,
    pub memory_enabled: Option<bool>,
    pub max_history_turns: Option<i64>,
}

/// What the recipient's copy of the voice is made from.
#[derive(Debug)]
pub enum SharedVoice {
    /// One of the preset voices, used as it is.
    Preset { id: String },
    /// A Voice Design description, and what the designed voice reads aloud
    /// for the sample the realtime voice is cloned from.
    Description { prompt: String, preview_text: Option<String> },
    /// A recording to clone, as a `data:` URL.
    Audio { data: String },
}

pub ghost enum SharedVoiceV {
    Preset { id: Seq<char> },
    Description { prompt: Seq<char>, preview_text: Option<Seq<char>> },
    Audio { data: Seq<char> },
}

pub open spec fn opt_seq(o: Option<String>) -> Option<Seq<char>> {
    match o {
        Some(s) => Some(s@),
        None => None,
    }
}

impl SharedVoice {
    pub open spec fn view(self) -> SharedVoiceV {
        match self {
            SharedVoice::Preset { id } => SharedVoiceV::Preset { id: id@ },
            SharedVoice::Description { prompt, preview_text } => SharedVoiceV::Description {
                prompt: prompt@,
                preview_text: opt_seq(preview_text),
            },
            SharedVoice::Audio { data } => SharedVoiceV::Audio { data: data@ },
        }
    }
}

pub ghost struct SharedCharacterV {
    pub format: Seq<char>,
    pub version: u32,
    pub name: Seq<char>,
    pub language: Seq<char>,
    pub persona: Seq<char>,
    pub speech_habits: Seq<char>,
    pub avatar: Option<Seq<char>>,
    pub voice: SharedVoiceV,
    pub memory_enabled: Option<bool>,
    pub max_history_turns: Option<i64>,
}

impl SharedCharacter {
    pub open spec fn view(self) -> SharedCharacterV {
        SharedCharacterV {
            format: self.format@,
            version: self.version,
            name: self.name@,
            language: self.language@,
            persona: self.persona@,
            speech_habits: self.speech_habits@,
            avatar: opt_seq(self.avatar),
            voice: self.voice@,
            memory_enabled: self.memory_enabled,
            max_history_turns: self.max_history_turns,
        }
    }
}

// ---------------------------------------------------------------------
// Why a file is turned away.

/// Why a character file can't be imported.
#[derive(Debug)]
pub enum ShareError {
    /// The text isn't JSON of the right shape; `detail` is the parser's
    /// account of why.
    Unreadable { detail: String },
    /// A backup, which belongs in Settings rather than here.
    IsABackup,
    /// Neither a backup nor a character.
    NotACharacter,
    /// Shared from a newer format than this build reads.
    Newer { version: u32 },
    /// A character file, but something in it fails its checks.
    Unusable { reason: Reason },
}

pub ghost enum ShareErrorV {
    Unreadable { detail: Seq<char> },
    IsABackup,
    NotACharacter,
    Newer { version: u32 },
    Unusable { reason: ReasonV },
}

impl ShareError {
    pub open spec fn view(self) -> ShareErrorV {
        match self {
            ShareError::Unreadable { detail } => ShareErrorV::Unreadable { detail: detail@ },
            ShareError::IsABackup => ShareErrorV::IsABackup,
            ShareError::NotACharacter => ShareErrorV::NotACharacter,
            ShareError::Newer { version } => ShareErrorV::Newer { version },
            ShareError::Unusable { reason } => ShareErrorV::Unusable { reason: reason@ },
        }
    }
}

pub open spec fn spec_share_error_message(e: ShareError, lang: Lang) -> Seq<char> {
    match e {
        ShareError::Unreadable { detail } => tr(
            lang,
            "This file isn't a readable Voice Chat character: "@ + detail@,
            "无法读取该 Voice Chat 角色文件："@ + detail@,
        ),
        ShareError::IsABackup => tr(
            lang,
            "This is a backup, not a shared character — restore it from Settings › Backup & restore instead"@,
            "这是备份文件，不是分享的角色。请到「设置 › 备份与恢复」中恢复它"@,
        ),
        ShareError::NotACharacter => tr(
            lang,
            "This file isn't a Voice Chat character"@,
            "这不是 Voice Chat 的角色文件"@,
        ),
        ShareError::Newer { version } => tr(
            lang,
            "This character was shared from a newer version of Voice Chat (format v"@ + decimal(
                version as nat,
            ) + ") — update the app first"@,
            "该角色由更新版本的 Voice Chat 导出（格式 v"@ + decimal(version as nat) + "），请先升级应用"@,
        ),
        ShareError::Unusable { reason } => tr(
            lang,
            "This character file isn't usable: "@,
            "该角色文件无法使用："@,
        ) + spec_reason_text(reason, lang),
    }
}

impl ShareError {
    pub fn message(&self, lang: Lang) -> (r: String)
        ensures
            r@ == spec_share_error_message(*self, lang),
    {
        let en = lang == Lang::En;
        let mut v: Vec<char> = Vec::new();
        match self {
            ShareError::Unreadable { detail } => {
                extend_str(
                    &mut v,
                    if en {
                        "This file isn't a readable Voice Chat character: "
                    } else {
                        "无法读取该 Voice Chat 角色文件："
                    },
                );
                extend_str(&mut v, detail.as_str());
            },
            ShareError::IsABackup => extend_str(
                &mut v,
                if en {
                    "This is a backup, not a shared character — restore it from Settings › Backup & restore instead"
                } else {
                    "这是备份文件，不是分享的角色。请到「设置 › 备份与恢复」中恢复它"
                },
            ),
            ShareError::NotACharacter => extend_str(
                &mut v,
                if en { "This file isn't a Voice Chat character" } else { "这不是 Voice Chat 的角色文件" },
            ),
            ShareError::Newer { version } => {
                extend_str(
                    &mut v,
                    if en {
                        "This character was shared from a newer version of Voice Chat (format v"
                    } else {
                        "该角色由更新版本的 Voice Chat 导出（格式 v"
                    },
                );
                push_decimal(&mut v, *version as u64);
                extend_str(&mut v, if en { ") — update the app first" } else { "），请先升级应用" });
            },
            ShareError::Unusable { reason } => {
                extend_str(
                    &mut v,
                    if en { "This character file isn't usable: " } else { "该角色文件无法使用：" },
                );
                let t = reason.text(lang);
                extend_str(&mut v, t.as_str());
            },
        }
        assert(v@ =~= spec_share_error_message(*self, lang));
        string_of(&v)
    }
}

// ---------------------------------------------------------------------
// Telling a character file from a backup and from anything else.

/// The backup stamp as it is spelt alongside this file's own stamp; a file
/// carrying it is a backup too.
pub const BACKUP_ALIAS: &'static str = "voice-chat-backup";

/// Whether a stamp marks a backup, in either spelling.
pub open spec fn is_backup_stamp(format: Seq<char>) -> bool {
    format == crate::backup::FORMAT@ || format == BACKUP_ALIAS@
}

pub open spec fn spec_check_header(format: Seq<char>) -> Result<(), ShareErrorV> {
    if is_backup_stamp(format) {
        Err(ShareErrorV::IsABackup)
    } else if format != FORMAT@ {
        Err(ShareErrorV::NotACharacter)
    } else {
        Ok(())
    }
}

/// What a file's `format` stamp says of it, before the rest is read: a
/// backup gets a pointer to where it does belong.
pub fn check_header(format: &str) -> (r: Result<(), ShareError>)
    ensures
        match r {
            Ok(()) => spec_check_header(format@) == Ok::<(), ShareErrorV>(()),
            Err(e) => spec_check_header(format@) == Err::<(), ShareErrorV>(e@),
        },
{
    if str_eq(format, crate::backup::FORMAT) || str_eq(format, BACKUP_ALIAS) {
        return Err(ShareError::IsABackup);
    }
    if !str_eq(format, FORMAT) {
        return Err(ShareError::NotACharacter);
    }
    Ok(())
}

// ---------------------------------------------------------------------
// Pictures and recordings.

/// The longest `data:` URL that could hold `max_bytes`, header included.
/// Checked before decoding, so an oversized file is turned away without
/// first being copied a second time.
pub open spec fn spec_data_url_chars(max_bytes: nat) -> nat {
    (max_bytes / 3 + 1) * 4 + 64
}

fn data_url_chars(max_bytes: usize) -> (r: usize)
    requires
        max_bytes <= usize::MAX / 2,
    ensures
        r == spec_data_url_chars(max_bytes as nat),
{
    let third = max_bytes / 3;
    assert((third + 1) * 4 + 64 <= usize::MAX) by (nonlinear_arith)
        requires
            third <= usize::MAX / 6,
    ;
    (third + 1) * 4 + 64
}

/// The picture relabelled with the type its bytes are.
pub open spec fn spec_check_avatar(url: Seq<char>) -> Result<Seq<char>, ReasonV> {
    let too_large = ReasonV::SharedAvatarTooLarge { max_mb: 5 };
    if utf8_len(url) as usize > spec_data_url_chars(crate::avatar::MAX_BYTES as nat) {
        Err(too_large)
    } else {
        match spec_decode_data_url(url) {
            Ok(b) => match crate::avatar::spec_sniff(b) {
                Some(f) => if b.len() > crate::avatar::MAX_BYTES {
                    Err(too_large)
                } else {
                    Ok(data_url(crate::avatar::spec_mime(f), b))
                },
                None => Err(ReasonV::SharedAvatarNotImage),
            },
            Err(_) => Err(ReasonV::SharedAvatarNotImage),
        }
    }
}

fn check_avatar(url: &str) -> (r: Result<String, Reason>)
    ensures
        match r {
            Ok(s) => spec_check_avatar(url@) == Ok::<Seq<char>, ReasonV>(s@),
            Err(e) => spec_check_avatar(url@) == Err::<Seq<char>, ReasonV>(e@),
        },
        r matches Ok(s) ==> spec_check_avatar(s@) == Ok::<Seq<char>, ReasonV>(s@),
{
    let max_mb: usize = crate::avatar::MAX_BYTES / 1_048_576;
    if url.len() > data_url_chars(crate::avatar::MAX_BYTES) {
        return Err(Reason::SharedAvatarTooLarge { max_mb });
    }
    match crate::avatar::decode_data_url(url) {
        Ok(bytes) => match crate::avatar::Format::sniff(bytes.as_slice()) {
            Some(f) => if bytes.len() > crate::avatar::MAX_BYTES {
                Err(Reason::SharedAvatarTooLarge { max_mb })
            } else {
                let d = crate::avatar::to_data_url(bytes.as_slice(), f);
                proof {
                    lemma_image_labels_plain(f);
                    lemma_written_url_fits(crate::avatar::spec_mime(f), bytes@, crate::avatar::MAX_BYTES as nat);
                }
                Ok(d)
            },
            None => Err(Reason::SharedAvatarNotImage),
        },
        Err(_) => Err(Reason::SharedAvatarNotImage),
    }
}

/// A type label that can head a `data:` URL: ASCII, no comma, and short
/// enough to fit the allowance made for it.
pub open spec fn plain_label(m: Seq<char>) -> bool {
    &&& m.len() <= 51
    &&& forall|k: int| 0 <= k < m.len() ==> #[trigger] m[k] != ',' && (m[k] as u32) < 0x80
}

proof fn lemma_image_labels_plain(f: crate::avatar::Format)
    ensures
        plain_label(crate::avatar::spec_mime(f)),
{
    match f {
        crate::avatar::Format::Png => reveal_strlit("image/png"),
        crate::avatar::Format::Jpeg => reveal_strlit("image/jpeg"),
        crate::avatar::Format::Webp => reveal_strlit("image/webp"),
    }
}

proof fn lemma_audio_labels_plain(f: crate::voice::sample::Format)
    ensures
        plain_label(crate::voice::sample::spec_mime(f)),
{
    match f {
        crate::voice::sample::Format::Wav => reveal_strlit("audio/wav"),
        crate::voice::sample::Format::Mp3 => reveal_strlit("audio/mpeg"),
        crate::voice::sample::Format::M4a => reveal_strlit("audio/mp4"),
        crate::voice::sample::Format::Flac => reveal_strlit("audio/flac"),
        crate::voice::sample::Format::Ogg => reveal_strlit("audio/ogg"),
        crate::voice::sample::Format::Aac => reveal_strlit("audio/aac"),
        crate::voice::sample::Format::Webm => reveal_strlit("audio/webm"),
    }
}

/// A URL written for at most `max_bytes` bytes under a plain label reads
/// back as them, and is within what the check allows for that many.
proof fn lemma_written_url_fits(m: Seq<char>, b: Seq<u8>, max_bytes: nat)
    requires
        plain_label(m),
        well_encoded(b),
        b.len() <= max_bytes,
        max_bytes <= 0x1000_0000,
    ensures
        spec_decode_data_url(data_url(m, b)) == Ok::<Seq<u8>, DataErrorV>(b),
        utf8_len(data_url(m, b)) <= spec_data_url_chars(max_bytes),
        utf8_len(data_url(m, b)) as usize == utf8_len(data_url(m, b)),
{
    crate::avatar::lemma_data_url_decodes(m, b);
    crate::avatar::lemma_data_url_len(m, b);
    let n = b.len();
    assert((n + 2) / 3 <= max_bytes / 3 + 1) by (nonlinear_arith)
        requires
            n <= max_bytes,
    ;
}

/// The recording relabelled with the type its bytes are — which is what
/// the webview's `<audio>` and the cloning API go by.
pub open spec fn spec_check_audio(url: Seq<char>) -> Result<Seq<char>, ReasonV> {
    let too_large = ReasonV::SharedSampleTooLarge { max_mb: 10 };
    if utf8_len(url) as usize > spec_data_url_chars(crate::voice::sample::MAX_BYTES as nat) {
        Err(too_large)
    } else {
        match spec_decode_data_url(url) {
            Ok(b) => match crate::voice::sample::spec_sniff(b) {
                Some(f) => if b.len() > crate::voice::sample::MAX_BYTES {
                    Err(too_large)
                } else {
                    Ok(data_url(crate::voice::sample::spec_mime(f), b))
                },
                None => Err(ReasonV::SharedSampleNotAudio),
            },
            Err(_) => Err(ReasonV::SharedSampleNotAudio),
        }
    }
}

fn check_audio(url: &str) -> (r: Result<String, Reason>)
    ensures
        match r {
            Ok(s) => spec_check_audio(url@) == Ok::<Seq<char>, ReasonV>(s@),
            Err(e) => spec_check_audio(url@) == Err::<Seq<char>, ReasonV>(e@),
        },
        r matches Ok(s) ==> spec_check_audio(s@) == Ok::<Seq<char>, ReasonV>(s@),
{
    let max_mb: usize = crate::voice::sample::MAX_BYTES / 1_048_576;
    if url.len() > data_url_chars(crate::voice::sample::MAX_BYTES) {
        return Err(Reason::SharedSampleTooLarge { max_mb });
    }
    match crate::avatar::decode_data_url(url) {
        Ok(bytes) => match crate::voice::sample::Format::sniff(bytes.as_slice()) {
            Some(f) => if bytes.len() > crate::voice::sample::MAX_BYTES {
                Err(Reason::SharedSampleTooLarge { max_mb })
            } else {
                let d = crate::voice::sample::to_data_url(bytes.as_slice(), f);
                proof {
                    lemma_audio_labels_plain(f);
                    lemma_written_url_fits(crate::voice::sample::spec_mime(f), bytes@, crate::voice::sample::MAX_BYTES as nat);
                }
                Ok(d)
            },
            None => Err(Reason::SharedSampleNotAudio),
        },
        Err(_) => Err(Reason::SharedSampleNotAudio),
    }
}

// ---------------------------------------------------------------------
// The voice.

/// Whether a history window the file sets, if it sets one, is in 1-200.
pub open spec fn turns_ok(t: Option<i64>) -> bool {
    match t {
        Some(t) => 1 <= t <= MAX_HISTORY_TURNS,
        None => true,
    }
}

pub open spec fn too_long(t: Option<Seq<char>>, max: usize) -> bool {
    match t {
        Some(t) => t.len() > max,
        None => false,
    }
}

/// A trimmed preview text, or nothing when it is blank.
pub open spec fn spec_preview(t: Option<Seq<char>>) -> Option<Seq<char>> {
    match t {
        Some(t) => if trim(t).len() > 0 {
            Some(trim(t))
        } else {
            None
        },
        None => None,
    }
}

/// The voice checked and tidied: a preset this version knows, a
/// description trimmed and within Voice Design's length with its preview
/// text trimmed (a blank one dropped), or a recording relabelled with what
/// it is. `Err` is only the reason, without saying what it is the reason
/// for.
pub open spec fn spec_normalize_voice(v: SharedVoiceV) -> Result<SharedVoiceV, ReasonV> {
    match v {
        SharedVoiceV::Preset { id } => if is_preset_voice(id) {
            Ok(SharedVoiceV::Preset { id })
        } else {
            Err(ReasonV::NotAPreset { id })
        },
        SharedVoiceV::Description { prompt, preview_text } => {
            let prompt = trim(prompt);
            let preview = spec_preview(preview_text);
            if prompt.len() == 0 {
                Err(ReasonV::EmptyDescription)
            } else if prompt.len() > VOICE_PROMPT_CHARS {
                Err(ReasonV::TooLong { field: "voice.prompt"@, max: VOICE_PROMPT_CHARS })
            } else if too_long(preview, PREVIEW_TEXT_CHARS) {
                Err(ReasonV::TooLong { field: "voice.preview_text"@, max: PREVIEW_TEXT_CHARS })
            } else {
                Ok(SharedVoiceV::Description { prompt, preview_text: preview })
            }
        },
        SharedVoiceV::Audio { data } => match spec_check_audio(data) {
            Ok(d) => Ok(SharedVoiceV::Audio { data: d }),
            Err(e) => Err(e),
        },
    }
}

impl SharedVoice {
    /// The voice checked and tidied, as `spec_normalize_voice` describes;
    /// what comes out passes again unchanged.
    pub fn normalize(self) -> (r: Result<SharedVoice, Reason>)
        ensures
            match r {
                Ok(v) => spec_normalize_voice(self@) == Ok::<SharedVoiceV, ReasonV>(v@),
                Err(e) => spec_normalize_voice(self@) == Err::<SharedVoiceV, ReasonV>(e@),
            },
            r matches Ok(v) ==> spec_normalize_voice(v@) == Ok::<SharedVoiceV, ReasonV>(v@),
    {
        match self {
            SharedVoice::Preset { id } => {
                if !is_preset(id.as_str()) {
                    return Err(Reason::NotAPreset { id });
                }
                Ok(SharedVoice::Preset { id })
            },
            SharedVoice::Description { prompt, preview_text } => {
                let ghost given = prompt@;
                let prompt = trim_str(prompt.as_str());
                proof {
                    crate::text::lemma_trim_twice(given);
                    if preview_text is Some {
                        crate::text::lemma_trim_twice(preview_text->0@);
                    }
                }
                if prompt.unicode_len() == 0 {
                    return Err(Reason::EmptyDescription);
                }
                if let Some(e) = check_text(prompt.as_str(), VOICE_PROMPT_CHARS, "voice.prompt") {
                    return Err(e);
                }
                let preview = match &preview_text {
                    Some(t) => {
                        let t = trim_str(t.as_str());
                        if t.unicode_len() > 0 {
                            Some(t)
                        } else {
                            None
                        }
                    },
                    None => None,
                };
                if let Some(t) = &preview {
                    if let Some(e) = check_text(t.as_str(), PREVIEW_TEXT_CHARS, "voice.preview_text") {
                        return Err(e);
                    }
                }
                Ok(SharedVoice::Description { prompt, preview_text: preview })
            },
            SharedVoice::Audio { data } => match check_audio(data.as_str()) {
                Ok(d) => Ok(SharedVoice::Audio { data: d }),
                Err(e) => Err(e),
            },
        }
    }
}

// ---------------------------------------------------------------------
// The whole character.

/// What is wrong with the fields after the name, if anything.
pub open spec fn spec_fields_reason(c: SharedCharacterV) -> Option<ReasonV> {
    if !in_set(c.language, ValueSet::Languages) {
        Some(ReasonV::NotOneOf { field: "language"@, value: c.language, set: ValueSet::Languages })
    } else if c.persona.len() > PROSE_CHARS {
        Some(ReasonV::TooLong { field: "persona"@, max: PROSE_CHARS })
    } else if c.speech_habits.len() > PROSE_CHARS {
        Some(ReasonV::TooLong { field: "speech_habits"@, max: PROSE_CHARS })
    } else if !turns_ok(c.max_history_turns) {
        Some(ReasonV::HistoryTurns { turns: c.max_history_turns.unwrap() })
    } else {
        None
    }
}

/// The picture, checked and relabelled, when there is one.
pub open spec fn spec_opt_avatar(a: Option<Seq<char>>) -> Result<Option<Seq<char>>, ReasonV> {
    match a {
        Some(url) => match spec_check_avatar(url) {
            Ok(x) => Ok(Some(x)),
            Err(e) => Err(e),
        },
        None => Ok(None),
    }
}

/// `c` with its name, picture and voice replaced.
pub open spec fn with_parts(
    c: SharedCharacterV,
    name: Seq<char>,
    avatar: Option<Seq<char>>,
    voice: SharedVoiceV,
) -> SharedCharacterV {
    SharedCharacterV {
        format: c.format,
        version: c.version,
        name: name,
        language: c.language,
        persona: c.persona,
        speech_habits: c.speech_habits,
        avatar: avatar,
        voice: voice,
        memory_enabled: c.memory_enabled,
        max_history_turns: c.max_history_turns,
    }
}

/// Everything checked, and the character as it should be used: the name
/// and voice description trimmed, and each `data:` URL relabelled with the
/// type its bytes are. The first thing wrong is what is reported.
pub open spec fn spec_normalize(c: SharedCharacterV) -> Result<SharedCharacterV, ShareErrorV> {
    if c.format != FORMAT@ {
        Err(ShareErrorV::NotACharacter)
    } else if c.version > VERSION {
        Err(ShareErrorV::Newer { version: c.version })
    } else {
        match spec_check_name(c.name) {
            Err(e) => Err(ShareErrorV::Unusable { reason: e@ }),
            Ok(name) => match spec_fields_reason(c) {
                Some(r) => Err(ShareErrorV::Unusable { reason: r }),
                None => match spec_opt_avatar(c.avatar) {
                    Err(e) => Err(ShareErrorV::Unusable { reason: e }),
                    Ok(avatar) => match spec_normalize_voice(c.voice) {
                        Err(e) => Err(ShareErrorV::Unusable { reason: e }),
                        Ok(voice) => Ok(with_parts(c, name, avatar, voice)),
                    },
                },
            },
        }
    }
}

impl SharedCharacter {
    /// Checks everything, and returns the character as it should be used,
    /// as `spec_normalize` describes. Strict rather than forgiving: quietly
    /// clamping a file would import something other than what it says.
    /// What it returns passes again unchanged, so a file checked when it is
    /// opened is not refused when it is imported.
    pub fn normalize(self) -> (r: Result<SharedCharacter, ShareError>)
        ensures
            match r {
                Ok(c) => spec_normalize(self@) == Ok::<SharedCharacterV, ShareErrorV>(c@),
                Err(e) => spec_normalize(self@) == Err::<SharedCharacterV, ShareErrorV>(e@),
            },
            r matches Ok(c) ==> spec_normalize(c@) == Ok::<SharedCharacterV, ShareErrorV>(c@),
    {
        if !str_eq(self.format.as_str(), FORMAT) {
            return Err(ShareError::NotACharacter);
        }
        if self.version > VERSION {
            return Err(ShareError::Newer { version: self.version });
        }
        let name = match check_name(self.name.as_str()) {
            Ok(n) => n,
            Err(reason) => return Err(ShareError::Unusable { reason }),
        };
        if !check_in_set(self.language.as_str(), ValueSet::Languages) {
            return Err(
                ShareError::Unusable {
                    reason: Reason::NotOneOf {
                        field: "language",
                        value: copy_str(self.language.as_str()),
                        set: ValueSet::Languages,
                    },
                },
            );
        }
        if let Some(reason) = check_text(self.persona.as_str(), PROSE_CHARS, "persona") {
            return Err(ShareError::Unusable { reason });
        }
        if let Some(reason) = check_text(self.speech_habits.as_str(), PROSE_CHARS, "speech_habits") {
            return Err(ShareError::Unusable { reason });
        }
        if let Some(turns) = self.max_history_turns {
            if !(1 <= turns && turns <= MAX_HISTORY_TURNS) {
                return Err(ShareError::Unusable { reason: Reason::HistoryTurns { turns } });
            }
        }
        let avatar = match &self.avatar {
            Some(url) => match check_avatar(url.as_str()) {
                Ok(a) => Some(a),
                Err(reason) => return Err(ShareError::Unusable { reason }),
            },
            None => None,
        };
        let voice = match self.voice.normalize() {
            Ok(v) => v,
            Err(reason) => return Err(ShareError::Unusable { reason }),
        };
        Ok(
            SharedCharacter {
                format: self.format,
                version: self.version,
                name,
                language: self.language,
                persona: self.persona,
                speech_habits: self.speech_habits,
                avatar,
                voice,
                memory_enabled: self.memory_enabled,
                max_history_turns: self.max_history_turns,
            },
        )
    }

    /// What goes into a file for `c`: `avatar` is the picture as a `data:`
    /// URL, if it is to be included; `voice` is chosen by the user.
    pub fn from_character(c: &Character, avatar: Option<String>, voice: SharedVoice) -> (r:
        SharedCharacter)
        ensures
            r.format@ == FORMAT@,
            r.version == VERSION,
            r.name@ == c.name@,
            r.language@ == c.language@,
            r.persona@ == c.persona@,
            r.speech_habits@ == c.speech_habits@,
            r.avatar == avatar,
            r.voice == voice,
            r.memory_enabled == Some(c.memory_enabled),
            r.max_history_turns == Some(c.max_history_turns),
    {
        SharedCharacter {
            format: copy_str(FORMAT),
            version: VERSION,
            name: copy_str(c.name.as_str()),
            language: copy_str(c.language.as_str()),
            persona: copy_str(c.persona.as_str()),
            speech_habits: copy_str(c.speech_habits.as_str()),
            avatar,
            voice,
            memory_enabled: Some(c.memory_enabled),
            max_history_turns: Some(c.max_history_turns),
        }
    }

    /// The picture's bytes, ready for the avatar store. Only vouched for
    /// once `normalize` has passed.
    pub fn avatar_bytes(&self) -> (r: Option<Vec<u8>>)
        ensures
            match r {
                Some(b) => self.avatar matches Some(url) && spec_decode_data_url(url@)
                    == Ok::<Seq<u8>, DataErrorV>(b@),
                None => match self.avatar {
                    Some(url) => spec_decode_data_url(url@) is Err,
                    None => true,
                },
            },
    {
        match &self.avatar {
            Some(url) => match crate::avatar::decode_data_url(url.as_str()) {
                Ok(b) => Some(b),
                Err(_) => None,
            },
            None => None,
        }
    }
}

// ---------------------------------------------------------------------
// What a designed voice reads aloud.

/// The Chinese sample passage: 150-odd characters, the length the Voice
/// Studio asks for.
pub const PREVIEW_ZH: &'static str = "你好呀，很高兴认识你。今天过得怎么样？不管是开心的事，还是有点烦心的事，都可以慢慢说给我听，我会认真听完，再陪你一起想想办法。天气好的时候，我喜欢出去走一走，看看路边的花草树木；安静的晚上，就泡一杯热茶，读几页喜欢的书。你呢？平时最喜欢做些什么？不用着急，我们有的是时间，想到哪里就聊到哪里，说不定会聊出很多有意思的话题呢。";

/// The English sample passage.
pub const PREVIEW_EN: &'static str = "Hi there, it's really nice to meet you. How has your day been so far? Whether something good happened or something has been bothering you, take your time and tell me all about it. I'll listen carefully, and then we can think it through together. When the weather is nice, I love going for a walk and looking at the trees and flowers along the way, and on quiet evenings I like to make a cup of tea and read a few pages of a good book. What about you? What do you enjoy doing most? There's no rush at all, so let's just talk about whatever comes to mind.";

/// Kana, CJK extension A and the unified ideographs.
pub open spec fn is_cjk(c: char) -> bool {
    ||| '\u{3040}' <= c <= '\u{30FF}'
    ||| '\u{3400}' <= c <= '\u{4DBF}'
    ||| '\u{4E00}' <= c <= '\u{9FFF}'
}

/// Which passage a designed voice reads when a file doesn't say: English
/// for an English character, Chinese for a Chinese or Japanese one (the
/// description itself can only be Chinese or English, and cloning takes
/// the timbre, not the language), and for one that follows the user's
/// language, whichever script its description is written in.
pub open spec fn spec_default_preview_is_zh(language: Seq<char>, prompt: Seq<char>) -> bool {
    if language == "en"@ {
        false
    } else if language == "zh"@ || language == "ja"@ {
        true
    } else {
        exists|i: int| 0 <= i < prompt.len() && is_cjk(#[trigger] prompt[i])
    }
}

fn any_cjk(s: &str) -> (r: bool)
    ensures
        r == exists|i: int| 0 <= i < s@.len() && is_cjk(#[trigger] s@[i]),
{
    let v = crate::text::chars_of(s);
    let mut i: usize = 0;
    while i < v.len()
        invariant
            i <= v@.len(),
            v@ == s@,
            forall|k: int| 0 <= k < i ==> !is_cjk(#[trigger] v@[k]),
        decreases v.len() - i,
    {
        let c = v[i];
        if ('\u{3040}' <= c && c <= '\u{30FF}') || ('\u{3400}' <= c && c <= '\u{4DBF}') || (
        '\u{4E00}' <= c && c <= '\u{9FFF}') {
            assert(is_cjk(s@[i as int]));
            return true;
        }
        i += 1;
    }
    false
}

/// The passage a designed voice reads, as `spec_default_preview_is_zh`
/// chooses it.
pub fn default_preview_text(language: &str, prompt: &str) -> (r: &'static str)
    ensures
        r@ == if spec_default_preview_is_zh(language@, prompt@) {
            PREVIEW_ZH@
        } else {
            PREVIEW_EN@
        },
{
    if str_eq(language, "en") {
        PREVIEW_EN
    } else if str_eq(language, "zh") || str_eq(language, "ja") {
        PREVIEW_ZH
    } else if any_cjk(prompt) {
        PREVIEW_ZH
    } else {
        PREVIEW_EN
    }
}

} // verus!
