//! The checks a file arriving from elsewhere — a backup, a shared character
//! — goes through before any of it is acted on, and the reasons it can be
//! turned away for, as the user reads them.

use vstd::prelude::*;

use crate::i18n::{tr, Lang};
use crate::text::{
    chars_of, debug_text, decimal, extend_str, is_blank, is_blank_str, push_debug, push_decimal,
    push_signed, signed_decimal, string_of,
};

verus! {

/// The closed sets a value may be required to come from.
#[derive(Clone, Copy, Debug, PartialEq, Eq, Structural)]
pub enum ValueSet {
    /// A character's reply language.
    Languages,
    VoiceKinds,
    MemoryKinds,
    MessageRoles,
    /// The display-language tags the app knows.
    UiLanguageTags,
}

pub open spec fn set_items(set: ValueSet) -> Seq<Seq<char>> {
    match set {
        ValueSet::Languages => seq!["zh"@, "ja"@, "en"@, "auto"@],
        ValueSet::VoiceKinds => seq!["preset"@, "designed"@, "cloned"@],
        ValueSet::MemoryKinds => seq!["profile"@, "fact"@, "summary"@, "open_loop"@],
        ValueSet::MessageRoles => seq!["user"@, "assistant"@],
        ValueSet::UiLanguageTags => seq!["en"@, "zh-CN"@],
    }
}

pub open spec fn in_set(value: Seq<char>, set: ValueSet) -> bool {
    set_items(set).contains(value)
}

fn set_literals(set: ValueSet) -> (r: Vec<&'static str>)
    ensures
        r@.len() == set_items(set).len(),
        forall|i: int| 0 <= i < r@.len() ==> (#[trigger] r@[i])@ == set_items(set)[i],
{
    let mut v: Vec<&'static str> = Vec::new();
    match set {
        ValueSet::Languages => {
            v.push("zh");
            v.push("ja");
            v.push("en");
            v.push("auto");
        },
        ValueSet::VoiceKinds => {
            v.push("preset");
            v.push("designed");
            v.push("cloned");
        },
        ValueSet::MemoryKinds => {
            v.push("profile");
            v.push("fact");
            v.push("summary");
            v.push("open_loop");
        },
        ValueSet::MessageRoles => {
            v.push("user");
            v.push("assistant");
        },
        ValueSet::UiLanguageTags => {
            v.push("en");
            v.push("zh-CN");
        },
    }
    v
}

/// Whether `value` is in `set`.
pub fn check_in_set(value: &str, set: ValueSet) -> (r: bool)
    ensures
        r == in_set(value@, set),
{
    let items = set_literals(set);
    let mut i: usize = 0;
    while i < items.len()
        invariant
            i <= items.len(),
            items@.len() == set_items(set).len(),
            forall|k: int| 0 <= k < items@.len() ==> (#[trigger] items@[k])@ == set_items(set)[k],
            forall|k: int| 0 <= k < i ==> set_items(set)[k] != value@,
        decreases items.len() - i,
    {
        if crate::text::str_eq(value, items[i]) {
            assert(set_items(set)[i as int] == value@);
            return true;
        }
        i += 1;
    }
    assert(!set_items(set).contains(value@));
    false
}

/// How `{:?}` writes a list of strings, without the brackets.
pub open spec fn debug_items(items: Seq<Seq<char>>) -> Seq<char>
    decreases items.len(),
{
    if items.len() == 0 {
        Seq::<char>::empty()
    } else if items.len() == 1 {
        debug_text(items[0])
    } else {
        debug_items(items.drop_last()) + ", "@ + debug_text(items.last())
    }
}

/// How `{:?}` writes a list of strings.
pub open spec fn debug_list(items: Seq<Seq<char>>) -> Seq<char> {
    "["@ + debug_items(items) + "]"@
}

fn push_debug_set(v: &mut Vec<char>, set: ValueSet)
    ensures
        final(v)@ == old(v)@ + debug_list(set_items(set)),
{
    let items = set_literals(set);
    extend_str(v, "[");
    let ghost start = v@;
    let mut i: usize = 0;
    while i < items.len()
        invariant
            i <= items.len(),
            items@.len() == set_items(set).len(),
            forall|k: int| 0 <= k < items@.len() ==> (#[trigger] items@[k])@ == set_items(set)[k],
            v@ == start + debug_items(set_items(set).take(i as int)),
        decreases items.len() - i,
    {
        let ghost before = v@;
        assert(set_items(set).take(i + 1).drop_last() =~= set_items(set).take(i as int));
        if i > 0 {
            extend_str(v, ", ");
        }
        push_debug(v, items[i]);
        proof {
            if i == 0 {
                assert(set_items(set).take(0) =~= Seq::<Seq<char>>::empty());
                assert(v@ =~= start + debug_items(set_items(set).take(1)));
            } else {
                assert(v@ =~= start + debug_items(set_items(set).take(i + 1)));
            }
        }
        i += 1;
    }
    assert(set_items(set).take(items.len() as int) =~= set_items(set));
    extend_str(v, "]");
    assert(v@ =~= old(v)@ + debug_list(set_items(set)));
}

/// A value's text as `f64`'s `Display` wrote it, next to the bits it is
/// stored in. Checks go by the bits; messages show the text.
#[derive(Debug)]
pub struct FloatValue {
    pub bits: u64,
    pub text: String,
}

impl FloatValue {
    pub fn copy(&self) -> (r: FloatValue)
        ensures
            r == *self,
    {
        FloatValue { bits: self.bits, text: self.text.clone() }
    }
}

/// Whether an `f64`, by its bits, is a finite value in 0.0-1.0: `+0.0` up
/// to `1.0`, or `-0.0`, which compares equal to `0.0`. Everything else —
/// negatives, NaN, infinities, above one — is outside.
pub open spec fn is_unit_interval(bits: u64) -> bool {
    bits <= 0x3FF0_0000_0000_0000 || bits == 0x8000_0000_0000_0000
}

pub fn check_unit_interval(bits: u64) -> (r: bool)
    ensures
        r == is_unit_interval(bits),
{
    bits <= 0x3FF0_0000_0000_0000 || bits == 0x8000_0000_0000_0000
}

/// What the editor takes as a character name.
pub const NAME_MAX_CHARS: usize = 12;

/// Why a file, or a value in one, is turned away.
#[derive(Debug)]
pub enum Reason {
    TooLong { field: &'static str, max: usize },
    Empty { field: &'static str },
    NotOneOf { field: &'static str, value: String, set: ValueSet },
    TooMany { field: &'static str, count: usize, max: usize },
    HistoryTurns { turns: i64 },
    /// In a backup: a picture too large, or not a picture.
    AvatarTooLarge,
    AvatarNotImage,
    /// In a backup: a voice sample too large, or not audio.
    SampleTooLarge,
    SampleNotAudio,
    Salience { salience: FloatValue },
    WorkspaceId { workspace_id: String },
    Region { region: String },
    Threshold { threshold: FloatValue },
    Silence { ms: i64 },
    /// In a shared character: the picture larger than `max_mb`, or not one.
    SharedAvatarTooLarge { max_mb: usize },
    SharedAvatarNotImage,
    /// In a shared character: the sample larger than `max_mb`, or not audio.
    SharedSampleTooLarge { max_mb: usize },
    SharedSampleNotAudio,
    NotAPreset { id: String },
    EmptyDescription,
    /// A character name that is blank, or longer than the editor allows.
    NameEmpty,
    NameTooLong,
}

pub const MIN_VAD_SILENCE_MS: i64 = 100;
pub const MAX_VAD_SILENCE_MS: i64 = 60_000;
pub const MAX_HISTORY_TURNS: i64 = 200;

/// The reason, in words: only the reason, not yet what it is the reason for.
pub open spec fn spec_reason_text(r: Reason, lang: Lang) -> Seq<char> {
    match r {
        Reason::TooLong { field, max } => tr(
            lang,
            field@ + " is longer than the "@ + decimal(max as nat) + " characters allowed"@,
            field@ + " 超过了允许的 "@ + decimal(max as nat) + " 个字符"@,
        ),
        Reason::Empty { field } => tr(lang, field@ + " is empty"@, field@ + " 为空"@),
        Reason::NotOneOf { field, value, set } => tr(
            lang,
            field@ + " is "@ + debug_text(value@) + ", which is not one of "@ + debug_list(
                set_items(set),
            ),
            field@ + " 的值 "@ + debug_text(value@) + " 不在允许的取值 "@ + debug_list(set_items(set))
                + " 中"@,
        ),
        Reason::TooMany { field, count, max } => tr(
            lang,
            "it holds "@ + decimal(count as nat) + " "@ + field@ + ", more than the "@ + decimal(
                max as nat,
            ) + " allowed"@,
            "其中的 "@ + field@ + " 有 "@ + decimal(count as nat) + " 个，超过了允许的 "@ + decimal(
                max as nat,
            ) + " 个"@,
        ),
        Reason::HistoryTurns { turns } => tr(
            lang,
            "max_history_turns is "@ + signed_decimal(turns as int) + ", outside the range 1-"@
                + decimal(200),
            "max_history_turns 的值 "@ + signed_decimal(turns as int) + " 超出了 1-"@ + decimal(200)
                + " 的范围"@,
        ),
        Reason::AvatarTooLarge => tr(lang, "an avatar is larger than allowed"@, "其中的头像超出了大小上限"@),
        Reason::AvatarNotImage => tr(
            lang,
            "an avatar isn't a PNG, JPEG or WebP image"@,
            "其中的头像不是 PNG、JPEG 或 WebP 图片"@,
        ),
        Reason::SampleTooLarge => tr(
            lang,
            "a voice sample is larger than allowed"@,
            "其中的音色样本超出了大小上限"@,
        ),
        Reason::SampleNotAudio => tr(
            lang,
            "a voice sample isn't a "@ + crate::voice::sample::spec_names(lang) + " recording"@,
            "其中的音色样本不是 "@ + crate::voice::sample::spec_names(lang) + " 音频"@,
        ),
        Reason::Salience { salience } => tr(
            lang,
            "a memory's salience is "@ + salience.text@ + ", outside 0.0-1.0"@,
            "记忆的 salience 值 "@ + salience.text@ + " 超出了 0.0-1.0 的范围"@,
        ),
        Reason::WorkspaceId { workspace_id } => tr(
            lang,
            debug_text(workspace_id@) + " isn't a Workspace ID"@,
            debug_text(workspace_id@) + " 不是有效的 Workspace ID"@,
        ),
        Reason::Region { region } => tr(
            lang,
            "the region is "@ + debug_text(region@) + ", which this build doesn't know"@,
            "地域 "@ + debug_text(region@) + " 不是本版本已知的取值"@,
        ),
        Reason::Threshold { threshold } => tr(
            lang,
            "the speech-detection threshold is "@ + threshold.text@ + ", outside 0.0-1.0"@,
            "语音检测灵敏度 "@ + threshold.text@ + " 超出了 0.0-1.0 的范围"@,
        ),
        Reason::Silence { ms } => tr(
            lang,
            "the end-of-speech silence is "@ + signed_decimal(ms as int) + " ms, outside "@
                + decimal(100) + "-"@ + decimal(60000) + " ms"@,
            "停顿判定时长 "@ + signed_decimal(ms as int) + " ms 超出了 "@ + decimal(100) + "-"@
                + decimal(60000) + " ms 的范围"@,
        ),
        Reason::SharedAvatarTooLarge { max_mb } => tr(
            lang,
            "the avatar is larger than "@ + decimal(max_mb as nat) + " MB"@,
            "头像超过了 "@ + decimal(max_mb as nat) + " MB"@,
        ),
        Reason::SharedAvatarNotImage => tr(
            lang,
            "the avatar isn't a PNG, JPEG or WebP image"@,
            "头像不是 PNG、JPEG 或 WebP 图片"@,
        ),
        Reason::SharedSampleTooLarge { max_mb } => tr(
            lang,
            "the voice sample is larger than "@ + decimal(max_mb as nat) + " MB"@,
            "音频样本超过了 "@ + decimal(max_mb as nat) + " MB"@,
        ),
        Reason::SharedSampleNotAudio => tr(
            lang,
            "the voice sample isn't a "@ + crate::voice::sample::spec_names(lang) + " recording"@,
            "音频样本不是 "@ + crate::voice::sample::spec_names(lang) + " 格式"@,
        ),
        Reason::NotAPreset { id } => tr(
            lang,
            debug_text(id@) + " isn't a preset voice this version knows"@,
            debug_text(id@) + " 不是本版本已知的预置音色"@,
        ),
        Reason::EmptyDescription => tr(lang, "the voice description is empty"@, "声音描述为空"@),
        Reason::NameEmpty => tr(lang, "The name can't be empty"@, "名字不能为空"@),
        Reason::NameTooLong => tr(
            lang,
            "The name can be at most "@ + decimal(12) + " characters"@,
            "名字最多 "@ + decimal(12) + " 个字"@,
        ),
    }
}

impl Reason {
    /// The reason, in words.
    pub fn text(&self, lang: Lang) -> (r: String)
        ensures
            r@ == spec_reason_text(*self, lang),
    {
        let mut v: Vec<char> = Vec::new();
        let en = lang == Lang::En;
        match self {
            Reason::TooLong { field, max } => {
                extend_str(&mut v, field);
                extend_str(&mut v, if en { " is longer than the " } else { " 超过了允许的 " });
                push_decimal(&mut v, *max as u64);
                extend_str(&mut v, if en { " characters allowed" } else { " 个字符" });
            },
            Reason::Empty { field } => {
                extend_str(&mut v, field);
                extend_str(&mut v, if en { " is empty" } else { " 为空" });
            },
            Reason::NotOneOf { field, value, set } => {
                extend_str(&mut v, field);
                extend_str(&mut v, if en { " is " } else { " 的值 " });
                push_debug(&mut v, value.as_str());
                extend_str(&mut v, if en { ", which is not one of " } else { " 不在允许的取值 " });
                push_debug_set(&mut v, *set);
                if !en {
                    extend_str(&mut v, " 中");
                }
            },
            Reason::TooMany { field, count, max } => {
                if en {
                    extend_str(&mut v, "it holds ");
                    push_decimal(&mut v, *count as u64);
                    extend_str(&mut v, " ");
                    extend_str(&mut v, field);
                    extend_str(&mut v, ", more than the ");
                    push_decimal(&mut v, *max as u64);
                    extend_str(&mut v, " allowed");
                } else {
                    extend_str(&mut v, "其中的 ");
                    extend_str(&mut v, field);
                    extend_str(&mut v, " 有 ");
                    push_decimal(&mut v, *count as u64);
                    extend_str(&mut v, " 个，超过了允许的 ");
                    push_decimal(&mut v, *max as u64);
                    extend_str(&mut v, " 个");
                }
            },
            Reason::HistoryTurns { turns } => {
                extend_str(&mut v, if en { "max_history_turns is " } else { "max_history_turns 的值 " });
                push_signed(&mut v, *turns);
                extend_str(&mut v, if en { ", outside the range 1-" } else { " 超出了 1-" });
                push_decimal(&mut v, 200);
                if !en {
                    extend_str(&mut v, " 的范围");
                }
            },
            Reason::AvatarTooLarge => extend_str(
                &mut v,
                if en { "an avatar is larger than allowed" } else { "其中的头像超出了大小上限" },
            ),
            Reason::AvatarNotImage => extend_str(
                &mut v,
                if en {
                    "an avatar isn't a PNG, JPEG or WebP image"
                } else {
                    "其中的头像不是 PNG、JPEG 或 WebP 图片"
                },
            ),
            Reason::SampleTooLarge => extend_str(
                &mut v,
                if en { "a voice sample is larger than allowed" } else { "其中的音色样本超出了大小上限" },
            ),
            Reason::SampleNotAudio => {
                extend_str(&mut v, if en { "a voice sample isn't a " } else { "其中的音色样本不是 " });
                extend_str(&mut v, crate::voice::sample::names(lang));
                extend_str(&mut v, if en { " recording" } else { " 音频" });
            },
            Reason::Salience { salience } => {
                extend_str(&mut v, if en { "a memory's salience is " } else { "记忆的 salience 值 " });
                extend_str(&mut v, salience.text.as_str());
                extend_str(&mut v, if en { ", outside 0.0-1.0" } else { " 超出了 0.0-1.0 的范围" });
            },
            Reason::WorkspaceId { workspace_id } => {
                push_debug(&mut v, workspace_id.as_str());
                extend_str(&mut v, if en { " isn't a Workspace ID" } else { " 不是有效的 Workspace ID" });
            },
            Reason::Region { region } => {
                extend_str(&mut v, if en { "the region is " } else { "地域 " });
                push_debug(&mut v, region.as_str());
                extend_str(&mut v, if en { ", which this build doesn't know" } else { " 不是本版本已知的取值" });
            },
            Reason::Threshold { threshold } => {
                extend_str(&mut v, if en { "the speech-detection threshold is " } else { "语音检测灵敏度 " });
                extend_str(&mut v, threshold.text.as_str());
                extend_str(&mut v, if en { ", outside 0.0-1.0" } else { " 超出了 0.0-1.0 的范围" });
            },
            Reason::Silence { ms } => {
                extend_str(&mut v, if en { "the end-of-speech silence is " } else { "停顿判定时长 " });
                push_signed(&mut v, *ms);
                extend_str(&mut v, if en { " ms, outside " } else { " ms 超出了 " });
                push_decimal(&mut v, 100);
                extend_str(&mut v, "-");
                push_decimal(&mut v, 60000);
                extend_str(&mut v, if en { " ms" } else { " ms 的范围" });
            },
            Reason::SharedAvatarTooLarge { max_mb } => {
                extend_str(&mut v, if en { "the avatar is larger than " } else { "头像超过了 " });
                push_decimal(&mut v, *max_mb as u64);
                extend_str(&mut v, " MB");
            },
            Reason::SharedAvatarNotImage => extend_str(
                &mut v,
                if en { "the avatar isn't a PNG, JPEG or WebP image" } else { "头像不是 PNG、JPEG 或 WebP 图片" },
            ),
            Reason::SharedSampleTooLarge { max_mb } => {
                extend_str(&mut v, if en { "the voice sample is larger than " } else { "音频样本超过了 " });
                push_decimal(&mut v, *max_mb as u64);
                extend_str(&mut v, " MB");
            },
            Reason::SharedSampleNotAudio => {
                extend_str(&mut v, if en { "the voice sample isn't a " } else { "音频样本不是 " });
                extend_str(&mut v, crate::voice::sample::names(lang));
                extend_str(&mut v, if en { " recording" } else { " 格式" });
            },
            Reason::NotAPreset { id } => {
                push_debug(&mut v, id.as_str());
                extend_str(&mut v, if en { " isn't a preset voice this version knows" } else { " 不是本版本已知的预置音色" });
            },
            Reason::EmptyDescription => extend_str(
                &mut v,
                if en { "the voice description is empty" } else { "声音描述为空" },
            ),
            Reason::NameEmpty => extend_str(
                &mut v,
                if en { "The name can't be empty" } else { "名字不能为空" },
            ),
            Reason::NameTooLong => {
                extend_str(&mut v, if en { "The name can be at most " } else { "名字最多 " });
                push_decimal(&mut v, 12);
                extend_str(&mut v, if en { " characters" } else { " 个字" });
            },
        }
        assert(v@ =~= spec_reason_text(*self, lang));
        string_of(&v)
    }
}

/// A `Reason` with its text taken by value, for contracts to compare.
pub ghost enum ReasonV {
    TooLong { field: Seq<char>, max: usize },
    Empty { field: Seq<char> },
    NotOneOf { field: Seq<char>, value: Seq<char>, set: ValueSet },
    TooMany { field: Seq<char>, count: usize, max: usize },
    HistoryTurns { turns: i64 },
    AvatarTooLarge,
    AvatarNotImage,
    SampleTooLarge,
    SampleNotAudio,
    Salience { bits: u64, text: Seq<char> },
    WorkspaceId { workspace_id: Seq<char> },
    Region { region: Seq<char> },
    Threshold { bits: u64, text: Seq<char> },
    Silence { ms: i64 },
    SharedAvatarTooLarge { max_mb: usize },
    SharedAvatarNotImage,
    SharedSampleTooLarge { max_mb: usize },
    SharedSampleNotAudio,
    NotAPreset { id: Seq<char> },
    EmptyDescription,
    NameEmpty,
    NameTooLong,
}

impl Reason {
    pub open spec fn view(self) -> ReasonV {
        match self {
            Reason::TooLong { field, max } => ReasonV::TooLong { field: field@, max },
            Reason::Empty { field } => ReasonV::Empty { field: field@ },
            Reason::NotOneOf { field, value, set } => ReasonV::NotOneOf {
                field: field@,
                value: value@,
                set,
            },
            Reason::TooMany { field, count, max } => ReasonV::TooMany { field: field@, count, max },
            Reason::HistoryTurns { turns } => ReasonV::HistoryTurns { turns },
            Reason::AvatarTooLarge => ReasonV::AvatarTooLarge,
            Reason::AvatarNotImage => ReasonV::AvatarNotImage,
            Reason::SampleTooLarge => ReasonV::SampleTooLarge,
            Reason::SampleNotAudio => ReasonV::SampleNotAudio,
            Reason::Salience { salience } => ReasonV::Salience {
                bits: salience.bits,
                text: salience.text@,
            },
            Reason::WorkspaceId { workspace_id } => ReasonV::WorkspaceId {
                workspace_id: workspace_id@,
            },
            Reason::Region { region } => ReasonV::Region { region: region@ },
            Reason::Threshold { threshold } => ReasonV::Threshold {
                bits: threshold.bits,
                text: threshold.text@,
            },
            Reason::Silence { ms } => ReasonV::Silence { ms },
            Reason::SharedAvatarTooLarge { max_mb } => ReasonV::SharedAvatarTooLarge { max_mb },
            Reason::SharedAvatarNotImage => ReasonV::SharedAvatarNotImage,
            Reason::SharedSampleTooLarge { max_mb } => ReasonV::SharedSampleTooLarge { max_mb },
            Reason::SharedSampleNotAudio => ReasonV::SharedSampleNotAudio,
            Reason::NotAPreset { id } => ReasonV::NotAPreset { id: id@ },
            Reason::EmptyDescription => ReasonV::EmptyDescription,
            Reason::NameEmpty => ReasonV::NameEmpty,
            Reason::NameTooLong => ReasonV::NameTooLong,
        }
    }
}

pub open spec fn opt_reason(r: Option<Reason>) -> Option<ReasonV> {
    match r {
        Some(r) => Some(r@),
        None => None,
    }
}

pub open spec fn spec_text(value: Seq<char>, max: usize, field: Seq<char>) -> Option<ReasonV> {
    if value.len() > max {
        Some(ReasonV::TooLong { field, max })
    } else {
        None
    }
}

pub open spec fn spec_required(value: Seq<char>, max: usize, field: Seq<char>) -> Option<ReasonV> {
    if is_blank(value) {
        Some(ReasonV::Empty { field })
    } else {
        spec_text(value, max, field)
    }
}

pub open spec fn spec_one_of(value: Seq<char>, set: ValueSet, field: Seq<char>) -> Option<ReasonV> {
    if in_set(value, set) {
        None
    } else {
        Some(ReasonV::NotOneOf { field, value, set })
    }
}

pub open spec fn spec_at_most(count: int, max: usize, field: Seq<char>) -> Option<ReasonV> {
    if count > max {
        Some(ReasonV::TooMany { field, count: count as usize, max })
    } else {
        None
    }
}

/// The first of two checks that fails.
pub open spec fn first(a: Option<ReasonV>, b: Option<ReasonV>) -> Option<ReasonV> {
    if a is Some {
        a
    } else {
        b
    }
}

/// `None` when `value` is at most `max` characters long.
pub fn check_text(value: &str, max: usize, field: &'static str) -> (r: Option<Reason>)
    ensures
        opt_reason(r) == spec_text(value@, max, field@),
{
    if value.unicode_len() > max {
        return Some(Reason::TooLong { field, max });
    }
    None
}

/// `None` when `value` isn't blank and is at most `max` characters long.
pub fn check_required(value: &str, max: usize, field: &'static str) -> (r: Option<Reason>)
    ensures
        opt_reason(r) == spec_required(value@, max, field@),
{
    if is_blank_str(value) {
        return Some(Reason::Empty { field });
    }
    check_text(value, max, field)
}

/// `None` when `value` is in `set`.
pub fn check_one_of(value: &str, set: ValueSet, field: &'static str) -> (r: Option<Reason>)
    ensures
        opt_reason(r) == spec_one_of(value@, set, field@),
{
    if check_in_set(value, set) {
        return None;
    }
    Some(Reason::NotOneOf { field, value: crate::text::copy_str(value), set })
}

/// `None` when there are at most `max` of something.
pub fn check_at_most(count: usize, max: usize, field: &'static str) -> (r: Option<Reason>)
    ensures
        opt_reason(r) == spec_at_most(count as int, max, field@),
{
    if count > max {
        return Some(Reason::TooMany { field, count, max });
    }
    None
}

/// The window of history the session is asked to keep: 1-200 turns.
pub open spec fn turns_in_range(turns: i64) -> bool {
    1 <= turns <= MAX_HISTORY_TURNS
}

} // verus!
