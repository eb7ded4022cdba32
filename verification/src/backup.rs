//! One file holding everything the user has accumulated: their characters,
//! each character's long-term memories, every conversation they have had
//! with them, and the settings that point the app at their account.
//!
//! What the library owns of it is the shape of the file, what a file may
//! hold before any of it is restored, and the few decisions a restore makes
//! from the file alone. Reading and writing the database, the avatar and
//! sample directories and the keyring is the application's part.

use vstd::prelude::*;

use crate::checks::{
    check_at_most, check_one_of, check_required, check_text, check_unit_interval, first,
    is_unit_interval, opt_reason, spec_at_most, spec_one_of, spec_reason_text, spec_required,
    spec_text, FloatValue, Reason, ReasonV, ValueSet, MAX_HISTORY_TURNS, MAX_VAD_SILENCE_MS,
    MIN_VAD_SILENCE_MS,
};
use crate::character::Character;
use crate::i18n::{tr, Lang};
use crate::text::{
    chars_of, copy_str, extend_str, push_decimal, str_eq, string_of, trim, trim_str, utf8_len,
    decimal,
};

verus! {

/// Stamped into every file and checked on the way back in, so picking the
/// wrong JSON file fails with "this isn't a backup" instead of importing
/// nothing and reporting success.
pub const FORMAT: &'static str = "voicechat-backup";

/// Bumped only when the shape changes such that an older build would
/// misread a newer file. Import accepts anything up to this.
pub const VERSION: u32 = 2;

/// Ceilings on what a file may contain, checked before any of it reaches
/// the database. Anything this app exports sits far under every one.
pub const CHARACTERS: usize = 500;
pub const MEMORIES_PER_CHARACTER: usize = 1_000;
pub const CONVERSATIONS_PER_CHARACTER: usize = 10_000;
pub const MESSAGES_PER_CONVERSATION: usize = 10_000;
pub const ID_CHARS: usize = 128;
pub const TIMESTAMP_CHARS: usize = 64;
pub const NAME_CHARS: usize = 200;
pub const TITLE_CHARS: usize = 200;
pub const PATH_CHARS: usize = 4_096;
/// An avatar at the largest size the avatar store accepts, base64-encoded.
pub const AVATAR_DATA_CHARS: usize = (crate::avatar::MAX_BYTES / 3 + 1) * 4;
/// Likewise a voice sample at the largest size the sample store accepts.
pub const SAMPLE_DATA_CHARS: usize = (crate::voice::sample::MAX_BYTES / 3 + 1) * 4;
pub const VOICE_ID_CHARS: usize = 200;
/// Covers `persona`, `speech_habits`, `voice_prompt` and memory content.
pub const PROSE_CHARS: usize = 20_000;
pub const MESSAGE_CHARS: usize = 100_000;
/// Model Studio keys are ~35 characters; the ceiling only keeps a file
/// from handing the OS keyring a megabyte.
pub const API_KEY_CHARS: usize = 512;
pub const HOTKEY_CHARS: usize = 128;

#[derive(Debug)]
pub struct Backup {
    pub format: String,
    pub version: u32,
    pub exported_at: String,
    /// Which build wrote the file.
    pub app_version: String,
    pub characters: Vec<BackupCharacter>,
    /// Absent in a v1 file; then the restoring device keeps its settings.
    pub settings: Option<BackupSettings>,
    /// The kept sample of each custom voice a character uses.
    pub voice_samples: Vec<BackupVoiceSample>,
}

#[derive(Debug)]
pub struct BackupVoiceSample {
    pub voice_id: String,
    /// The audio, base64-encoded.
    pub data: Option<String>,
    /// The file the sample is in on this device; never in the file.
    pub file_name: Option<String>,
}

/// What the app needs to be usable on the other machine without a setup
/// session. `None` in any field means "leave this device's alone".
#[derive(Debug)]
pub struct BackupSettings {
    pub api_key: Option<String>,
    pub workspace_id: Option<String>,
    pub region: Option<String>,
    /// An empty string is the push-to-talk hotkey turned off.
    pub hotkey: Option<String>,
    pub vad_threshold: Option<FloatValue>,
    pub vad_silence_ms: Option<i64>,
    /// `en` or `zh-CN`.
    pub ui_language: Option<String>,
}

/// A character with everything hanging off it.
#[derive(Debug)]
pub struct BackupCharacter {
    pub id: String,
    pub name: String,
    pub avatar_path: Option<String>,
    /// The picture `avatar_path` names, base64-encoded.
    pub avatar_data: Option<String>,
    pub language: String,
    pub persona: String,
    pub speech_habits: String,
    pub voice_kind: String,
    pub voice_id: Option<String>,
    pub voice_prompt: Option<String>,
    pub memory_enabled: bool,
    pub max_history_turns: i64,
    pub created_at: String,
    pub updated_at: String,
    pub memories: Vec<BackupMemory>,
    pub conversations: Vec<BackupConversation>,
}

#[derive(Debug)]
pub struct BackupMemory {
    pub id: String,
    /// profile|fact|summary|open_loop
    pub kind: String,
    pub content: String,
    pub salience: FloatValue,
    pub updated_at: String,
}

#[derive(Debug)]
pub struct BackupConversation {
    pub id: String,
    pub title: Option<String>,
    pub started_at: String,
    pub ended_at: Option<String>,
    /// Whether it was summarized into the character's long-term memory;
    /// absent from files written before the mark existed.
    pub memorized: Option<bool>,
    pub messages: Vec<BackupMessage>,
}

#[derive(Debug)]
pub struct BackupMessage {
    pub id: String,
    /// user|assistant
    pub role: String,
    pub text: String,
    pub audio_ms: Option<i64>,
    pub created_at: String,
}

/// What a file holds, for the one-line report after a backup or a restore.
#[derive(Debug, Clone, Copy, PartialEq, Eq, Structural)]
pub struct Totals {
    pub characters: usize,
    pub memories: usize,
    pub conversations: usize,
    pub messages: usize,
}

/// The result of a restore: what came out of the file, and how much of it
/// was new here. `api_key_restored` is for the caller to set, once the
/// keyring has taken the key.
#[derive(Debug, Clone, Copy, PartialEq, Eq, Structural)]
pub struct ImportSummary {
    pub totals: Totals,
    pub new_characters: usize,
    pub settings_restored: bool,
    pub api_key_restored: bool,
}

// ---------------------------------------------------------------------
// The memory mark of a conversation from an older file.

/// Whether `a` sorts before `b`, character by character, the way `str`
/// orders: UTF-8 keeps the order of the code points it encodes.
pub open spec fn lex_lt(a: Seq<char>, b: Seq<char>) -> bool
    decreases a.len(),
{
    if a.len() == 0 {
        b.len() > 0
    } else if b.len() == 0 {
        false
    } else if a[0] != b[0] {
        a[0] < b[0]
    } else {
        lex_lt(a.drop_first(), b.drop_first())
    }
}

/// The greatest `created_at` of `messages`, as `Iterator::max` finds it.
pub open spec fn latest(messages: Seq<BackupMessage>) -> Option<Seq<char>>
    decreases messages.len(),
{
    if messages.len() == 0 {
        None
    } else {
        let last = messages.last().created_at@;
        match latest(messages.drop_last()) {
            Some(m) => if lex_lt(last, m) {
                Some(m)
            } else {
                Some(last)
            },
            None => Some(last),
        }
    }
}

/// The file's own answer if it has one. Otherwise the file predates the
/// mark, from a build that summarized each conversation as it ended: so a
/// conversation counts as remembered when it ended, and not at the time of
/// its last message, which is how the dangling-row sweep closes one it
/// never summarized.
pub open spec fn spec_is_memorized(v: BackupConversation) -> bool {
    match v.memorized {
        Some(b) => b,
        None => match (v.ended_at, latest(v.messages@)) {
            (Some(ended), Some(last)) => ended@ != last,
            _ => false,
        },
    }
}

proof fn lemma_lex_step(a: Seq<char>, b: Seq<char>)
    requires
        a.len() > 0,
        b.len() > 0,
    ensures
        lex_lt(a, b) == if a[0] != b[0] {
            a[0] < b[0]
        } else {
            lex_lt(a.drop_first(), b.drop_first())
        },
{
}

fn lex_less(a: &str, b: &str) -> (r: bool)
    ensures
        r == lex_lt(a@, b@),
{
    let x = chars_of(a);
    let y = chars_of(b);
    let mut i: usize = 0;
    assert(x@.skip(0) =~= x@);
    assert(y@.skip(0) =~= y@);
    while i < x.len() && i < y.len()
        invariant
            i <= x@.len(),
            i <= y@.len(),
            x@ == a@,
            y@ == b@,
            lex_lt(x@, y@) == lex_lt(x@.skip(i as int), y@.skip(i as int)),
        decreases x.len() - i,
    {
        assert(x@.skip(i as int)[0] == x@[i as int]);
        assert(y@.skip(i as int)[0] == y@[i as int]);
        proof {
            lemma_lex_step(x@.skip(i as int), y@.skip(i as int));
        }
        if x[i] != y[i] {
            return x[i] < y[i];
        }
        assert(x@.skip(i as int).drop_first() =~= x@.skip(i + 1));
        assert(y@.skip(i as int).drop_first() =~= y@.skip(i + 1));
        i += 1;
    }
    assert(x@.skip(i as int).len() == x@.len() - i);
    assert(y@.skip(i as int).len() == y@.len() - i);
    i == x.len() && i < y.len()
}

fn latest_created(messages: &Vec<BackupMessage>) -> (r: Option<&String>)
    ensures
        match r {
            Some(s) => latest(messages@) == Some(s@),
            None => latest(messages@) is None,
        },
{
    let mut best: Option<&String> = None;
    let mut i: usize = 0;
    while i < messages.len()
        invariant
            i <= messages@.len(),
            match best {
                Some(s) => latest(messages@.take(i as int)) == Some(s@),
                None => latest(messages@.take(i as int)) is None,
            },
        decreases messages.len() - i,
    {
        let here = &messages[i].created_at;
        assert(messages@.take(i + 1).drop_last() =~= messages@.take(i as int));
        best = match best {
            Some(b) => if lex_less(here.as_str(), b.as_str()) {
                Some(b)
            } else {
                Some(here)
            },
            None => Some(here),
        };
        i += 1;
    }
    assert(messages@.take(messages@.len() as int) =~= messages@);
    best
}

impl BackupConversation {
    /// Whether the conversation was summarized into memory: the file's
    /// answer, or, for a file from before the mark, inferred as
    /// `spec_is_memorized` describes.
    pub fn is_memorized(&self) -> (r: bool)
        ensures
            r == spec_is_memorized(*self),
    {
        match self.memorized {
            Some(b) => b,
            None => {
                let last = latest_created(&self.messages);
                match (&self.ended_at, last) {
                    (Some(ended), Some(last)) => !str_eq(ended.as_str(), last.as_str()),
                    _ => false,
                }
            },
        }
    }
}

proof fn lemma_lex_irreflexive(a: Seq<char>)
    ensures
        !lex_lt(a, a),
    decreases a.len(),
{
    if a.len() > 0 {
        lemma_lex_irreflexive(a.drop_first());
    }
}

proof fn lemma_lex_total(a: Seq<char>, b: Seq<char>)
    ensures
        a == b || lex_lt(a, b) || lex_lt(b, a),
        !(lex_lt(a, b) && lex_lt(b, a)),
    decreases a.len(),
{
    if a.len() > 0 && b.len() > 0 {
        lemma_lex_total(a.drop_first(), b.drop_first());
        if a[0] == b[0] && a.drop_first() == b.drop_first() {
            assert(a =~= seq![a[0]] + a.drop_first());
            assert(b =~= seq![b[0]] + b.drop_first());
        }
    } else if a.len() == 0 && b.len() == 0 {
        assert(a =~= b);
    }
}

proof fn lemma_lex_transitive(a: Seq<char>, b: Seq<char>, c: Seq<char>)
    requires
        lex_lt(a, b),
        lex_lt(b, c),
    ensures
        lex_lt(a, c),
    decreases a.len(),
{
    if a.len() > 0 && b.len() > 0 && c.len() > 0 {
        if a[0] == b[0] && b[0] == c[0] {
            lemma_lex_transitive(a.drop_first(), b.drop_first(), c.drop_first());
        }
    }
}

/// Whether `x` is the `created_at` of one of `ms` and no message was made
/// after it.
pub open spec fn is_newest(x: Seq<char>, ms: Seq<BackupMessage>) -> bool {
    &&& exists|i: int| 0 <= i < ms.len() && (#[trigger] ms[i]).created_at@ == x
    &&& forall|j: int| 0 <= j < ms.len() ==> !lex_lt(x, (#[trigger] ms[j]).created_at@)
}

proof fn lemma_latest_is_newest(ms: Seq<BackupMessage>)
    ensures
        ms.len() == 0 <==> latest(ms) is None,
        latest(ms) matches Some(x) ==> is_newest(x, ms),
    decreases ms.len(),
{
    if ms.len() > 0 {
        let d = ms.drop_last();
        let l = ms.last().created_at@;
        lemma_latest_is_newest(d);
        lemma_lex_irreflexive(l);
        let x = latest(ms).unwrap();
        match latest(d) {
            Some(m) => {
                lemma_lex_total(l, m);
                let k = choose|i: int| 0 <= i < d.len() && (#[trigger] d[i]).created_at@ == m;
                assert forall|j: int| 0 <= j < ms.len() implies !lex_lt(x, (#[trigger] ms[j]).created_at@) by {
                    if j < d.len() {
                        assert(ms[j] == d[j]);
                        if lex_lt(x, ms[j].created_at@) && x == l && m != l {
                            lemma_lex_transitive(m, l, ms[j].created_at@);
                        }
                    } else {
                        lemma_lex_irreflexive(m);
                    }
                }
                if x == m {
                    assert(ms[k] == d[k]);
                } else {
                    assert(ms[ms.len() - 1].created_at@ == x);
                }
            },
            None => {
                assert(d.len() == 0);
                assert(ms[0].created_at@ == x);
            },
        }
    }
}

/// Without a mark, a conversation counts as remembered exactly when it has
/// an end time and messages, and it did not end at its newest message's
/// time — that is how the sweep closes a conversation it never summarized.
/// With a mark, the mark decides.
pub proof fn law_legacy_mark_reads_the_newest_message(v: BackupConversation)
    ensures
        v.memorized matches Some(b) ==> spec_is_memorized(v) == b,
        v.memorized is None ==> (spec_is_memorized(v) <==> (v.ended_at matches Some(e)
            && v.messages@.len() > 0 && !is_newest(e@, v.messages@))),
{
    let ms = v.messages@;
    lemma_latest_is_newest(ms);
    if v.memorized is None && v.ended_at is Some && ms.len() > 0 {
        let e = v.ended_at.unwrap()@;
        let x = latest(ms).unwrap();
        if is_newest(e, ms) {
            let i = choose|i: int| 0 <= i < ms.len() && (#[trigger] ms[i]).created_at@ == e;
            let k = choose|i: int| 0 <= i < ms.len() && (#[trigger] ms[i]).created_at@ == x;
            assert(!lex_lt(e, ms[k].created_at@));
            assert(!lex_lt(x, ms[i].created_at@));
            lemma_lex_total(e, x);
        }
    }
}

// ---------------------------------------------------------------------
// Totals.

pub open spec fn count_memories(cs: Seq<BackupCharacter>) -> nat
    decreases cs.len(),
{
    if cs.len() == 0 {
        0
    } else {
        count_memories(cs.drop_last()) + cs.last().memories@.len()
    }
}

pub open spec fn count_conversations(cs: Seq<BackupCharacter>) -> nat
    decreases cs.len(),
{
    if cs.len() == 0 {
        0
    } else {
        count_conversations(cs.drop_last()) + cs.last().conversations@.len()
    }
}

pub open spec fn messages_in(vs: Seq<BackupConversation>) -> nat
    decreases vs.len(),
{
    if vs.len() == 0 {
        0
    } else {
        messages_in(vs.drop_last()) + vs.last().messages@.len()
    }
}

pub open spec fn count_messages(cs: Seq<BackupCharacter>) -> nat
    decreases cs.len(),
{
    if cs.len() == 0 {
        0
    } else {
        count_messages(cs.drop_last()) + messages_in(cs.last().conversations@)
    }
}

/// A sum over a prefix is at most the sum over the whole.
proof fn lemma_counts_grow(cs: Seq<BackupCharacter>, k: int)
    requires
        0 <= k <= cs.len(),
    ensures
        count_memories(cs.take(k)) <= count_memories(cs),
        count_conversations(cs.take(k)) <= count_conversations(cs),
        count_messages(cs.take(k)) <= count_messages(cs),
    decreases cs.len() - k,
{
    if k < cs.len() {
        assert(cs.take(k + 1).drop_last() =~= cs.take(k));
        lemma_counts_grow(cs, k + 1);
    } else {
        assert(cs.take(k) =~= cs);
    }
}

proof fn lemma_messages_in_grow(vs: Seq<BackupConversation>, k: int)
    requires
        0 <= k <= vs.len(),
    ensures
        messages_in(vs.take(k)) <= messages_in(vs),
    decreases vs.len() - k,
{
    if k < vs.len() {
        assert(vs.take(k + 1).drop_last() =~= vs.take(k));
        lemma_messages_in_grow(vs, k + 1);
    } else {
        assert(vs.take(k) =~= vs);
    }
}

impl Backup {
    /// How many characters, memories, conversations and messages the file
    /// holds.
    pub fn totals(&self) -> (t: Totals)
        requires
            count_memories(self.characters@) <= usize::MAX,
            count_conversations(self.characters@) <= usize::MAX,
            count_messages(self.characters@) <= usize::MAX,
        ensures
            t.characters == self.characters@.len(),
            t.memories == count_memories(self.characters@),
            t.conversations == count_conversations(self.characters@),
            t.messages == count_messages(self.characters@),
    {
        let cs = &self.characters;
        let mut memories: usize = 0;
        let mut conversations: usize = 0;
        let mut messages: usize = 0;
        let mut i: usize = 0;
        while i < cs.len()
            invariant
                i <= cs@.len(),
                memories == count_memories(cs@.take(i as int)),
                conversations == count_conversations(cs@.take(i as int)),
                messages == count_messages(cs@.take(i as int)),
                count_memories(cs@) <= usize::MAX,
                count_conversations(cs@) <= usize::MAX,
                count_messages(cs@) <= usize::MAX,
            decreases cs.len() - i,
        {
            let c = &cs[i];
            proof {
                assert(cs@.take(i + 1).drop_last() =~= cs@.take(i as int));
                lemma_counts_grow(cs@, i + 1);
            }
            memories = memories + c.memories.len();
            conversations = conversations + c.conversations.len();
            let vs = &c.conversations;
            let mut in_c: usize = 0;
            let mut j: usize = 0;
            while j < vs.len()
                invariant
                    j <= vs@.len(),
                    in_c == messages_in(vs@.take(j as int)),
                    messages + messages_in(vs@) <= usize::MAX,
                decreases vs.len() - j,
            {
                proof {
                    assert(vs@.take(j + 1).drop_last() =~= vs@.take(j as int));
                    lemma_messages_in_grow(vs@, j + 1);
                }
                in_c = in_c + vs[j].messages.len();
                j += 1;
            }
            assert(vs@.take(vs@.len() as int) =~= vs@);
            messages = messages + in_c;
            i += 1;
        }
        assert(cs@.take(cs@.len() as int) =~= cs@);
        Totals { characters: cs.len(), memories, conversations, messages }
    }
}

// ---------------------------------------------------------------------
// Whether this build can read the file at all.

/// Why a file is not one this build can restore.
#[derive(Debug, Clone, Copy, PartialEq, Eq, Structural)]
pub enum Incompatible {
    /// Not a backup at all.
    NotABackup,
    /// A backup in a format newer than this build reads.
    Newer { version: u32 },
}

pub open spec fn spec_check_compatible(format: Seq<char>, version: u32) -> Result<(), Incompatible> {
    if format != FORMAT@ {
        Err(Incompatible::NotABackup)
    } else if version > VERSION {
        Err(Incompatible::Newer { version })
    } else {
        Ok(())
    }
}

pub open spec fn spec_incompatible_message(e: Incompatible, lang: Lang) -> Seq<char> {
    match e {
        Incompatible::NotABackup => tr(
            lang,
            "This file isn't a VoiceChat backup"@,
            "这不是 VoiceChat 的备份文件"@,
        ),
        Incompatible::Newer { version } => tr(
            lang,
            "This backup was written by a newer version of VoiceChat (format v"@ + decimal(
                version as nat,
            ) + ") — update the app first"@,
            "该备份由更新版本的 VoiceChat 导出（格式 v"@ + decimal(version as nat) + "），请先升级应用"@,
        ),
    }
}

impl Incompatible {
    pub fn message(&self, lang: Lang) -> (r: String)
        ensures
            r@ == spec_incompatible_message(*self, lang),
    {
        let en = lang == Lang::En;
        let mut v: Vec<char> = Vec::new();
        match self {
            Incompatible::NotABackup => extend_str(
                &mut v,
                if en { "This file isn't a VoiceChat backup" } else { "这不是 VoiceChat 的备份文件" },
            ),
            Incompatible::Newer { version } => {
                extend_str(
                    &mut v,
                    if en {
                        "This backup was written by a newer version of VoiceChat (format v"
                    } else {
                        "该备份由更新版本的 VoiceChat 导出（格式 v"
                    },
                );
                push_decimal(&mut v, *version as u64);
                extend_str(&mut v, if en { ") — update the app first" } else { "），请先升级应用" });
            },
        }
        assert(v@ =~= spec_incompatible_message(*self, lang));
        string_of(&v)
    }
}

impl Backup {
    /// Rejects a file this build can't be trusted to restore, before any of
    /// it reaches the database.
    pub fn check_compatible(&self) -> (r: Result<(), Incompatible>)
        ensures
            r == spec_check_compatible(self.format@, self.version),
    {
        if !str_eq(self.format.as_str(), FORMAT) {
            return Err(Incompatible::NotABackup);
        }
        if self.version > VERSION {
            return Err(Incompatible::Newer { version: self.version });
        }
        Ok(())
    }
}

// ---------------------------------------------------------------------
// What a file may hold.

/// The first failure `check` finds among `items`, in order.
pub open spec fn first_failure<T>(items: Seq<T>, check: spec_fn(T) -> Option<ReasonV>) -> Option<
    ReasonV,
>
    decreases items.len(),
{
    if items.len() == 0 {
        None
    } else {
        first(first_failure(items.drop_last(), check), check(items.last()))
    }
}

proof fn lemma_first_failure_step<T>(items: Seq<T>, check: spec_fn(T) -> Option<ReasonV>, i: int)
    requires
        0 <= i < items.len(),
    ensures
        first_failure(items.take(i + 1), check) == first(
            first_failure(items.take(i), check),
            check(items[i]),
        ),
{
    assert(items.take(i + 1).drop_last() =~= items.take(i));
}

/// Once a prefix has failed, the whole fails the same way.
proof fn lemma_first_failure_settles<T>(
    items: Seq<T>,
    check: spec_fn(T) -> Option<ReasonV>,
    k: int,
)
    requires
        0 <= k <= items.len(),
        first_failure(items.take(k), check) is Some,
    ensures
        first_failure(items, check) == first_failure(items.take(k), check),
    decreases items.len() - k,
{
    if k == items.len() {
        assert(items.take(k) =~= items);
    } else {
        lemma_first_failure_step(items, check, k);
        lemma_first_failure_settles(items, check, k + 1);
    }
}

/// When the whole passes, every item does.
proof fn lemma_first_failure_none<T>(items: Seq<T>, check: spec_fn(T) -> Option<ReasonV>)
    requires
        first_failure(items, check) is None,
    ensures
        forall|i: int| 0 <= i < items.len() ==> (#[trigger] check(items[i])) is None,
    decreases items.len(),
{
    if items.len() > 0 {
        let d = items.drop_last();
        lemma_first_failure_none(d, check);
        assert forall|i: int| 0 <= i < items.len() implies (#[trigger] check(items[i])) is None by {
            if i < d.len() {
                assert(items[i] == d[i]);
            }
        }
    }
}

/// When every item passes, the whole does.
proof fn lemma_first_failure_all<T>(items: Seq<T>, check: spec_fn(T) -> Option<ReasonV>)
    requires
        first_failure(items.take(items.len() as int), check) is None,
    ensures
        first_failure(items, check) is None,
{
    assert(items.take(items.len() as int) =~= items);
}

/// A length check on an optional string; absence passes.
pub open spec fn opt_text(o: Option<String>, max: usize, field: Seq<char>) -> Option<ReasonV> {
    match o {
        Some(s) => spec_text(s@, max, field),
        None => None,
    }
}

fn check_opt_text(o: &Option<String>, max: usize, field: &'static str) -> (r: Option<Reason>)
    ensures
        opt_reason(r) == opt_text(*o, max, field@),
{
    match o {
        Some(s) => check_text(s.as_str(), max, field),
        None => None,
    }
}

/// A picture as the file carries it: base64 of at most the avatar store's
/// size that decodes to a PNG, JPEG or WebP image.
pub open spec fn spec_check_avatar(data: Seq<char>) -> Option<ReasonV> {
    if utf8_len(data) as usize > AVATAR_DATA_CHARS {
        Some(ReasonV::AvatarTooLarge)
    } else {
        match crate::avatar::spec_decode(data) {
            Ok(bytes) => if crate::avatar::spec_sniff(bytes) is Some {
                None
            } else {
                Some(ReasonV::AvatarNotImage)
            },
            Err(_) => Some(ReasonV::AvatarNotImage),
        }
    }
}

/// Decodes the picture up front, so writing the pictures out later can't
/// fail on the file's contents half way through.
pub fn check_avatar(data: &str) -> (r: Option<Reason>)
    ensures
        opt_reason(r) == spec_check_avatar(data@),
{
    if data.len() > AVATAR_DATA_CHARS {
        return Some(Reason::AvatarTooLarge);
    }
    match crate::avatar::decode(data) {
        Ok(bytes) => if crate::avatar::Format::sniff(bytes.as_slice()).is_some() {
            None
        } else {
            Some(Reason::AvatarNotImage)
        },
        Err(_) => Some(Reason::AvatarNotImage),
    }
}

/// A voice sample as the file carries it: base64 of at most the sample
/// store's size that decodes to audio voice enrollment takes.
pub open spec fn spec_check_sample(data: Seq<char>) -> Option<ReasonV> {
    if utf8_len(data) as usize > SAMPLE_DATA_CHARS {
        Some(ReasonV::SampleTooLarge)
    } else {
        match crate::avatar::spec_decode(data) {
            Ok(bytes) => if crate::voice::sample::spec_sniff(bytes) is Some {
                None
            } else {
                Some(ReasonV::SampleNotAudio)
            },
            Err(_) => Some(ReasonV::SampleNotAudio),
        }
    }
}

/// Like `check_avatar`, for a voice sample.
pub fn check_sample(data: &str) -> (r: Option<Reason>)
    ensures
        opt_reason(r) == spec_check_sample(data@),
{
    if data.len() > SAMPLE_DATA_CHARS {
        return Some(Reason::SampleTooLarge);
    }
    match crate::avatar::decode(data) {
        Ok(bytes) => if crate::voice::sample::Format::sniff(bytes.as_slice()).is_some() {
            None
        } else {
            Some(Reason::SampleNotAudio)
        },
        Err(_) => Some(Reason::SampleNotAudio),
    }
}

pub open spec fn spec_check_message(m: BackupMessage) -> Option<ReasonV> {
    first(
        spec_required(m.id@, ID_CHARS, "a message id"@),
        first(
            spec_one_of(m.role@, ValueSet::MessageRoles, "a message's role"@),
            first(
                spec_text(m.text@, MESSAGE_CHARS, "a message's text"@),
                spec_text(m.created_at@, TIMESTAMP_CHARS, "a message's created_at"@),
            ),
        ),
    )
}

pub open spec fn message_check() -> spec_fn(BackupMessage) -> Option<ReasonV> {
    |m: BackupMessage| spec_check_message(m)
}

fn check_message(m: &BackupMessage) -> (r: Option<Reason>)
    ensures
        opt_reason(r) == spec_check_message(*m),
{
    let r = check_required(m.id.as_str(), ID_CHARS, "a message id");
    if r.is_some() {
        return r;
    }
    let r = check_one_of(m.role.as_str(), ValueSet::MessageRoles, "a message's role");
    if r.is_some() {
        return r;
    }
    let r = check_text(m.text.as_str(), MESSAGE_CHARS, "a message's text");
    if r.is_some() {
        return r;
    }
    check_text(m.created_at.as_str(), TIMESTAMP_CHARS, "a message's created_at")
}

fn check_messages(ms: &Vec<BackupMessage>) -> (r: Option<Reason>)
    ensures
        opt_reason(r) == first_failure(ms@, message_check()),
{
    let mut i: usize = 0;
    while i < ms.len()
        invariant
            i <= ms@.len(),
            first_failure(ms@.take(i as int), message_check()) is None,
        decreases ms.len() - i,
    {
        let r = check_message(&ms[i]);
        proof {
            lemma_first_failure_step(ms@, message_check(), i as int);
        }
        if r.is_some() {
            proof {
                lemma_first_failure_settles(ms@, message_check(), i + 1);
            }
            return r;
        }
        i += 1;
    }
    proof {
        lemma_first_failure_all(ms@, message_check());
    }
    None
}

pub open spec fn spec_check_conversation(v: BackupConversation) -> Option<ReasonV> {
    first(
        spec_required(v.id@, ID_CHARS, "a conversation id"@),
        first(
            opt_text(v.title, TITLE_CHARS, "a conversation title"@),
            first(
                spec_text(v.started_at@, TIMESTAMP_CHARS, "a conversation's started_at"@),
                first(
                    opt_text(v.ended_at, TIMESTAMP_CHARS, "a conversation's ended_at"@),
                    first(
                        spec_at_most(
                            v.messages@.len() as int,
                            MESSAGES_PER_CONVERSATION,
                            "messages"@,
                        ),
                        first_failure(v.messages@, message_check()),
                    ),
                ),
            ),
        ),
    )
}

pub open spec fn conversation_check() -> spec_fn(BackupConversation) -> Option<ReasonV> {
    |v: BackupConversation| spec_check_conversation(v)
}

fn check_conversation(v: &BackupConversation) -> (r: Option<Reason>)
    ensures
        opt_reason(r) == spec_check_conversation(*v),
{
    let r = check_required(v.id.as_str(), ID_CHARS, "a conversation id");
    if r.is_some() {
        return r;
    }
    let r = check_opt_text(&v.title, TITLE_CHARS, "a conversation title");
    if r.is_some() {
        return r;
    }
    let r = check_text(v.started_at.as_str(), TIMESTAMP_CHARS, "a conversation's started_at");
    if r.is_some() {
        return r;
    }
    let r = check_opt_text(&v.ended_at, TIMESTAMP_CHARS, "a conversation's ended_at");
    if r.is_some() {
        return r;
    }
    let r = check_at_most(v.messages.len(), MESSAGES_PER_CONVERSATION, "messages");
    if r.is_some() {
        return r;
    }
    check_messages(&v.messages)
}

fn check_conversations(vs: &Vec<BackupConversation>) -> (r: Option<Reason>)
    ensures
        opt_reason(r) == first_failure(vs@, conversation_check()),
{
    let mut i: usize = 0;
    while i < vs.len()
        invariant
            i <= vs@.len(),
            first_failure(vs@.take(i as int), conversation_check()) is None,
        decreases vs.len() - i,
    {
        let r = check_conversation(&vs[i]);
        proof {
            lemma_first_failure_step(vs@, conversation_check(), i as int);
        }
        if r.is_some() {
            proof {
                lemma_first_failure_settles(vs@, conversation_check(), i + 1);
            }
            return r;
        }
        i += 1;
    }
    proof {
        lemma_first_failure_all(vs@, conversation_check());
    }
    None
}

/// Salience orders which memories reach the instructions, so it has to be a
/// number in 0.0-1.0: NaN would make that order meaningless.
pub open spec fn spec_check_salience(f: FloatValue) -> Option<ReasonV> {
    if is_unit_interval(f.bits) {
        None
    } else {
        Some(ReasonV::Salience { bits: f.bits, text: f.text@ })
    }
}

pub open spec fn spec_check_memory(m: BackupMemory) -> Option<ReasonV> {
    first(
        spec_required(m.id@, ID_CHARS, "a memory id"@),
        first(
            spec_one_of(m.kind@, ValueSet::MemoryKinds, "a memory's kind"@),
            first(
                spec_text(m.content@, PROSE_CHARS, "a memory's content"@),
                first(
                    spec_text(m.updated_at@, TIMESTAMP_CHARS, "a memory's updated_at"@),
                    spec_check_salience(m.salience),
                ),
            ),
        ),
    )
}

pub open spec fn memory_check() -> spec_fn(BackupMemory) -> Option<ReasonV> {
    |m: BackupMemory| spec_check_memory(m)
}

fn check_memory(m: &BackupMemory) -> (r: Option<Reason>)
    ensures
        opt_reason(r) == spec_check_memory(*m),
{
    let r = check_required(m.id.as_str(), ID_CHARS, "a memory id");
    if r.is_some() {
        return r;
    }
    let r = check_one_of(m.kind.as_str(), ValueSet::MemoryKinds, "a memory's kind");
    if r.is_some() {
        return r;
    }
    let r = check_text(m.content.as_str(), PROSE_CHARS, "a memory's content");
    if r.is_some() {
        return r;
    }
    let r = check_text(m.updated_at.as_str(), TIMESTAMP_CHARS, "a memory's updated_at");
    if r.is_some() {
        return r;
    }
    if check_unit_interval(m.salience.bits) {
        None
    } else {
        Some(Reason::Salience { salience: m.salience.copy() })
    }
}

fn check_memories(ms: &Vec<BackupMemory>) -> (r: Option<Reason>)
    ensures
        opt_reason(r) == first_failure(ms@, memory_check()),
{
    let mut i: usize = 0;
    while i < ms.len()
        invariant
            i <= ms@.len(),
            first_failure(ms@.take(i as int), memory_check()) is None,
        decreases ms.len() - i,
    {
        let r = check_memory(&ms[i]);
        proof {
            lemma_first_failure_step(ms@, memory_check(), i as int);
        }
        if r.is_some() {
            proof {
                lemma_first_failure_settles(ms@, memory_check(), i + 1);
            }
            return r;
        }
        i += 1;
    }
    proof {
        lemma_first_failure_all(ms@, memory_check());
    }
    None
}

/// The fields of a character itself, before what hangs off it.
pub open spec fn spec_check_character_fields(c: BackupCharacter) -> Option<ReasonV> {
    first(
        spec_required(c.id@, ID_CHARS, "a character id"@),
        first(
            spec_required(c.name@, NAME_CHARS, "a character name"@),
            first(
                spec_one_of(c.language@, ValueSet::Languages, "a character's language"@),
                first(
                    spec_one_of(c.voice_kind@, ValueSet::VoiceKinds, "a character's voice_kind"@),
                    first(
                        spec_text(c.persona@, PROSE_CHARS, "a character's persona"@),
                        first(
                            spec_text(
                                c.speech_habits@,
                                PROSE_CHARS,
                                "a character's speech_habits"@,
                            ),
                            first(
                                opt_text(c.voice_id, VOICE_ID_CHARS, "a voice_id"@),
                                first(
                                    opt_text(c.voice_prompt, PROSE_CHARS, "a voice_prompt"@),
                                    opt_text(c.avatar_path, PATH_CHARS, "an avatar_path"@),
                                ),
                            ),
                        ),
                    ),
                ),
            ),
        ),
    )
}

/// The window of history a character asks the session to keep: a value
/// outside 1-200 is a request this app would never make on its own.
pub open spec fn spec_check_turns(turns: i64) -> Option<ReasonV> {
    if 1 <= turns <= MAX_HISTORY_TURNS {
        None
    } else {
        Some(ReasonV::HistoryTurns { turns })
    }
}

pub open spec fn spec_check_character(c: BackupCharacter) -> Option<ReasonV> {
    first(
        spec_check_character_fields(c),
        first(
            match c.avatar_data {
                Some(d) => spec_check_avatar(d@),
                None => None,
            },
            first(
                spec_text(c.created_at@, TIMESTAMP_CHARS, "a character's created_at"@),
                first(
                    spec_text(c.updated_at@, TIMESTAMP_CHARS, "a character's updated_at"@),
                    first(
                        spec_check_turns(c.max_history_turns),
                        first(
                            spec_at_most(
                                c.memories@.len() as int,
                                MEMORIES_PER_CHARACTER,
                                "memories"@,
                            ),
                            first(
                                first_failure(c.memories@, memory_check()),
                                first(
                                    spec_at_most(
                                        c.conversations@.len() as int,
                                        CONVERSATIONS_PER_CHARACTER,
                                        "conversations"@,
                                    ),
                                    first_failure(c.conversations@, conversation_check()),
                                ),
                            ),
                        ),
                    ),
                ),
            ),
        ),
    )
}

pub open spec fn character_check() -> spec_fn(BackupCharacter) -> Option<ReasonV> {
    |c: BackupCharacter| spec_check_character(c)
}

fn check_character_fields(c: &BackupCharacter) -> (r: Option<Reason>)
    ensures
        opt_reason(r) == spec_check_character_fields(*c),
{
    let r = check_required(c.id.as_str(), ID_CHARS, "a character id");
    if r.is_some() {
        return r;
    }
    let r = check_required(c.name.as_str(), NAME_CHARS, "a character name");
    if r.is_some() {
        return r;
    }
    let r = check_one_of(c.language.as_str(), ValueSet::Languages, "a character's language");
    if r.is_some() {
        return r;
    }
    let r = check_one_of(c.voice_kind.as_str(), ValueSet::VoiceKinds, "a character's voice_kind");
    if r.is_some() {
        return r;
    }
    let r = check_text(c.persona.as_str(), PROSE_CHARS, "a character's persona");
    if r.is_some() {
        return r;
    }
    let r = check_text(c.speech_habits.as_str(), PROSE_CHARS, "a character's speech_habits");
    if r.is_some() {
        return r;
    }
    let r = check_opt_text(&c.voice_id, VOICE_ID_CHARS, "a voice_id");
    if r.is_some() {
        return r;
    }
    let r = check_opt_text(&c.voice_prompt, PROSE_CHARS, "a voice_prompt");
    if r.is_some() {
        return r;
    }
    check_opt_text(&c.avatar_path, PATH_CHARS, "an avatar_path")
}

fn check_character(c: &BackupCharacter) -> (r: Option<Reason>)
    ensures
        opt_reason(r) == spec_check_character(*c),
{
    let r = check_character_fields(c);
    if r.is_some() {
        return r;
    }
    let r = match &c.avatar_data {
        Some(d) => check_avatar(d.as_str()),
        None => None,
    };
    if r.is_some() {
        return r;
    }
    let r = check_text(c.created_at.as_str(), TIMESTAMP_CHARS, "a character's created_at");
    if r.is_some() {
        return r;
    }
    let r = check_text(c.updated_at.as_str(), TIMESTAMP_CHARS, "a character's updated_at");
    if r.is_some() {
        return r;
    }
    if !(1 <= c.max_history_turns && c.max_history_turns <= MAX_HISTORY_TURNS) {
        return Some(Reason::HistoryTurns { turns: c.max_history_turns });
    }
    let r = check_at_most(c.memories.len(), MEMORIES_PER_CHARACTER, "memories");
    if r.is_some() {
        return r;
    }
    let r = check_memories(&c.memories);
    if r.is_some() {
        return r;
    }
    let r = check_at_most(c.conversations.len(), CONVERSATIONS_PER_CHARACTER, "conversations");
    if r.is_some() {
        return r;
    }
    check_conversations(&c.conversations)
}

fn check_characters(cs: &Vec<BackupCharacter>) -> (r: Option<Reason>)
    ensures
        opt_reason(r) == first_failure(cs@, character_check()),
{
    let mut i: usize = 0;
    while i < cs.len()
        invariant
            i <= cs@.len(),
            first_failure(cs@.take(i as int), character_check()) is None,
        decreases cs.len() - i,
    {
        let r = check_character(&cs[i]);
        proof {
            lemma_first_failure_step(cs@, character_check(), i as int);
        }
        if r.is_some() {
            proof {
                lemma_first_failure_settles(cs@, character_check(), i + 1);
            }
            return r;
        }
        i += 1;
    }
    proof {
        lemma_first_failure_all(cs@, character_check());
    }
    None
}

pub open spec fn spec_check_voice_sample(s: BackupVoiceSample) -> Option<ReasonV> {
    first(
        spec_required(s.voice_id@, VOICE_ID_CHARS, "a voice sample's voice_id"@),
        match s.data {
            Some(d) => spec_check_sample(d@),
            None => None,
        },
    )
}

pub open spec fn voice_sample_check() -> spec_fn(BackupVoiceSample) -> Option<ReasonV> {
    |s: BackupVoiceSample| spec_check_voice_sample(s)
}

fn check_voice_sample(s: &BackupVoiceSample) -> (r: Option<Reason>)
    ensures
        opt_reason(r) == spec_check_voice_sample(*s),
{
    let r = check_required(s.voice_id.as_str(), VOICE_ID_CHARS, "a voice sample's voice_id");
    if r.is_some() {
        return r;
    }
    match &s.data {
        Some(d) => check_sample(d.as_str()),
        None => None,
    }
}

fn check_voice_samples(ss: &Vec<BackupVoiceSample>) -> (r: Option<Reason>)
    ensures
        opt_reason(r) == first_failure(ss@, voice_sample_check()),
{
    let mut i: usize = 0;
    while i < ss.len()
        invariant
            i <= ss@.len(),
            first_failure(ss@.take(i as int), voice_sample_check()) is None,
        decreases ss.len() - i,
    {
        let r = check_voice_sample(&ss[i]);
        proof {
            lemma_first_failure_step(ss@, voice_sample_check(), i as int);
        }
        if r.is_some() {
            proof {
                lemma_first_failure_settles(ss@, voice_sample_check(), i + 1);
            }
            return r;
        }
        i += 1;
    }
    proof {
        lemma_first_failure_all(ss@, voice_sample_check());
    }
    None
}

/// A workspace id or region from the file, trimmed: the empty string is
/// how "none" is stored, and anything else has to pass `valid`.
pub open spec fn spec_check_host_part(
    value: Option<String>,
    valid: spec_fn(Seq<char>) -> bool,
    reason: spec_fn(Seq<char>) -> ReasonV,
) -> Option<ReasonV> {
    match value {
        Some(v) => {
            let t = trim(v@);
            if t.len() > 0 && !valid(t) {
                Some(reason(t))
            } else {
                None
            }
        },
        None => None,
    }
}

pub open spec fn spec_check_threshold(t: Option<FloatValue>) -> Option<ReasonV> {
    match t {
        Some(f) => if is_unit_interval(f.bits) {
            None
        } else {
            Some(ReasonV::Threshold { bits: f.bits, text: f.text@ })
        },
        None => None,
    }
}

pub open spec fn spec_check_silence(ms: Option<i64>) -> Option<ReasonV> {
    match ms {
        Some(ms) => if MIN_VAD_SILENCE_MS <= ms <= MAX_VAD_SILENCE_MS {
            None
        } else {
            Some(ReasonV::Silence { ms })
        },
        None => None,
    }
}

/// The settings a file carries. The workspace id and region get exactly
/// the check a typed-in value gets, because they end up in the hostname
/// every request — API key attached — is sent to.
pub open spec fn spec_check_settings(s: BackupSettings) -> Option<ReasonV> {
    first(
        match s.api_key {
            Some(k) => spec_required(k@, API_KEY_CHARS, "the API key"@),
            None => None,
        },
        first(
            spec_check_host_part(
                s.workspace_id,
                |t: Seq<char>| crate::dashscope::spec_is_valid_workspace_id(t),
                |t: Seq<char>| ReasonV::WorkspaceId { workspace_id: t },
            ),
            first(
                spec_check_host_part(
                    s.region,
                    |t: Seq<char>| crate::dashscope::spec_is_valid_region(t),
                    |t: Seq<char>| ReasonV::Region { region: t },
                ),
                first(
                    match s.hotkey {
                        Some(h) => spec_text(h@, HOTKEY_CHARS, "the hotkey"@),
                        None => None,
                    },
                    first(
                        match s.ui_language {
                            Some(t) => spec_one_of(
                                t@,
                                ValueSet::UiLanguageTags,
                                "the display language"@,
                            ),
                            None => None,
                        },
                        first(
                            spec_check_threshold(s.vad_threshold),
                            spec_check_silence(s.vad_silence_ms),
                        ),
                    ),
                ),
            ),
        ),
    )
}

impl BackupSettings {
    pub fn validate(&self) -> (r: Result<(), Reason>)
        ensures
            match r {
                Ok(()) => spec_check_settings(*self) is None,
                Err(e) => spec_check_settings(*self) == Some(e@),
            },
    {
        if let Some(key) = &self.api_key {
            if let Some(e) = check_required(key.as_str(), API_KEY_CHARS, "the API key") {
                return Err(e);
            }
        }
        if let Some(w) = &self.workspace_id {
            let t = trim_str(w.as_str());
            if t.unicode_len() > 0 && !crate::dashscope::is_valid_workspace_id(t.as_str()) {
                return Err(Reason::WorkspaceId { workspace_id: t });
            }
        }
        if let Some(region) = &self.region {
            let t = trim_str(region.as_str());
            if t.unicode_len() > 0 && !crate::dashscope::is_valid_region(t.as_str()) {
                return Err(Reason::Region { region: t });
            }
        }
        if let Some(h) = &self.hotkey {
            if let Some(e) = check_text(h.as_str(), HOTKEY_CHARS, "the hotkey") {
                return Err(e);
            }
        }
        if let Some(tag) = &self.ui_language {
            if let Some(e) = check_one_of(tag.as_str(), ValueSet::UiLanguageTags, "the display language") {
                return Err(e);
            }
        }
        if let Some(f) = &self.vad_threshold {
            if !check_unit_interval(f.bits) {
                return Err(Reason::Threshold { threshold: f.copy() });
            }
        }
        if let Some(ms) = self.vad_silence_ms {
            if !(MIN_VAD_SILENCE_MS <= ms && ms <= MAX_VAD_SILENCE_MS) {
                return Err(Reason::Silence { ms });
            }
        }
        Ok(())
    }
}

/// Everything a file must satisfy before any of it is restored, in the
/// order it is checked: the first failure is the one reported.
pub open spec fn spec_validate(b: Backup) -> Option<ReasonV> {
    first(
        spec_at_most(b.characters@.len() as int, CHARACTERS, "characters"@),
        first(
            spec_text(b.exported_at@, TIMESTAMP_CHARS, "exported_at"@),
            first(
                spec_text(b.app_version@, NAME_CHARS, "app_version"@),
                first(
                    first_failure(b.characters@, character_check()),
                    first(
                        spec_at_most(b.voice_samples@.len() as int, CHARACTERS, "voice samples"@),
                        first(
                            first_failure(b.voice_samples@, voice_sample_check()),
                            match b.settings {
                                Some(s) => spec_check_settings(s),
                                None => None,
                            },
                        ),
                    ),
                ),
            ),
        ),
    )
}

/// A picture a file carries, if any, decodes to a PNG, JPEG or WebP image.
pub open spec fn picture_decodes(data: Option<String>) -> bool {
    match data {
        Some(d) => match crate::avatar::spec_decode(d@) {
            Ok(bytes) => crate::avatar::spec_sniff(bytes) is Some,
            Err(_) => false,
        },
        None => true,
    }
}

/// A voice sample a file carries, if any, decodes to audio voice
/// enrollment takes.
pub open spec fn sample_decodes(data: Option<String>) -> bool {
    match data {
        Some(d) => match crate::avatar::spec_decode(d@) {
            Ok(bytes) => crate::voice::sample::spec_sniff(bytes) is Some,
            Err(_) => false,
        },
        None => true,
    }
}

/// A backup that passes `validate` holds nothing its restore would have to
/// give up on half way for what it is: every picture decodes to a PNG, JPEG
/// or WebP image, and every voice sample to audio voice enrollment takes.
pub proof fn law_validated_media_decode(b: Backup)
    requires
        spec_validate(b) is None,
    ensures
        forall|i: int|
            0 <= i < b.characters@.len() ==> picture_decodes(#[trigger] b.characters@[i].avatar_data),
        forall|i: int|
            0 <= i < b.voice_samples@.len() ==> sample_decodes(#[trigger] b.voice_samples@[i].data),
{
    lemma_first_failure_none(b.characters@, character_check());
    lemma_first_failure_none(b.voice_samples@, voice_sample_check());
    assert forall|i: int| 0 <= i < b.characters@.len() implies picture_decodes(
        #[trigger] b.characters@[i].avatar_data,
    ) by {
        assert(character_check()(b.characters@[i]) is None);
    }
    assert forall|i: int| 0 <= i < b.voice_samples@.len() implies sample_decodes(
        #[trigger] b.voice_samples@[i].data,
    ) by {
        assert(voice_sample_check()(b.voice_samples@[i]) is None);
    }
}

impl Backup {
    /// Checks the contents against the ceilings and the closed value sets,
    /// so a file that is damaged or hostile is refused whole rather than
    /// half restored. `Err` carries the first thing wrong with it.
    pub fn validate(&self) -> (r: Result<(), Reason>)
        ensures
            match r {
                Ok(()) => spec_validate(*self) is None,
                Err(e) => spec_validate(*self) == Some(e@),
            },
    {
        if let Some(e) = check_at_most(self.characters.len(), CHARACTERS, "characters") {
            return Err(e);
        }
        if let Some(e) = check_text(self.exported_at.as_str(), TIMESTAMP_CHARS, "exported_at") {
            return Err(e);
        }
        if let Some(e) = check_text(self.app_version.as_str(), NAME_CHARS, "app_version") {
            return Err(e);
        }
        if let Some(e) = check_characters(&self.characters) {
            return Err(e);
        }
        if let Some(e) = check_at_most(self.voice_samples.len(), CHARACTERS, "voice samples") {
            return Err(e);
        }
        if let Some(e) = check_voice_samples(&self.voice_samples) {
            return Err(e);
        }
        match &self.settings {
            Some(s) => s.validate(),
            None => Ok(()),
        }
    }
}

/// What the user reads when a backup is turned away for `reason`.
pub open spec fn spec_rejection(reason: Reason, lang: Lang) -> Seq<char> {
    tr(lang, "This backup file isn't usable: "@, "该备份文件无法使用："@) + spec_reason_text(reason, lang)
}

pub fn rejection(reason: &Reason, lang: Lang) -> (r: String)
    ensures
        r@ == spec_rejection(*reason, lang),
{
    let mut v: Vec<char> = Vec::new();
    extend_str(
        &mut v,
        if lang == Lang::En { "This backup file isn't usable: " } else { "该备份文件无法使用：" },
    );
    let t = reason.text(lang);
    extend_str(&mut v, t.as_str());
    string_of(&v)
}

// ---------------------------------------------------------------------
// Which voice samples travel with an export.

/// The custom voices the characters use, each once, in the order they are
/// first used: only those can have a kept sample worth carrying, since the
/// rest of the account's voices aren't anyone's to share and a preset voice
/// has no sample.
pub open spec fn spec_sample_voice_ids(cs: Seq<Character>) -> Seq<Seq<char>>
    decreases cs.len(),
{
    if cs.len() == 0 {
        Seq::<Seq<char>>::empty()
    } else {
        let before = spec_sample_voice_ids(cs.drop_last());
        let c = cs.last();
        match c.voice_id {
            Some(id) => if c.voice_kind@ != "preset"@ && !before.contains(id@) {
                before.push(id@)
            } else {
                before
            },
            None => before,
        }
    }
}

/// The text of each string.
pub open spec fn texts(items: Seq<String>) -> Seq<Seq<char>> {
    items.map_values(|t: String| t@)
}

fn contains_text(items: &Vec<String>, s: &str) -> (r: bool)
    ensures
        r == texts(items@).contains(s@),
{
    let mut i: usize = 0;
    while i < items.len()
        invariant
            i <= items@.len(),
            forall|k: int| 0 <= k < i ==> items@[k]@ != s@,
        decreases items.len() - i,
    {
        if str_eq(items[i].as_str(), s) {
            assert(texts(items@)[i as int] == s@);
            return true;
        }
        i += 1;
    }
    proof {
        if texts(items@).contains(s@) {
            let k = choose|k: int|
                0 <= k < items@.len() && #[trigger] texts(items@)[k] == s@;
            assert(items@[k]@ == s@);
        }
    }
    false
}

/// The voice ids whose kept samples an export looks up, as
/// `spec_sample_voice_ids` describes.
pub fn sample_voice_ids(characters: &[Character]) -> (r: Vec<String>)
    ensures
        texts(r@) == spec_sample_voice_ids(characters@),
{
    let mut out: Vec<String> = Vec::new();
    let mut i: usize = 0;
    while i < characters.len()
        invariant
            i <= characters@.len(),
            texts(out@) == spec_sample_voice_ids(characters@.take(i as int)),
        decreases characters.len() - i,
    {
        let c = &characters[i];
        assert(characters@.take(i + 1).drop_last() =~= characters@.take(i as int));
        assert(characters@.take(i + 1).last() == characters@[i as int]);
        if let Some(id) = &c.voice_id {
            if !str_eq(c.voice_kind.as_str(), "preset") && !contains_text(&out, id.as_str()) {
                let ghost before = out@;
                out.push(copy_str(id.as_str()));
                assert(texts(out@) =~= texts(before).push(id@));
            }
        }
        i += 1;
    }
    assert(characters@.take(characters@.len() as int) =~= characters@);
    out
}

impl Backup {
    /// What a restore reports once the file is in the database:
    /// `new_characters` of its characters were new here, and whether it
    /// carried settings. The API key is the caller's to report, once the
    /// keyring has taken it.
    pub fn summary(&self, new_characters: usize) -> (r: ImportSummary)
        requires
            count_memories(self.characters@) <= usize::MAX,
            count_conversations(self.characters@) <= usize::MAX,
            count_messages(self.characters@) <= usize::MAX,
        ensures
            r.totals.characters == self.characters@.len(),
            r.totals.memories == count_memories(self.characters@),
            r.totals.conversations == count_conversations(self.characters@),
            r.totals.messages == count_messages(self.characters@),
            r.new_characters == new_characters,
            r.settings_restored == self.settings is Some,
            !r.api_key_restored,
    {
        ImportSummary {
            totals: self.totals(),
            new_characters,
            settings_restored: self.settings.is_some(),
            api_key_restored: false,
        }
    }
}

} // verus!
