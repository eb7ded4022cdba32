//! The live voice session's decisions: how each event from the realtime
//! server moves the turn along — who holds the floor, what is played and
//! shown, what is stored, what goes back to the server — and what a session
//! does when its connection ends.
//!
//! The socket, the audio devices, the windows and the database are the
//! application's: it hands each event and command in, with the time, and
//! carries out what comes back.

use vstd::prelude::*;

use crate::encoding::{base64_decode, base64_decoded};
use crate::i18n::{tr, Lang};
use crate::text::{
    chars_of, contains_seq, copy_str, extend_str, string_of, unicode_lowercase,
};

verus! {

/// After a cancelled reply is cancelled again, the server may still try to
/// start a reply and answer with "another response is in progress": the
/// overlap working as intended, not a failed call.
pub const OVERLAP_ERROR_HOLD_MS: u64 = 1500;
/// How long after asking for an opener its errors are let pass.
pub const OPENER_GRACE_MS: u64 = 3000;
/// The hard context limit of the realtime API: 50 turns, 300 s of audio.
/// Crossing it means summarizing and reconnecting.
pub const ROLL_MAX_TURNS: u32 = 50;
pub const ROLL_MAX_AUDIO_MS: u64 = 300_000;
/// One captured audio frame.
pub const FRAME_MS: u64 = 20;
pub const IDLE_TIMEOUT_MS: u64 = 300_000;
pub const RECONNECT_MIN_MS: u64 = 1_000;
pub const RECONNECT_MAX_MS: u64 = 30_000;
/// The voice used when a character has none.
pub const FALLBACK_VOICE: &'static str = "longanqian";

#[derive(Debug)]
pub struct ErrorPayload {
    pub message: Option<String>,
    pub code: Option<String>,
}

/// What the realtime server sends, as far as the session cares.
#[derive(Debug)]
pub enum ServerEvent {
    SessionCreated,
    SpeechStarted,
    SpeechStopped,
    ResponseAudioDelta { delta: String },
    ResponseAudioTranscriptDelta { delta: String },
    ResponseAudioTranscriptDone { transcript: Option<String> },
    InputAudioTranscriptionCompleted { transcript: String },
    ResponseDone,
    Error { error: ErrorPayload },
    /// An event type this client does not model: ignored, not fatal.
    Unknown,
}

/// What the rest of the app asks of the session.
#[derive(Debug)]
pub enum SessionCommand {
    StartTalking,
    StopTalking,
    /// Open if closed, close if open: the hotkey and the mic button alike.
    ToggleTalking,
    Interrupt,
    /// Carries the new current character's id.
    SwitchCharacter(String),
    /// Whether this conversation is summarized into long-term memory.
    SetRecording(bool),
    /// End this conversation and open a new one with the same character.
    NewConversation,
    Shutdown,
}

/// What the Chat tab shows the session doing.
#[derive(Debug)]
pub enum ChatState {
    Idle,
    Connecting,
    Listening,
    Thinking,
    Speaking,
    Error(String),
}

/// What to send the server after an event.
#[derive(Debug, Clone, Copy, PartialEq, Eq, Structural)]
pub enum ServerAction {
    /// Nothing to send.
    Nothing,
    /// Stop generating the response in flight.
    CancelResponse,
    /// Submit the user's turn: commit the input buffer. Never also a
    /// `response.create` — the server starts the reply on its own.
    CommitTurn,
}

/// What the app has to do on the session's behalf.
#[derive(Debug)]
pub enum Effect {
    /// Show this state.
    State(ChatState),
    /// Drop the audio queued for playback.
    ClearPlayback,
    /// Queue this audio for playback.
    PlayAudio(Vec<u8>),
    /// Hold the user's place in the transcript until their words arrive.
    ReserveUserBubble,
    /// The reply's transcript so far, or in full when `done`.
    AssistantText { text: String, done: bool },
    /// What the user said.
    UserText { text: String },
    /// Store a message in the conversation being written to.
    Persist { role: &'static str, text: String },
    /// Start a new subtitle line.
    BeginSubtitleLine,
    /// Show (and translate) the current subtitle line as it now reads.
    SubtitleLine { text: String, done: bool },
    /// End the current subtitle line once its audio has played.
    FinishSubtitleLine,
    /// Start or stop capturing from the mic.
    Capture(bool),
    /// Tell the app whether the mic is open.
    Mic(bool),
    /// Tell the Chat tab whether this conversation goes into memory;
    /// `None` when the character has memory off and there is no choice.
    Recording(Option<bool>),
    /// Make this character the current one, and say so.
    CurrentCharacter(String),
}

pub ghost enum ChatStateV {
    Idle,
    Connecting,
    Listening,
    Thinking,
    Speaking,
    Error(Seq<char>),
}

impl ChatState {
    pub open spec fn view(self) -> ChatStateV {
        match self {
            ChatState::Idle => ChatStateV::Idle,
            ChatState::Connecting => ChatStateV::Connecting,
            ChatState::Listening => ChatStateV::Listening,
            ChatState::Thinking => ChatStateV::Thinking,
            ChatState::Speaking => ChatStateV::Speaking,
            ChatState::Error(m) => ChatStateV::Error(m@),
        }
    }
}

pub ghost enum EffectV {
    State(ChatStateV),
    ClearPlayback,
    PlayAudio(Seq<u8>),
    ReserveUserBubble,
    AssistantText { text: Seq<char>, done: bool },
    UserText { text: Seq<char> },
    Persist { role: Seq<char>, text: Seq<char> },
    BeginSubtitleLine,
    SubtitleLine { text: Seq<char>, done: bool },
    FinishSubtitleLine,
    Capture(bool),
    Mic(bool),
    Recording(Option<bool>),
    CurrentCharacter(Seq<char>),
}

impl Effect {
    pub open spec fn view(self) -> EffectV {
        match self {
            Effect::State(s) => EffectV::State(s@),
            Effect::ClearPlayback => EffectV::ClearPlayback,
            Effect::PlayAudio(b) => EffectV::PlayAudio(b@),
            Effect::ReserveUserBubble => EffectV::ReserveUserBubble,
            Effect::AssistantText { text, done } => EffectV::AssistantText { text: text@, done },
            Effect::UserText { text } => EffectV::UserText { text: text@ },
            Effect::Persist { role, text } => EffectV::Persist { role: role@, text: text@ },
            Effect::BeginSubtitleLine => EffectV::BeginSubtitleLine,
            Effect::SubtitleLine { text, done } => EffectV::SubtitleLine { text: text@, done },
            Effect::FinishSubtitleLine => EffectV::FinishSubtitleLine,
            Effect::Capture(on) => EffectV::Capture(on),
            Effect::Mic(on) => EffectV::Mic(on),
            Effect::Recording(r) => EffectV::Recording(r),
            Effect::CurrentCharacter(id) => EffectV::CurrentCharacter(id@),
        }
    }
}

pub open spec fn effects_view(es: Seq<Effect>) -> Seq<EffectV> {
    es.map_values(|e: Effect| e@)
}

pub ghost enum ServerEventV {
    SessionCreated,
    SpeechStarted,
    SpeechStopped,
    ResponseAudioDelta { delta: Seq<char> },
    ResponseAudioTranscriptDelta { delta: Seq<char> },
    ResponseAudioTranscriptDone { transcript: Option<Seq<char>> },
    InputAudioTranscriptionCompleted { heard: Seq<char> },
    ResponseDone,
    Error { message: Option<Seq<char>>, code: Option<Seq<char>> },
    Unknown,
}

pub open spec fn opt_seq(o: Option<String>) -> Option<Seq<char>> {
    match o {
        Some(s) => Some(s@),
        None => None,
    }
}

impl ServerEvent {
    pub open spec fn view(self) -> ServerEventV {
        match self {
            ServerEvent::SessionCreated => ServerEventV::SessionCreated,
            ServerEvent::SpeechStarted => ServerEventV::SpeechStarted,
            ServerEvent::SpeechStopped => ServerEventV::SpeechStopped,
            ServerEvent::ResponseAudioDelta { delta } => ServerEventV::ResponseAudioDelta {
                delta: delta@,
            },
            ServerEvent::ResponseAudioTranscriptDelta { delta } =>
                ServerEventV::ResponseAudioTranscriptDelta { delta: delta@ },
            ServerEvent::ResponseAudioTranscriptDone { transcript } =>
                ServerEventV::ResponseAudioTranscriptDone { transcript: opt_seq(transcript) },
            ServerEvent::InputAudioTranscriptionCompleted { transcript } =>
                ServerEventV::InputAudioTranscriptionCompleted { heard: transcript@ },
            ServerEvent::ResponseDone => ServerEventV::ResponseDone,
            ServerEvent::Error { error } => ServerEventV::Error {
                message: opt_seq(error.message),
                code: opt_seq(error.code),
            },
            ServerEvent::Unknown => ServerEventV::Unknown,
        }
    }
}

/// A short name for each event, for the logs.
pub fn event_kind(event: &ServerEvent) -> (r: &'static str)
    ensures
        r@ == match event@ {
            ServerEventV::SessionCreated => "session.created"@,
            ServerEventV::SpeechStarted => "speech_started"@,
            ServerEventV::SpeechStopped => "speech_stopped"@,
            ServerEventV::ResponseAudioDelta { .. } => "audio.delta"@,
            ServerEventV::ResponseAudioTranscriptDelta { .. } => "transcript.delta"@,
            ServerEventV::ResponseAudioTranscriptDone { .. } => "transcript.done"@,
            ServerEventV::InputAudioTranscriptionCompleted { .. } =>
                "input_transcription.completed"@,
            ServerEventV::ResponseDone => "response.done"@,
            ServerEventV::Error { .. } => "error"@,
            ServerEventV::Unknown => "unknown"@,
        },
{
    match event {
        ServerEvent::SessionCreated => "session.created",
        ServerEvent::SpeechStarted => "speech_started",
        ServerEvent::SpeechStopped => "speech_stopped",
        ServerEvent::ResponseAudioDelta { .. } => "audio.delta",
        ServerEvent::ResponseAudioTranscriptDelta { .. } => "transcript.delta",
        ServerEvent::ResponseAudioTranscriptDone { .. } => "transcript.done",
        ServerEvent::InputAudioTranscriptionCompleted { .. } => "input_transcription.completed",
        ServerEvent::ResponseDone => "response.done",
        ServerEvent::Error { .. } => "error",
        ServerEvent::Unknown => "unknown",
    }
}

// ---------------------------------------------------------------------
// Error events.

/// How an error event reads: `[code] message`, or whichever of the two it
/// has.
pub open spec fn spec_error_text(code: Option<Seq<char>>, message: Option<Seq<char>>, lang: Lang) -> Seq<char> {
    match (code, message) {
        (Some(c), Some(m)) => "["@ + c + "] "@ + m,
        (None, Some(m)) => m,
        (Some(c), None) => c,
        (None, None) => tr(lang, "Unknown error"@, "未知错误"@),
    }
}

pub fn error_text(error: &ErrorPayload, lang: Lang) -> (r: String)
    ensures
        r@ == spec_error_text(opt_seq(error.code), opt_seq(error.message), lang),
{
    match (&error.code, &error.message) {
        (Some(c), Some(m)) => {
            let mut v: Vec<char> = Vec::new();
            extend_str(&mut v, "[");
            extend_str(&mut v, c.as_str());
            extend_str(&mut v, "] ");
            extend_str(&mut v, m.as_str());
            string_of(&v)
        },
        (None, Some(m)) => copy_str(m.as_str()),
        (Some(c), None) => copy_str(c.as_str()),
        (None, None) => copy_str(if lang == Lang::En { "Unknown error" } else { "未知错误" }),
    }
}

/// Whether an error is the server refusing to start a reply while another
/// is in progress — what speaking over a cancelled reply can produce.
pub open spec fn spec_is_overlap_error(message: Seq<char>) -> bool {
    let lower = crate::text::unicode_lowercase_str(message);
    ||| contains_seq(lower, "in progress"@)
    ||| contains_seq(lower, "another response"@)
    ||| contains_seq(message, "正在进行"@)
    ||| contains_seq(message, "进行中"@)
}

pub fn is_overlap_error(message: &str) -> (r: bool)
    ensures
        r == spec_is_overlap_error(message@),
{
    let lower = crate::text::to_lowercase_str(message);
    let l = chars_of(lower.as_str());
    let m = chars_of(message);
    let a = chars_of("in progress");
    let b = chars_of("another response");
    let c = chars_of("正在进行");
    let d = chars_of("进行中");
    crate::text::contains_chars(&l, &a) || crate::text::contains_chars(&l, &b)
        || crate::text::contains_chars(&m, &c) || crate::text::contains_chars(&m, &d)
}

// ---------------------------------------------------------------------
// One connection's turn-taking.

/// The state of one connection's turn-taking. Times are milliseconds on
/// the app's monotonic clock.
#[derive(Debug)]
pub struct Turn {
    /// The mic is open.
    pub is_talking: bool,
    /// A reply is being generated or played.
    pub is_responding: bool,
    /// Deltas still arriving for a cancelled response are being dropped,
    /// until its `response.done`.
    pub dropping_stale: bool,
    /// `response.done` events still belonging to a cancelled line.
    pub dones_left: u8,
    /// Until this time, "another response is in progress" is expected.
    pub overlap_until: Option<u64>,
    /// Until this time, errors after asking for an opener are let pass.
    pub opener_grace: Option<u64>,
    /// The user has said something on this connection.
    pub heard_user: bool,
    /// A turn ended before the cancelled response it interrupted was
    /// confirmed gone; commit it once that response's `response.done`
    /// arrives.
    pub pending_commit: bool,
    pub turn_count: u32,
    /// Audio captured on this connection.
    pub captured_ms: u64,
    /// The context limit is reached: roll once the reply in flight ends.
    pub pending_roll: bool,
    /// The reply's transcript so far.
    pub assistant_text: String,
    /// The character allows long-term memory at all.
    pub memory_enabled: bool,
    /// This conversation will be summarized into long-term memory when it
    /// ends. Its transcript goes into the history regardless.
    pub recording: bool,
}

pub ghost struct TurnV {
    pub is_talking: bool,
    pub is_responding: bool,
    pub dropping_stale: bool,
    pub dones_left: u8,
    pub overlap_until: Option<u64>,
    pub opener_grace: Option<u64>,
    pub heard_user: bool,
    pub pending_commit: bool,
    pub turn_count: u32,
    pub captured_ms: u64,
    pub pending_roll: bool,
    pub assistant_text: Seq<char>,
    pub memory_enabled: bool,
    pub recording: bool,
}

impl Turn {
    pub open spec fn view(self) -> TurnV {
        TurnV {
            is_talking: self.is_talking,
            is_responding: self.is_responding,
            dropping_stale: self.dropping_stale,
            dones_left: self.dones_left,
            overlap_until: self.overlap_until,
            opener_grace: self.opener_grace,
            heard_user: self.heard_user,
            pending_commit: self.pending_commit,
            turn_count: self.turn_count,
            captured_ms: self.captured_ms,
            pending_roll: self.pending_roll,
            assistant_text: self.assistant_text@,
            memory_enabled: self.memory_enabled,
            recording: self.recording,
        }
    }

    /// A fresh connection, with the mic as `is_talking` says, for a
    /// character whose memory is on or off as `memory_enabled` says and a
    /// conversation that goes into memory as `recording` says.
    pub fn new(is_talking: bool, memory_enabled: bool, recording: bool) -> (r: Turn)
        ensures
            r@ == (TurnV {
                is_talking,
                is_responding: false,
                dropping_stale: false,
                dones_left: 0,
                overlap_until: None,
                opener_grace: None,
                heard_user: false,
                pending_commit: false,
                turn_count: 0,
                captured_ms: 0,
                pending_roll: false,
                assistant_text: Seq::<char>::empty(),
                memory_enabled,
                recording,
            }),
    {
        Turn {
            is_talking,
            is_responding: false,
            dropping_stale: false,
            dones_left: 0,
            overlap_until: None,
            opener_grace: None,
            heard_user: false,
            pending_commit: false,
            turn_count: 0,
            captured_ms: 0,
            pending_roll: false,
            assistant_text: String::new(),
            memory_enabled,
            recording,
        }
    }
}

/// What the app knows around an event: the time, whether the subtitle
/// window is open, whether a conversation row is being written to, and the
/// display language.
pub struct EventContext {
    pub now_ms: u64,
    pub subtitle_open: bool,
    pub has_conversation: bool,
    pub lang: Lang,
}

/// An event's outcome: what to send, and what the app has to do.
pub struct Reaction {
    pub action: ServerAction,
    pub effects: Vec<Effect>,
}

pub ghost struct Reacted {
    pub turn: TurnV,
    pub action: ServerAction,
    pub effects: Seq<EffectV>,
}

/// Listening while the mic is open, idle otherwise: between turns the mic
/// stays open, and "idle" would read as the conversation having ended.
pub open spec fn at_rest(is_talking: bool) -> ChatStateV {
    if is_talking {
        ChatStateV::Listening
    } else {
        ChatStateV::Idle
    }
}

fn at_rest_exec(is_talking: bool) -> (r: ChatState)
    ensures
        r@ == at_rest(is_talking),
{
    if is_talking {
        ChatState::Listening
    } else {
        ChatState::Idle
    }
}

/// A response has actually started: the first content for it arrived. This
/// — not the commit — drives turn counting and rolling, since the server
/// starts replies on its own schedule.
pub open spec fn spec_turn_started(t: TurnV) -> TurnV {
    let count: u32 = if t.turn_count < u32::MAX {
        (t.turn_count + 1) as u32
    } else {
        u32::MAX
    };
    TurnV {
        is_responding: true,
        turn_count: count,
        pending_roll: t.pending_roll || count >= ROLL_MAX_TURNS || t.captured_ms
            >= ROLL_MAX_AUDIO_MS,
        ..t
    }
}

impl Turn {
    fn note_turn_started(&mut self, effects: &mut Vec<Effect>)
        ensures
            final(self)@ == spec_turn_started(old(self)@),
            effects_view(final(effects)@) == effects_view(old(effects)@).push(
                EffectV::State(ChatStateV::Thinking),
            ),
    {
        self.is_responding = true;
        let ghost before = effects@;
        effects.push(Effect::State(ChatState::Thinking));
        assert(effects_view(effects@) =~= effects_view(before).push(
            EffectV::State(ChatStateV::Thinking),
        ));
        self.turn_count = self.turn_count.saturating_add(1);
        if self.turn_count >= ROLL_MAX_TURNS || self.captured_ms >= ROLL_MAX_AUDIO_MS {
            self.pending_roll = true;
        }
    }
}

fn emit(effects: &mut Vec<Effect>, e: Effect)
    ensures
        effects_view(final(effects)@) == effects_view(old(effects)@).push(e@),
{
    let ghost before = effects@;
    let ghost ev = e@;
    effects.push(e);
    assert(effects_view(effects@) =~= effects_view(before).push(ev));
}

/// Whether a deadline is still ahead.
pub open spec fn before(deadline: Option<u64>, now: u64) -> bool {
    match deadline {
        Some(until) => now < until,
        None => false,
    }
}

pub open spec fn no_effects() -> Seq<EffectV> {
    Seq::<EffectV>::empty()
}

/// The user started speaking. Over a reply, that is barge-in and the reply
/// stops at once: its audio is dropped, the response still in flight is
/// cancelled, and the turn is the user's. A gate left up for a cancelled
/// reply is taken down, so it can't swallow what the user says next.
pub open spec fn spec_speech_started(t: TurnV, now: u64) -> Reacted {
    let heard = TurnV { heard_user: true, ..t };
    if t.is_responding && !t.dropping_stale {
        Reacted {
            turn: cut_reply(heard),
            action: ServerAction::CancelResponse,
            effects: seq![EffectV::ClearPlayback, EffectV::State(at_rest(t.is_talking))],
        }
    } else if !t.is_responding && t.dropping_stale {
        Reacted {
            turn: TurnV {
                dropping_stale: false,
                dones_left: 0,
                overlap_until: Some((now + OVERLAP_ERROR_HOLD_MS) as u64),
                ..heard
            },
            action: ServerAction::CancelResponse,
            effects: seq![EffectV::State(ChatStateV::Listening)],
        }
    } else {
        Reacted {
            turn: heard,
            action: ServerAction::Nothing,
            effects: if !t.is_responding {
                seq![EffectV::State(ChatStateV::Listening)]
            } else {
                no_effects()
            },
        }
    }
}

/// The user paused: the turn boundary. Submitted — unless a cancelled
/// response has yet to be confirmed gone, when it waits for that — with the
/// user's place in the transcript held until their words arrive.
pub open spec fn spec_stopped_tail(t: TurnV, effects: Seq<EffectV>) -> Reacted {
    if t.is_talking && !t.is_responding {
        let e = effects.push(EffectV::ReserveUserBubble);
        if t.dropping_stale {
            Reacted {
                turn: TurnV { pending_commit: true, ..t },
                action: ServerAction::Nothing,
                effects: e,
            }
        } else {
            Reacted { turn: t, action: ServerAction::CommitTurn, effects: e }
        }
    } else {
        Reacted { turn: t, action: ServerAction::Nothing, effects }
    }
}

/// The user stopped speaking: the turn boundary.
pub open spec fn spec_speech_stopped(t: TurnV) -> Reacted {
    spec_stopped_tail(t, no_effects())
}

/// Content still arriving for a cancelled response is dropped.
pub open spec fn is_stale(t: TurnV) -> bool {
    t.dropping_stale
}

pub open spec fn stale_content(t: TurnV) -> Reacted {
    Reacted { turn: t, action: ServerAction::Nothing, effects: no_effects() }
}

/// The turn once content has arrived for it, and what starting it shows.
pub open spec fn started(t: TurnV) -> (TurnV, Seq<EffectV>) {
    if !t.is_responding {
        (spec_turn_started(t), seq![EffectV::State(ChatStateV::Thinking)])
    } else {
        (t, no_effects())
    }
}

pub open spec fn spec_audio_delta(t: TurnV, delta: Seq<char>) -> Reacted {
    if is_stale(t) {
        stale_content(t)
    } else {
        let (t1, e1) = started(t);
        let e2 = match base64_decoded(delta) {
            Some(bytes) => e1.push(EffectV::PlayAudio(bytes)),
            None => e1,
        };
        Reacted {
            turn: t1,
            action: ServerAction::Nothing,
            effects: e2.push(EffectV::State(ChatStateV::Speaking)),
        }
    }
}

pub open spec fn spec_transcript_delta(t: TurnV, delta: Seq<char>, subtitle_open: bool) -> Reacted {
    if is_stale(t) {
        stale_content(t)
    } else {
        let (t1, e1) = started(t);
        let e2 = if subtitle_open && t.assistant_text.len() == 0 {
            e1.push(EffectV::BeginSubtitleLine)
        } else {
            e1
        };
        let text = t.assistant_text + delta;
        let e3 = e2.push(EffectV::AssistantText { text, done: false });
        Reacted {
            turn: TurnV { assistant_text: text, ..t1 },
            action: ServerAction::Nothing,
            effects: if subtitle_open {
                e3.push(EffectV::SubtitleLine { text, done: false })
            } else {
                e3
            },
        }
    }
}

/// The reply's transcript is complete: shown, subtitled, stored.
pub open spec fn spec_transcript_done(
    t: TurnV,
    transcript: Option<Seq<char>>,
    subtitle_open: bool,
    has_conversation: bool,
) -> Reacted {
    if t.dropping_stale {
        Reacted { turn: t, action: ServerAction::Nothing, effects: no_effects() }
    } else {
        let text = match transcript {
            Some(x) => x,
            None => t.assistant_text,
        };
        let e1 = seq![EffectV::AssistantText { text, done: true }];
        let e2 = if subtitle_open {
            e1.push(EffectV::SubtitleLine { text, done: true })
        } else {
            e1
        };
        Reacted {
            turn: TurnV { assistant_text: Seq::<char>::empty(), ..t },
            action: ServerAction::Nothing,
            effects: if has_conversation {
                e2.push(EffectV::Persist { role: "assistant"@, text })
            } else {
                e2
            },
        }
    }
}

/// What the user said has been transcribed: shown and stored.
pub open spec fn spec_user_transcript(t: TurnV, transcript: Seq<char>, has_conversation: bool) -> Reacted {
    let e = seq![EffectV::UserText { text: transcript }];
    Reacted {
        turn: t,
        action: ServerAction::Nothing,
        effects: if has_conversation {
            e.push(EffectV::Persist { role: "user"@, text: transcript })
        } else {
            e
        },
    }
}

/// A response ended. The end of a cancelled response lowers the number
/// still expected; when none is left, a turn that waited for it goes out. A
/// plain reply ending puts the session back at rest.
pub open spec fn spec_response_done(t: TurnV) -> Reacted {
    let e0 = seq![EffectV::FinishSubtitleLine];
    if t.dropping_stale {
        if t.dones_left > 1 {
            Reacted {
                turn: TurnV { dones_left: (t.dones_left - 1) as u8, ..t },
                action: ServerAction::Nothing,
                effects: e0,
            }
        } else {
            let t1 = TurnV { dones_left: 0, dropping_stale: false, ..t };
            if t.pending_commit {
                Reacted {
                    turn: TurnV { pending_commit: false, ..t1 },
                    action: if t.is_talking {
                        ServerAction::CommitTurn
                    } else {
                        ServerAction::Nothing
                    },
                    effects: e0,
                }
            } else {
                Reacted { turn: t1, action: ServerAction::Nothing, effects: e0 }
            }
        }
    } else {
        Reacted {
            turn: TurnV { is_responding: false, ..t },
            action: ServerAction::Nothing,
            effects: e0.push(EffectV::State(at_rest(t.is_talking))),
        }
    }
}

/// An error from the server: shown, unless it comes while an opener is
/// being asked for, or is the expected overlap complaint after a cancelled
/// reply was cancelled again.
pub open spec fn spec_error_event(
    t: TurnV,
    code: Option<Seq<char>>,
    message: Option<Seq<char>>,
    now: u64,
    lang: Lang,
) -> Reacted {
    let text = spec_error_text(code, message, lang);
    if before(t.opener_grace, now) {
        Reacted { turn: t, action: ServerAction::Nothing, effects: no_effects() }
    } else if before(t.overlap_until, now) && spec_is_overlap_error(text) {
        Reacted { turn: t, action: ServerAction::Nothing, effects: no_effects() }
    } else {
        Reacted {
            turn: t,
            action: ServerAction::Nothing,
            effects: seq![EffectV::State(ChatStateV::Error(text))],
        }
    }
}

/// How the session reacts to one event from the server.
pub open spec fn spec_react(t: TurnV, e: ServerEventV, ctx: EventContext) -> Reacted {
    match e {
        ServerEventV::SpeechStarted => spec_speech_started(t, ctx.now_ms),
        ServerEventV::SpeechStopped => spec_speech_stopped(t),
        ServerEventV::ResponseAudioDelta { delta } => spec_audio_delta(t, delta),
        ServerEventV::ResponseAudioTranscriptDelta { delta } => spec_transcript_delta(
            t,
            delta,
            ctx.subtitle_open,
        ),
        ServerEventV::ResponseAudioTranscriptDone { transcript } => spec_transcript_done(
            t,
            transcript,
            ctx.subtitle_open,
            ctx.has_conversation,
        ),
        ServerEventV::InputAudioTranscriptionCompleted { heard } => spec_user_transcript(
            t,
            heard,
            ctx.has_conversation,
        ),
        ServerEventV::ResponseDone => spec_response_done(t),
        ServerEventV::Error { message, code } => spec_error_event(
            t,
            code,
            message,
            ctx.now_ms,
            ctx.lang,
        ),
        _ => Reacted { turn: t, action: ServerAction::Nothing, effects: no_effects() },
    }
}

impl Turn {
    fn on_speech_started(&mut self, now: u64, effects: &mut Vec<Effect>) -> (a: ServerAction)
        requires
            now <= u64::MAX - OPENER_GRACE_MS,
            old(effects)@.len() == 0,
        ensures
            spec_speech_started(old(self)@, now) == (Reacted {
                turn: final(self)@,
                action: a,
                effects: effects_view(final(effects)@),
            }),
    {
        let ghost t = self@;
        assert(effects_view(effects@) =~= no_effects());
        self.heard_user = true;
        if self.is_responding && !self.dropping_stale {
            emit(effects, Effect::ClearPlayback);
            self.cut();
            emit(effects, Effect::State(at_rest_exec(self.is_talking)));
            assert(effects_view(effects@) =~= seq![
                EffectV::ClearPlayback,
                EffectV::State(at_rest(t.is_talking)),
            ]);
            return ServerAction::CancelResponse;
        }
        if !self.is_responding && self.dropping_stale {
            self.dropping_stale = false;
            self.dones_left = 0;
            self.overlap_until = Some(now + OVERLAP_ERROR_HOLD_MS);
            emit(effects, Effect::State(ChatState::Listening));
            assert(effects_view(effects@) =~= seq![EffectV::State(ChatStateV::Listening)]);
            return ServerAction::CancelResponse;
        }
        if !self.is_responding {
            emit(effects, Effect::State(ChatState::Listening));
            assert(effects_view(effects@) =~= seq![EffectV::State(ChatStateV::Listening)]);
        }
        ServerAction::Nothing
    }

    fn stopped_tail(&mut self, effects: &mut Vec<Effect>) -> (a: ServerAction)
        ensures
            spec_stopped_tail(old(self)@, effects_view(old(effects)@)) == (Reacted {
                turn: final(self)@,
                action: a,
                effects: effects_view(final(effects)@),
            }),
    {
        if self.is_talking && !self.is_responding {
            emit(effects, Effect::ReserveUserBubble);
            if self.dropping_stale {
                self.pending_commit = true;
                ServerAction::Nothing
            } else {
                ServerAction::CommitTurn
            }
        } else {
            ServerAction::Nothing
        }
    }

    fn on_audio_delta(&mut self, delta: &str, effects: &mut Vec<Effect>) -> (a: ServerAction)
        requires
            old(effects)@.len() == 0,
        ensures
            spec_audio_delta(old(self)@, delta@) == (Reacted {
                turn: final(self)@,
                action: a,
                effects: effects_view(final(effects)@),
            }),
    {
        assert(effects_view(effects@) =~= no_effects());
        if self.dropping_stale {
            return ServerAction::Nothing;
        }
        if !self.is_responding {
            self.note_turn_started(effects);
            assert(effects_view(effects@) =~= seq![EffectV::State(ChatStateV::Thinking)]);
        }
        if let Ok(bytes) = base64_decode(delta) {
            proof {
                crate::encoding::lemma_decoded_encoded(bytes@, delta@);
            }
            emit(effects, Effect::PlayAudio(bytes));
        }
        emit(effects, Effect::State(ChatState::Speaking));
        ServerAction::Nothing
    }

    fn on_transcript_delta(&mut self, delta: &str, subtitle_open: bool, effects: &mut Vec<Effect>) -> (a: ServerAction)
        requires
            old(effects)@.len() == 0,
        ensures
            spec_transcript_delta(old(self)@, delta@, subtitle_open) == (Reacted {
                turn: final(self)@,
                action: a,
                effects: effects_view(final(effects)@),
            }),
    {
        assert(effects_view(effects@) =~= no_effects());
        if self.dropping_stale {
            return ServerAction::Nothing;
        }
        if !self.is_responding {
            self.note_turn_started(effects);
            assert(effects_view(effects@) =~= seq![EffectV::State(ChatStateV::Thinking)]);
        }
        if subtitle_open && self.assistant_text.unicode_len() == 0 {
            emit(effects, Effect::BeginSubtitleLine);
        }
        let text = crate::text::concat(self.assistant_text.as_str(), delta);
        self.assistant_text = copy_str(text.as_str());
        emit(effects, Effect::AssistantText { text: copy_str(text.as_str()), done: false });
        if subtitle_open {
            emit(effects, Effect::SubtitleLine { text, done: false });
        }
        ServerAction::Nothing
    }

    fn on_transcript_done(
        &mut self,
        transcript: Option<String>,
        ctx: &EventContext,
        effects: &mut Vec<Effect>,
    ) -> (a: ServerAction)
        requires
            old(effects)@.len() == 0,
        ensures
            spec_transcript_done(
                old(self)@,
                opt_seq(transcript),
                ctx.subtitle_open,
                ctx.has_conversation,
            ) == (Reacted {
                turn: final(self)@,
                action: a,
                effects: effects_view(final(effects)@),
            }),
    {
        assert(effects_view(effects@) =~= no_effects());
        if self.dropping_stale {
            return ServerAction::Nothing;
        }
        let text = match transcript {
            Some(x) => x,
            None => copy_str(self.assistant_text.as_str()),
        };
        emit(effects, Effect::AssistantText { text: copy_str(text.as_str()), done: true });
        assert(effects_view(effects@) =~= seq![EffectV::AssistantText { text: text@, done: true }]);
        if ctx.subtitle_open {
            emit(effects, Effect::SubtitleLine { text: copy_str(text.as_str()), done: true });
        }
        self.assistant_text = String::new();
        if ctx.has_conversation {
            emit(effects, Effect::Persist { role: "assistant", text });
        }
        ServerAction::Nothing
    }

    fn on_response_done(&mut self, effects: &mut Vec<Effect>) -> (a: ServerAction)
        requires
            old(effects)@.len() == 0,
        ensures
            spec_response_done(old(self)@) == (Reacted {
                turn: final(self)@,
                action: a,
                effects: effects_view(final(effects)@),
            }),
    {
        assert(effects_view(effects@) =~= no_effects());
        emit(effects, Effect::FinishSubtitleLine);
        assert(effects_view(effects@) =~= seq![EffectV::FinishSubtitleLine]);
        if self.dropping_stale {
            if self.dones_left > 1 {
                self.dones_left = self.dones_left - 1;
                return ServerAction::Nothing;
            }
            self.dones_left = 0;
            self.dropping_stale = false;
            if self.pending_commit {
                self.pending_commit = false;
                if self.is_talking {
                    return ServerAction::CommitTurn;
                }
            }
            return ServerAction::Nothing;
        }
        self.is_responding = false;
        emit(effects, Effect::State(at_rest_exec(self.is_talking)));
        ServerAction::Nothing
    }

    fn on_error(&mut self, error: &ErrorPayload, ctx: &EventContext, effects: &mut Vec<Effect>) -> (a: ServerAction)
        requires
            old(effects)@.len() == 0,
        ensures
            spec_error_event(
                old(self)@,
                opt_seq(error.code),
                opt_seq(error.message),
                ctx.now_ms,
                ctx.lang,
            ) == (Reacted {
                turn: final(self)@,
                action: a,
                effects: effects_view(final(effects)@),
            }),
    {
        assert(effects_view(effects@) =~= no_effects());
        let text = error_text(error, ctx.lang);
        if let Some(until) = self.opener_grace {
            if ctx.now_ms < until {
                return ServerAction::Nothing;
            }
        }
        if let Some(until) = self.overlap_until {
            if ctx.now_ms < until && is_overlap_error(text.as_str()) {
                return ServerAction::Nothing;
            }
        }
        emit(effects, Effect::State(ChatState::Error(text)));
        assert(effects_view(effects@) =~= seq![EffectV::State(ChatStateV::Error(text@))]);
        ServerAction::Nothing
    }

    /// Moves the turn along for one event from the server, as `spec_react`
    /// describes, and says what to send back and what the app has to do.
    pub fn handle_server_event(&mut self, event: ServerEvent, ctx: &EventContext) -> (r: Reaction)
        requires
            ctx.now_ms <= u64::MAX - OPENER_GRACE_MS,
        ensures
            spec_react(old(self)@, event@, *ctx) == (Reacted {
                turn: final(self)@,
                action: r.action,
                effects: effects_view(r.effects@),
            }),
    {
        let mut effects: Vec<Effect> = Vec::new();
        let action = match event {
            ServerEvent::SpeechStarted => self.on_speech_started(ctx.now_ms, &mut effects),
            ServerEvent::SpeechStopped => {
                assert(effects_view(effects@) =~= no_effects());
                self.stopped_tail(&mut effects)
            },
            ServerEvent::ResponseAudioDelta { delta } => self.on_audio_delta(delta.as_str(), &mut effects),
            ServerEvent::ResponseAudioTranscriptDelta { delta } => self.on_transcript_delta(
                delta.as_str(),
                ctx.subtitle_open,
                &mut effects,
            ),
            ServerEvent::ResponseAudioTranscriptDone { transcript } => self.on_transcript_done(
                transcript,
                ctx,
                &mut effects,
            ),
            ServerEvent::InputAudioTranscriptionCompleted { transcript } => {
                emit(&mut effects, Effect::UserText { text: copy_str(transcript.as_str()) });
                assert(effects_view(effects@) =~= seq![EffectV::UserText { text: transcript@ }]);
                if ctx.has_conversation {
                    emit(&mut effects, Effect::Persist { role: "user", text: transcript });
                }
                ServerAction::Nothing
            },
            ServerEvent::ResponseDone => self.on_response_done(&mut effects),
            ServerEvent::Error { error } => self.on_error(&error, ctx, &mut effects),
            ServerEvent::SessionCreated => {
                assert(effects_view(effects@) =~= no_effects());
                ServerAction::Nothing
            },
            ServerEvent::Unknown => {
                assert(effects_view(effects@) =~= no_effects());
                ServerAction::Nothing
            },
        };
        Reaction { action, effects }
    }
}

// ---------------------------------------------------------------------
// Commands.

/// Why a connection ended.
#[derive(Debug)]
pub enum Disconnect {
    /// The user was idle for too long; no automatic reconnect.
    Idle,
    /// The session is shutting down entirely.
    Shutdown,
    /// An unexpected error or close; reconnect with backoff.
    Error(String),
    /// The user switched characters; reconnect at once with the new one.
    SwitchCharacter,
    /// The context limit was reached; reconnect at once with the same
    /// character, the summary just written carrying the conversation.
    Rolling,
    /// The user asked for a fresh conversation with the same character.
    NewConversation,
}

pub ghost enum DisconnectV {
    Idle,
    Shutdown,
    Error(Seq<char>),
    SwitchCharacter,
    Rolling,
    NewConversation,
}

impl Disconnect {
    pub open spec fn view(self) -> DisconnectV {
        match self {
            Disconnect::Idle => DisconnectV::Idle,
            Disconnect::Shutdown => DisconnectV::Shutdown,
            Disconnect::Error(e) => DisconnectV::Error(e@),
            Disconnect::SwitchCharacter => DisconnectV::SwitchCharacter,
            Disconnect::Rolling => DisconnectV::Rolling,
            Disconnect::NewConversation => DisconnectV::NewConversation,
        }
    }
}

/// A command's outcome: send `action` first, carry out `effects` in order,
/// then close the connection if `disconnect` says so.
pub struct CommandReaction {
    pub action: ServerAction,
    pub effects: Vec<Effect>,
    pub disconnect: Option<Disconnect>,
}

pub ghost struct CommandReacted {
    pub turn: TurnV,
    pub action: ServerAction,
    pub effects: Seq<EffectV>,
    pub disconnect: Option<DisconnectV>,
}

/// The reply in flight cut off: its audio dropped, the server told to
/// stop, and its remaining deltas gated out until its `response.done`.
pub open spec fn cut_reply(t: TurnV) -> TurnV {
    TurnV {
        is_responding: false,
        dropping_stale: true,
        dones_left: 1,
        assistant_text: Seq::<char>::empty(),
        ..t
    }
}

/// Opening or closing the mic, one place for every command that does it.
/// Opening it over a reply takes the floor: the reply is cut. Closing it
/// drops a commit still waiting — there is no live utterance left to
/// submit. Asking for the state it is already in does nothing.
pub open spec fn spec_set_mic(t: TurnV, open: bool) -> Reacted {
    if open == t.is_talking {
        Reacted { turn: t, action: ServerAction::Nothing, effects: no_effects() }
    } else if open {
        if t.is_responding {
            Reacted {
                turn: TurnV { is_talking: true, ..cut_reply(t) },
                action: ServerAction::CancelResponse,
                effects: seq![
                    EffectV::ClearPlayback,
                    EffectV::Capture(true),
                    EffectV::State(ChatStateV::Listening),
                    EffectV::Mic(true),
                ],
            }
        } else {
            Reacted {
                turn: TurnV { is_talking: true, ..t },
                action: ServerAction::Nothing,
                effects: seq![
                    EffectV::Capture(true),
                    EffectV::State(ChatStateV::Listening),
                    EffectV::Mic(true),
                ],
            }
        }
    } else {
        Reacted {
            turn: TurnV { is_talking: false, pending_commit: false, ..t },
            action: ServerAction::Nothing,
            effects: seq![EffectV::Capture(false), EffectV::Mic(false)],
        }
    }
}

/// An explicit interrupt cuts the reply at once.
pub open spec fn spec_interrupt(t: TurnV) -> Reacted {
    if t.is_responding {
        Reacted {
            turn: cut_reply(t),
            action: ServerAction::CancelResponse,
            effects: seq![EffectV::ClearPlayback],
        }
    } else {
        Reacted { turn: t, action: ServerAction::Nothing, effects: no_effects() }
    }
}

pub ghost enum CommandV {
    StartTalking,
    StopTalking,
    ToggleTalking,
    Interrupt,
    SwitchCharacter(Seq<char>),
    SetRecording(bool),
    NewConversation,
    Shutdown,
}

impl SessionCommand {
    pub open spec fn view(self) -> CommandV {
        match self {
            SessionCommand::StartTalking => CommandV::StartTalking,
            SessionCommand::StopTalking => CommandV::StopTalking,
            SessionCommand::ToggleTalking => CommandV::ToggleTalking,
            SessionCommand::Interrupt => CommandV::Interrupt,
            SessionCommand::SwitchCharacter(id) => CommandV::SwitchCharacter(id@),
            SessionCommand::SetRecording(on) => CommandV::SetRecording(on),
            SessionCommand::NewConversation => CommandV::NewConversation,
            SessionCommand::Shutdown => CommandV::Shutdown,
        }
    }
}

pub open spec fn staying(r: Reacted) -> CommandReacted {
    CommandReacted { turn: r.turn, action: r.action, effects: r.effects, disconnect: None }
}

/// How a connected session answers a command.
pub open spec fn spec_command(t: TurnV, c: CommandV) -> CommandReacted {
    match c {
        CommandV::StartTalking => staying(spec_set_mic(t, true)),
        CommandV::StopTalking => staying(spec_set_mic(t, false)),
        CommandV::ToggleTalking => staying(spec_set_mic(t, !t.is_talking)),
        CommandV::Interrupt => staying(spec_interrupt(t)),
        CommandV::SwitchCharacter(id) => CommandReacted {
            turn: t,
            action: ServerAction::Nothing,
            effects: seq![
                EffectV::Capture(false),
                EffectV::ClearPlayback,
                EffectV::Mic(false),
                EffectV::CurrentCharacter(id),
            ],
            disconnect: Some(DisconnectV::SwitchCharacter),
        },
        // A stray command must never switch memory on for a character that
        // opted out of it.
        CommandV::SetRecording(on) => if t.memory_enabled {
            CommandReacted {
                turn: TurnV { recording: on, ..t },
                action: ServerAction::Nothing,
                effects: seq![EffectV::Recording(Some(on))],
                disconnect: None,
            }
        } else {
            CommandReacted {
                turn: t,
                action: ServerAction::Nothing,
                effects: no_effects(),
                disconnect: None,
            }
        },
        CommandV::NewConversation => CommandReacted {
            turn: t,
            action: ServerAction::Nothing,
            effects: seq![EffectV::ClearPlayback],
            disconnect: Some(DisconnectV::NewConversation),
        },
        CommandV::Shutdown => CommandReacted {
            turn: t,
            action: ServerAction::Nothing,
            effects: seq![EffectV::Capture(false)],
            disconnect: Some(DisconnectV::Shutdown),
        },
    }
}

impl Turn {
    fn cut(&mut self)
        ensures
            final(self)@ == cut_reply(old(self)@),
    {
        self.is_responding = false;
        self.dropping_stale = true;
        self.dones_left = 1;
        self.assistant_text = String::new();
    }

    /// Opens or closes the mic, as `spec_set_mic` describes.
    pub fn set_mic_open(&mut self, open: bool) -> (r: Reaction)
        ensures
            spec_set_mic(old(self)@, open) == (Reacted {
                turn: final(self)@,
                action: r.action,
                effects: effects_view(r.effects@),
            }),
    {
        let mut effects: Vec<Effect> = Vec::new();
        assert(effects_view(effects@) =~= no_effects());
        if open == self.is_talking {
            return Reaction { action: ServerAction::Nothing, effects };
        }
        let mut action = ServerAction::Nothing;
        if open {
            if self.is_responding {
                emit(&mut effects, Effect::ClearPlayback);
                action = ServerAction::CancelResponse;
                self.cut();
            }
            self.is_talking = true;
            emit(&mut effects, Effect::Capture(true));
            emit(&mut effects, Effect::State(ChatState::Listening));
        } else {
            self.is_talking = false;
            self.pending_commit = false;
            emit(&mut effects, Effect::Capture(false));
        }
        emit(&mut effects, Effect::Mic(open));
        proof {
            if open {
                if old(self).is_responding {
                    assert(effects_view(effects@) =~= seq![
                        EffectV::ClearPlayback,
                        EffectV::Capture(true),
                        EffectV::State(ChatStateV::Listening),
                        EffectV::Mic(true),
                    ]);
                } else {
                    assert(effects_view(effects@) =~= seq![
                        EffectV::Capture(true),
                        EffectV::State(ChatStateV::Listening),
                        EffectV::Mic(true),
                    ]);
                }
            } else {
                assert(effects_view(effects@) =~= seq![EffectV::Capture(false), EffectV::Mic(false)]);
            }
        }
        Reaction { action, effects }
    }

    fn talk(&mut self, open: bool) -> (r: Reaction)
        ensures
            spec_set_mic(old(self)@, open) == (Reacted {
                turn: final(self)@,
                action: r.action,
                effects: effects_view(r.effects@),
            }),
    {
        self.set_mic_open(open)
    }

    fn interrupt(&mut self) -> (r: Reaction)
        ensures
            spec_interrupt(old(self)@) == (Reacted {
                turn: final(self)@,
                action: r.action,
                effects: effects_view(r.effects@),
            }),
    {
        let mut effects: Vec<Effect> = Vec::new();
        if self.is_responding {
            emit(&mut effects, Effect::ClearPlayback);
            assert(effects_view(effects@) =~= seq![EffectV::ClearPlayback]);
            self.cut();
            return Reaction { action: ServerAction::CancelResponse, effects };
        }
        assert(effects_view(effects@) =~= no_effects());
        Reaction { action: ServerAction::Nothing, effects }
    }

    fn leave(effects: Vec<Effect>, d: Disconnect) -> (r: CommandReaction)
        ensures
            r.action == ServerAction::Nothing,
            r.effects == effects,
            r.disconnect == Some(d),
    {
        CommandReaction { action: ServerAction::Nothing, effects, disconnect: Some(d) }
    }

    fn switch_effects(id: String) -> (r: Vec<Effect>)
        ensures
            effects_view(r@) == seq![
                EffectV::Capture(false),
                EffectV::ClearPlayback,
                EffectV::Mic(false),
                EffectV::CurrentCharacter(id@),
            ],
    {
        let ghost idv = id@;
        let mut effects: Vec<Effect> = Vec::new();
        emit(&mut effects, Effect::Capture(false));
        emit(&mut effects, Effect::ClearPlayback);
        emit(&mut effects, Effect::Mic(false));
        emit(&mut effects, Effect::CurrentCharacter(id));
        assert(effects_view(effects@) =~= seq![
            EffectV::Capture(false),
            EffectV::ClearPlayback,
            EffectV::Mic(false),
            EffectV::CurrentCharacter(idv),
        ]);
        effects
    }

    fn one_effect(e: Effect) -> (r: Vec<Effect>)
        ensures
            effects_view(r@) == seq![e@],
    {
        let mut effects: Vec<Effect> = Vec::new();
        let ghost ev = e@;
        emit(&mut effects, e);
        assert(effects_view(effects@) =~= seq![ev]);
        effects
    }

    /// Answers a command while connected, as `spec_command` describes.
    pub fn handle_command(&mut self, command: SessionCommand) -> (r: CommandReaction)
        ensures
            spec_command(old(self)@, command@) == (CommandReacted {
                turn: final(self)@,
                action: r.action,
                effects: effects_view(r.effects@),
                disconnect: match r.disconnect {
                    Some(d) => Some(d@),
                    None => None,
                },
            }),
    {
        match command {
            SessionCommand::StartTalking => {
                let r = self.talk(true);
                CommandReaction { action: r.action, effects: r.effects, disconnect: None }
            },
            SessionCommand::StopTalking => {
                let r = self.talk(false);
                CommandReaction { action: r.action, effects: r.effects, disconnect: None }
            },
            SessionCommand::ToggleTalking => {
                let open = !self.is_talking;
                let r = self.talk(open);
                CommandReaction { action: r.action, effects: r.effects, disconnect: None }
            },
            SessionCommand::Interrupt => {
                let r = self.interrupt();
                CommandReaction { action: r.action, effects: r.effects, disconnect: None }
            },
            SessionCommand::SwitchCharacter(id) => {
                Self::leave(Self::switch_effects(id), Disconnect::SwitchCharacter)
            },
            SessionCommand::SetRecording(on) => {
                if self.memory_enabled {
                    self.recording = on;
                    return CommandReaction {
                        action: ServerAction::Nothing,
                        effects: Self::one_effect(Effect::Recording(Some(on))),
                        disconnect: None,
                    };
                }
                let effects: Vec<Effect> = Vec::new();
                assert(effects_view(effects@) =~= no_effects());
                CommandReaction { action: ServerAction::Nothing, effects, disconnect: None }
            },
            SessionCommand::NewConversation => {
                Self::leave(Self::one_effect(Effect::ClearPlayback), Disconnect::NewConversation)
            },
            SessionCommand::Shutdown => {
                Self::leave(Self::one_effect(Effect::Capture(false)), Disconnect::Shutdown)
            },
        }
    }
}

// ---------------------------------------------------------------------
// Timers and bookkeeping around the events.

/// Whether, on a fresh sitting with an unfinished thread, it is time to
/// ask the model for its one opening sentence: the mic open, nobody heard
/// yet, nothing in flight.
pub open spec fn spec_wants_opener(t: TurnV, announce: bool) -> bool {
    announce && t.is_talking && !t.heard_user && !t.is_responding && !t.dropping_stale
}

/// Whether one turn has been said and answered, which is enough to name
/// the conversation after — once per connection, and only for a
/// conversation being written to.
pub open spec fn spec_should_name(t: TurnV, naming_started: bool, has_conversation: bool) -> bool {
    !naming_started && !t.is_responding && t.turn_count >= 1 && has_conversation
}

/// Whether to roll the session: the context limit is reached and the reply
/// in flight, if any, has ended.
pub open spec fn spec_should_roll(t: TurnV) -> bool {
    t.pending_roll && !t.is_responding
}

impl Turn {
    pub fn wants_opener(&self, announce: bool) -> (r: bool)
        ensures
            r == spec_wants_opener(self@, announce),
    {
        announce && self.is_talking && !self.heard_user && !self.is_responding
            && !self.dropping_stale
    }

    /// The opener was asked for at `now`: errors in the next three seconds
    /// are its own teething, not the call failing.
    pub fn opener_sent(&mut self, now: u64)
        requires
            now <= u64::MAX - OPENER_GRACE_MS,
        ensures
            final(self)@ == (TurnV { opener_grace: Some((now + OPENER_GRACE_MS) as u64), ..old(self)@ }),
    {
        self.opener_grace = Some(now + OPENER_GRACE_MS);
    }

    /// One more frame of audio went to the server.
    pub fn frame_sent(&mut self)
        ensures
            final(self)@ == (TurnV {
                captured_ms: if old(self).captured_ms <= u64::MAX - FRAME_MS {
                    (old(self).captured_ms + FRAME_MS) as u64
                } else {
                    u64::MAX
                },
                ..old(self)@
            }),
    {
        self.captured_ms = self.captured_ms.saturating_add(FRAME_MS);
    }

    pub fn should_name(&self, naming_started: bool, has_conversation: bool) -> (r: bool)
        ensures
            r == spec_should_name(self@, naming_started, has_conversation),
    {
        !naming_started && !self.is_responding && self.turn_count >= 1 && has_conversation
    }

    pub fn should_roll(&self) -> (r: bool)
        ensures
            r == spec_should_roll(self@),
    {
        self.pending_roll && !self.is_responding
    }
}

// ---------------------------------------------------------------------
// Between connections.

/// What a session with no connection does with a command: start one —
/// with the mic open, or for a newly chosen character with it closed —
/// stop for good, or ignore it.
#[derive(Debug)]
pub enum IdleDecision {
    Connect { talking: bool, current_character: Option<String> },
    Stop,
    Ignore,
}

pub ghost enum IdleDecisionV {
    Connect { talking: bool, current_character: Option<Seq<char>> },
    Stop,
    Ignore,
}

impl IdleDecision {
    pub open spec fn view(self) -> IdleDecisionV {
        match self {
            IdleDecision::Connect { talking, current_character } => IdleDecisionV::Connect {
                talking,
                current_character: opt_seq(current_character),
            },
            IdleDecision::Stop => IdleDecisionV::Stop,
            IdleDecision::Ignore => IdleDecisionV::Ignore,
        }
    }
}

/// The mic is closed before any connection exists, so toggling it can
/// only mean opening it.
pub open spec fn spec_idle_command(c: CommandV) -> IdleDecisionV {
    match c {
        CommandV::Shutdown => IdleDecisionV::Stop,
        CommandV::StartTalking | CommandV::ToggleTalking => IdleDecisionV::Connect {
            talking: true,
            current_character: None,
        },
        CommandV::SwitchCharacter(id) => IdleDecisionV::Connect {
            talking: false,
            current_character: Some(id),
        },
        _ => IdleDecisionV::Ignore,
    }
}

pub fn idle_command(command: SessionCommand) -> (r: IdleDecision)
    ensures
        r@ == spec_idle_command(command@),
{
    match command {
        SessionCommand::Shutdown => IdleDecision::Stop,
        SessionCommand::StartTalking | SessionCommand::ToggleTalking => IdleDecision::Connect {
            talking: true,
            current_character: None,
        },
        SessionCommand::SwitchCharacter(id) => IdleDecision::Connect {
            talking: false,
            current_character: Some(id),
        },
        _ => IdleDecision::Ignore,
    }
}

/// The wait before retrying a connection after `delay_ms`: doubled, up to
/// thirty seconds.
pub open spec fn spec_next_delay(delay_ms: u64) -> u64 {
    if delay_ms >= RECONNECT_MAX_MS / 2 {
        RECONNECT_MAX_MS
    } else {
        (delay_ms * 2) as u64
    }
}

pub fn next_reconnect_delay(delay_ms: u64) -> (r: u64)
    ensures
        r == spec_next_delay(delay_ms),
        r <= RECONNECT_MAX_MS,
        delay_ms <= RECONNECT_MAX_MS / 2 ==> r == 2 * delay_ms,
{
    if delay_ms >= RECONNECT_MAX_MS / 2 {
        RECONNECT_MAX_MS
    } else {
        delay_ms * 2
    }
}

/// What becomes of the conversation a connection was writing to.
#[derive(Debug, Clone, Copy, PartialEq, Eq, Structural)]
pub enum ConversationFate {
    /// A reconnect the user never asked for — a dropped socket, or the
    /// context rolling — is the same sitting: the row stays open and the
    /// next connection carries on with it. On a roll the conversation so
    /// far is summarized first, when it counts toward memory: that summary
    /// is what the next connection's instructions carry.
    Carry { summarize: bool },
    /// Switching characters reconnects at once; the conversation is named,
    /// closed and summarized without the new sitting waiting for it.
    FinishInBackground,
    /// Named, closed, and summarized when it counts toward memory.
    Finish,
}

/// How the session goes on after a connection ends.
#[derive(Debug, Clone, Copy, PartialEq, Eq, Structural)]
pub enum Next {
    /// Shut down.
    Stop,
    /// Idle timeout: show idle and wait for the user.
    WaitForUser,
    /// An error: show it, wait `delay_ms`, then reconnect.
    RetryAfter { delay_ms: u64 },
    /// Reconnect at once.
    Reconnect,
}

/// Everything decided when a connection ends.
#[derive(Debug, Clone, Copy, PartialEq, Eq, Structural)]
pub struct AfterDisconnect {
    pub fate: ConversationFate,
    pub next: Next,
    /// Whether the next connection opens with the mic open: as it was, for
    /// reconnects the user never asked for and for a new conversation; shut
    /// for a character switch, which closes it explicitly.
    pub talking: bool,
    /// The wait before the retry after that.
    pub delay_ms: u64,
}

pub open spec fn spec_after_disconnect(reason: DisconnectV, recording: bool, is_talking: bool, delay_ms: u64) -> AfterDisconnect {
    match reason {
        DisconnectV::Error(_) => AfterDisconnect {
            fate: ConversationFate::Carry { summarize: false },
            next: Next::RetryAfter { delay_ms },
            talking: is_talking,
            delay_ms: spec_next_delay(delay_ms),
        },
        DisconnectV::Rolling => AfterDisconnect {
            fate: ConversationFate::Carry { summarize: recording },
            next: Next::Reconnect,
            talking: is_talking,
            delay_ms,
        },
        DisconnectV::SwitchCharacter => AfterDisconnect {
            fate: ConversationFate::FinishInBackground,
            next: Next::Reconnect,
            talking: false,
            delay_ms,
        },
        DisconnectV::NewConversation => AfterDisconnect {
            fate: ConversationFate::Finish,
            next: Next::Reconnect,
            talking: is_talking,
            delay_ms,
        },
        DisconnectV::Idle => AfterDisconnect {
            fate: ConversationFate::Finish,
            next: Next::WaitForUser,
            talking: false,
            delay_ms,
        },
        DisconnectV::Shutdown => AfterDisconnect {
            fate: ConversationFate::Finish,
            next: Next::Stop,
            talking: false,
            delay_ms,
        },
    }
}

/// Decides what a connection's end means, given whether its conversation
/// counts toward memory, whether the mic was open, and the retry delay in
/// force.
pub fn after_disconnect(reason: &Disconnect, recording: bool, is_talking: bool, delay_ms: u64) -> (r: AfterDisconnect)
    ensures
        r == spec_after_disconnect(reason@, recording, is_talking, delay_ms),
{
    match reason {
        Disconnect::Error(_) => AfterDisconnect {
            fate: ConversationFate::Carry { summarize: false },
            next: Next::RetryAfter { delay_ms },
            talking: is_talking,
            delay_ms: next_reconnect_delay(delay_ms),
        },
        Disconnect::Rolling => AfterDisconnect {
            fate: ConversationFate::Carry { summarize: recording },
            next: Next::Reconnect,
            talking: is_talking,
            delay_ms,
        },
        Disconnect::SwitchCharacter => AfterDisconnect {
            fate: ConversationFate::FinishInBackground,
            next: Next::Reconnect,
            talking: false,
            delay_ms,
        },
        Disconnect::NewConversation => AfterDisconnect {
            fate: ConversationFate::Finish,
            next: Next::Reconnect,
            talking: is_talking,
            delay_ms,
        },
        Disconnect::Idle => AfterDisconnect {
            fate: ConversationFate::Finish,
            next: Next::WaitForUser,
            talking: false,
            delay_ms,
        },
        Disconnect::Shutdown => AfterDisconnect {
            fate: ConversationFate::Finish,
            next: Next::Stop,
            talking: false,
            delay_ms,
        },
    }
}

/// A conversation row held open across a reconnect the user never asked
/// for, with the character it belongs to and the memory choice it was
/// left with.
#[derive(Debug)]
pub struct CarriedConversation {
    pub id: String,
    pub character_id: String,
    pub character_name: String,
    pub recording: bool,
}

/// How a new connection picks up: the conversation row it writes to, and
/// whether that conversation goes into memory.
#[derive(Debug)]
pub enum Pickup {
    /// Carry on with the carried row.
    Continue { id: String, recording: bool },
    /// Open a new row. `finish` is a carried conversation that belonged to
    /// another character — the current one changed while reconnecting — to
    /// be closed out rather than left open forever.
    Fresh { recording: bool, finish: Option<CarriedConversation> },
}

pub open spec fn spec_pickup_recording(carried: Option<CarriedConversation>, character_id: Seq<char>, memory_enabled: bool) -> bool {
    match carried {
        Some(c) => if c.character_id@ == character_id {
            memory_enabled && c.recording
        } else {
            memory_enabled
        },
        None => memory_enabled,
    }
}

/// The character's memory switch keeps the last word — memory switched off
/// meanwhile takes a resumed conversation out of memory too — and within
/// it a resumed conversation keeps the choice it was left with: an opt-out
/// that lasted only until the next dropped socket was never an opt-out.
pub fn pick_up(carried: Option<CarriedConversation>, character_id: &str, memory_enabled: bool) -> (r: Pickup)
    ensures
        match r {
            Pickup::Continue { id, recording } => carried matches Some(c) && c.character_id@
                == character_id@ && id == c.id && recording == (memory_enabled && c.recording),
            Pickup::Fresh { recording, finish } => recording == memory_enabled && match carried {
                Some(c) => c.character_id@ != character_id@ && finish == Some(c),
                None => finish is None,
            },
        },
        match r {
            Pickup::Continue { recording, .. } => recording == spec_pickup_recording(carried, character_id@, memory_enabled),
            Pickup::Fresh { recording, .. } => recording == spec_pickup_recording(carried, character_id@, memory_enabled),
        },
{
    match carried {
        Some(c) => {
            if str_eq_exec(c.character_id.as_str(), character_id) {
                let recording = memory_enabled && c.recording;
                Pickup::Continue { id: c.id, recording }
            } else {
                Pickup::Fresh { recording: memory_enabled, finish: Some(c) }
            }
        },
        None => Pickup::Fresh { recording: memory_enabled, finish: None },
    }
}

// ---------------------------------------------------------------------
// The actor between connections.

/// Where the session actor stands between connections: the wait before the
/// next retry, whether the next connection is made without the user asking
/// for it, and whether it opens with the mic open.
#[derive(Debug, Clone, Copy, PartialEq, Eq, Structural)]
pub struct Backoff {
    pub delay_ms: u64,
    pub auto: bool,
    pub talking: bool,
}

pub open spec fn spec_backoff_new() -> Backoff {
    Backoff { delay_ms: RECONNECT_MIN_MS, auto: false, talking: false }
}

/// A connection is being made, with the mic open or shut.
pub open spec fn spec_starting(b: Backoff, talking: bool) -> Backoff {
    Backoff { auto: false, talking, ..b }
}

/// A connection attempt failed: wait the delay in force, then try again on
/// its own, each failure in a row waiting twice as long, up to the ceiling.
pub open spec fn spec_connect_failed(b: Backoff) -> (Backoff, u64) {
    (Backoff { delay_ms: spec_next_delay(b.delay_ms), auto: true, ..b }, b.delay_ms)
}

/// A connection was made: the next failure waits the shortest delay again.
pub open spec fn spec_connected(b: Backoff) -> Backoff {
    Backoff { delay_ms: RECONNECT_MIN_MS, ..b }
}

/// A connection ended, as `spec_after_disconnect` decides: the next
/// connection is made on its own for a retry or an immediate reconnect,
/// and waits for the user after an idle timeout.
pub open spec fn spec_disconnected(b: Backoff, reason: DisconnectV, recording: bool, is_talking: bool) -> (Backoff, AfterDisconnect) {
    let a = spec_after_disconnect(reason, recording, is_talking, b.delay_ms);
    (
        Backoff {
            delay_ms: a.delay_ms,
            auto: match a.next {
                Next::RetryAfter { .. } | Next::Reconnect => true,
                _ => false,
            },
            talking: a.talking,
        },
        a,
    )
}

impl Backoff {
    pub fn new() -> (r: Backoff)
        ensures
            r == spec_backoff_new(),
    {
        Backoff { delay_ms: RECONNECT_MIN_MS, auto: false, talking: false }
    }

    pub fn starting(self, talking: bool) -> (r: Backoff)
        ensures
            r == spec_starting(self, talking),
    {
        Backoff { auto: false, talking, ..self }
    }

    /// The next state, and how long to wait before trying again.
    pub fn connect_failed(self) -> (r: (Backoff, u64))
        ensures
            r == spec_connect_failed(self),
    {
        (Backoff { delay_ms: next_reconnect_delay(self.delay_ms), auto: true, ..self }, self.delay_ms)
    }

    pub fn connected(self) -> (r: Backoff)
        ensures
            r == spec_connected(self),
    {
        Backoff { delay_ms: RECONNECT_MIN_MS, ..self }
    }

    pub fn disconnected(self, reason: &Disconnect, recording: bool, is_talking: bool) -> (r: (Backoff, AfterDisconnect))
        ensures
            r == spec_disconnected(self, reason@, recording, is_talking),
    {
        let a = after_disconnect(reason, recording, is_talking, self.delay_ms);
        let auto = match a.next {
            Next::RetryAfter { .. } | Next::Reconnect => true,
            _ => false,
        };
        (Backoff { delay_ms: a.delay_ms, auto, talking: a.talking }, a)
    }
}

/// What a failed connection attempt leaves to carry into the next one: the
/// conversation it would have continued, or one belonging to a character
/// no longer current, still to be closed out.
pub fn carried_on_failure(pickup: Pickup, character_id: String, character_name: String) -> (r: Option<CarriedConversation>)
    ensures
        match pickup {
            Pickup::Continue { id, recording } => r == Some(
                CarriedConversation { id, character_id, character_name, recording },
            ),
            Pickup::Fresh { finish, .. } => r == finish,
        },
{
    match pickup {
        Pickup::Continue { id, recording } => Some(
            CarriedConversation { id, character_id, character_name, recording },
        ),
        Pickup::Fresh { finish, .. } => finish,
    }
}

/// Reconnecting after failures: every failure in a row waits twice the one
/// before, never more than the ceiling; once a connection is made, the next
/// failure waits the shortest delay again; and a shutdown, whether asked
/// for between connections or ending one, stops the actor.
pub proof fn law_backoff_resets_after_connect(b: Backoff, is_talking: bool, recording: bool)
    requires
        b.delay_ms <= RECONNECT_MAX_MS,
    ensures
        spec_connect_failed(b).1 == b.delay_ms,
        spec_connect_failed(b).0.delay_ms == if b.delay_ms >= RECONNECT_MAX_MS / 2 {
            RECONNECT_MAX_MS as int
        } else {
            2 * b.delay_ms
        },
        spec_connect_failed(b).0.delay_ms <= RECONNECT_MAX_MS,
        spec_connect_failed(b).0.auto,
        spec_connect_failed(spec_connected(b)).1 == RECONNECT_MIN_MS,
        spec_disconnected(
            spec_connected(b),
            DisconnectV::Error(Seq::empty()),
            recording,
            is_talking,
        ).1.next == (Next::RetryAfter { delay_ms: RECONNECT_MIN_MS }),
        spec_idle_command(CommandV::Shutdown) == IdleDecisionV::Stop,
        spec_disconnected(b, DisconnectV::Shutdown, recording, is_talking).1.next == Next::Stop,
{
}

fn str_eq_exec(a: &str, b: &str) -> (r: bool)
    ensures
        r == (a@ == b@),
{
    crate::text::str_eq(a, b)
}

/// What the Chat tab is told of the memory choice: none when the character
/// has memory off and there is no choice to make.
pub fn recording_shown(memory_enabled: bool, recording: bool) -> (r: Option<bool>)
    ensures
        r == if memory_enabled {
            Some(recording)
        } else {
            None::<bool>
        },
{
    if memory_enabled {
        Some(recording)
    } else {
        None
    }
}

// ---------------------------------------------------------------------
// Opening a connection.

/// The realtime model every session talks to.
pub const MODEL: &'static str = "qwen-audio-3.0-realtime-flash";

pub open spec fn spec_realtime_url(workspace_id: Option<Seq<char>>, region: Option<Seq<char>>) -> Seq<char> {
    "wss://"@ + crate::dashscope::spec_host(workspace_id, region) + "/api-ws/v1/realtime?model="@
        + MODEL@
}

/// Where the realtime socket is opened, on the account's host.
pub fn realtime_url(workspace_id: Option<&str>, region: Option<&str>) -> (r: String)
    ensures
        r@ == spec_realtime_url(
            crate::dashscope::opt_view(workspace_id),
            crate::dashscope::opt_view(region),
        ),
{
    let mut v: Vec<char> = Vec::new();
    extend_str(&mut v, "wss://");
    let h = crate::dashscope::host(workspace_id, region);
    extend_str(&mut v, h.as_str());
    extend_str(&mut v, "/api-ws/v1/realtime?model=");
    extend_str(&mut v, MODEL);
    string_of(&v)
}

/// Whether the memories hold an unfinished thread worth raising.
pub open spec fn spec_has_open_loop(ms: Seq<crate::memory::Memory>) -> bool {
    exists|i: int|
        0 <= i < ms.len() && (#[trigger] ms[i]).kind@ == "open_loop"@ && !crate::text::is_blank(
            ms[i].content@,
        )
}

pub fn has_open_loop(memories: &[crate::memory::Memory]) -> (r: bool)
    ensures
        r == spec_has_open_loop(memories@),
{
    let mut i: usize = 0;
    while i < memories.len()
        invariant
            i <= memories@.len(),
            forall|k: int|
                0 <= k < i ==> !((#[trigger] memories@[k]).kind@ == "open_loop"@
                    && !crate::text::is_blank(memories@[k].content@)),
        decreases memories.len() - i,
    {
        if str_eq_exec(memories[i].kind.as_str(), "open_loop") && !crate::text::is_blank_str(
            memories[i].content.as_str(),
        ) {
            return true;
        }
        i += 1;
    }
    false
}

/// Whether the new connection's instructions invite the model to open
/// with an unfinished thread: only on a fresh sitting — a resumed one
/// carries on from its own lines — and only when the memory block that
/// will be sent holds something.
pub open spec fn spec_invites_open_loop(continuing: bool, has_open_loop: bool, memory_block: Option<Seq<char>>) -> bool {
    !continuing && has_open_loop && match memory_block {
        Some(m) => !crate::text::is_blank(m),
        None => false,
    }
}

pub fn invites_open_loop(continuing: bool, has_open_loop: bool, memory_block: Option<&str>) -> (r: bool)
    ensures
        r == spec_invites_open_loop(continuing, has_open_loop, crate::dashscope::opt_view(memory_block)),
{
    !continuing && has_open_loop && match memory_block {
        Some(m) => !crate::text::is_blank_str(m),
        None => false,
    }
}

/// The voice a session speaks in: the character's, or the first preset.
pub fn session_voice(voice_id: &Option<String>) -> (r: String)
    ensures
        r@ == match voice_id {
            Some(v) => v@,
            None => FALLBACK_VOICE@,
        },
{
    match voice_id {
        Some(v) => copy_str(v.as_str()),
        None => copy_str(FALLBACK_VOICE),
    }
}

/// The history window the session asks the server to keep: the
/// character's, at least one turn, as a `u32`.
pub fn history_window(max_history_turns: i64) -> (r: u32)
    ensures
        r == (if max_history_turns < 1 {
            1
        } else {
            max_history_turns
        }) as u32,
{
    let m: i64 = if max_history_turns < 1 {
        1
    } else {
        max_history_turns
    };
    #[verifier::truncate]
    (m as u32)
}

/// What the end-of-speech silence is set to, from the stored setting: its
/// value when it reads as a `u32`, 800 ms otherwise.
pub const DEFAULT_VAD_SILENCE_MS: u32 = 800;

pub fn vad_silence_ms(setting: Option<&str>) -> (r: u32)
    ensures
        r == match setting {
            Some(s) => match crate::memory::spec_parse_u64(s@) {
                Some(v) => if v <= u32::MAX {
                    v as u32
                } else {
                    DEFAULT_VAD_SILENCE_MS
                },
                None => DEFAULT_VAD_SILENCE_MS,
            },
            None => DEFAULT_VAD_SILENCE_MS,
        },
{
    match setting {
        Some(s) => {
            let v = chars_of(s);
            match crate::memory::parse_u64(&v) {
                Some(n) => if n <= 0xFFFF_FFFF {
                    n as u32
                } else {
                    DEFAULT_VAD_SILENCE_MS
                },
                None => DEFAULT_VAD_SILENCE_MS,
            }
        },
        None => DEFAULT_VAD_SILENCE_MS,
    }
}

/// Why a session couldn't be opened or kept going.
#[derive(Debug, Clone, Copy, PartialEq, Eq, Structural)]
pub enum SessionProblem {
    NoApiKey,
    NoCharacter,
    CharacterNotFound,
    SendFailed,
    AudioSendFailed,
    ConnectionClosed,
}

pub open spec fn spec_problem_message(p: SessionProblem, lang: Lang) -> Seq<char> {
    match p {
        SessionProblem::NoApiKey => tr(lang, "No API key configured yet"@, "尚未配置 API Key"@),
        SessionProblem::NoCharacter => tr(lang, "No character selected"@, "尚未选择角色"@),
        SessionProblem::CharacterNotFound => tr(lang, "Character not found"@, "角色不存在"@),
        SessionProblem::SendFailed => tr(lang, "Failed to send the request"@, "发送请求失败"@),
        SessionProblem::AudioSendFailed => tr(lang, "Failed to send audio"@, "音频发送失败"@),
        SessionProblem::ConnectionClosed => tr(lang, "Connection closed"@, "连接已断开"@),
    }
}

impl SessionProblem {
    pub fn message(self, lang: Lang) -> (r: &'static str)
        ensures
            r@ == spec_problem_message(self, lang),
    {
        let en = lang == Lang::En;
        match self {
            SessionProblem::NoApiKey => if en { "No API key configured yet" } else { "尚未配置 API Key" },
            SessionProblem::NoCharacter => if en { "No character selected" } else { "尚未选择角色" },
            SessionProblem::CharacterNotFound => if en { "Character not found" } else { "角色不存在" },
            SessionProblem::SendFailed => if en { "Failed to send the request" } else { "发送请求失败" },
            SessionProblem::AudioSendFailed => if en { "Failed to send audio" } else { "音频发送失败" },
            SessionProblem::ConnectionClosed => if en { "Connection closed" } else { "连接已断开" },
        }
    }
}

// ---------------------------------------------------------------------
// What holds of every turn.

/// With the mic closed, no event ever submits a turn: there is no live
/// utterance to submit.
pub proof fn law_closed_mic_never_commits(t: TurnV, e: ServerEventV, ctx: EventContext)
    requires
        !t.is_talking,
    ensures
        spec_react(t, e, ctx).action != ServerAction::CommitTurn,
{
}

/// Barge-in: speech that starts over a reply stops it at once — the
/// line's audio is dropped, the response still in flight is cancelled, and
/// nothing more of it is shown or played.
pub proof fn law_interruption_cuts_the_line(t: TurnV, start: u64)
    requires
        t.is_responding,
        !t.dropping_stale,
    ensures
        ({
            let a = spec_speech_started(t, start);
            &&& a.action == ServerAction::CancelResponse
            &&& a.effects[0] == EffectV::ClearPlayback
            &&& !a.turn.is_responding
            &&& a.turn.dropping_stale
            &&& a.turn.assistant_text.len() == 0
        }),
{
}

/// A character with memory off never has a conversation go into memory:
/// no event and no command switches recording on, and a connection that
/// ends without recording is never summarized.
pub proof fn law_memory_off_stays_off(
    t: TurnV,
    e: ServerEventV,
    c: CommandV,
    ctx: EventContext,
    reason: DisconnectV,
    delay_ms: u64,
)
    requires
        !t.memory_enabled,
        !t.recording,
    ensures
        !spec_react(t, e, ctx).turn.memory_enabled,
        !spec_react(t, e, ctx).turn.recording,
        !spec_command(t, c).turn.memory_enabled,
        !spec_command(t, c).turn.recording,
        spec_after_disconnect(reason, t.recording, t.is_talking, delay_ms).fate
            != (ConversationFate::Carry { summarize: true }),
{
}

/// Every line is stored under who said it: what the user was heard to say
/// is stored as the user's, exactly as heard, and nothing any other event
/// stores is the user's — the reply's transcript is stored as the
/// assistant's, as the server finished it or as it was built up.
pub proof fn law_lines_are_stored_as_their_speaker(t: TurnV, e: ServerEventV, ctx: EventContext)
    ensures
        ({
            let effects = spec_react(t, e, ctx).effects;
            &&& forall|i: int|
                0 <= i < effects.len() && (#[trigger] effects[i]) is Persist ==> if e is InputAudioTranscriptionCompleted {
                    effects[i] == (EffectV::Persist { role: "user"@, text: e->heard })
                } else {
                    effects[i]->role == "assistant"@
                }
            &&& e is InputAudioTranscriptionCompleted && ctx.has_conversation ==> effects.contains(
                EffectV::Persist { role: "user"@, text: e->heard },
            )
            &&& e is ResponseAudioTranscriptDone && ctx.has_conversation && !t.dropping_stale
                ==> effects.contains(
                EffectV::Persist {
                    role: "assistant"@,
                    text: match e->transcript {
                        Some(x) => x,
                        None => t.assistant_text,
                    },
                },
            )
        }),
{
    let effects = spec_react(t, e, ctx).effects;
    match e {
        ServerEventV::InputAudioTranscriptionCompleted { heard } => {
            if ctx.has_conversation {
                assert(effects[1] == EffectV::Persist { role: "user"@, text: heard });
            }
        },
        ServerEventV::ResponseAudioTranscriptDone { transcript } => {
            if ctx.has_conversation && !t.dropping_stale {
                assert(effects[effects.len() - 1] is Persist);
            }
        },
        _ => {},
    }
}

/// What a connection's end makes of its conversation: a roll of the
/// context carries it on and summarizes it exactly when it counts toward
/// memory, so the next connection's instructions hold what was said; a
/// dropped connection carries it on without summarizing; any other end
/// finishes it.
pub proof fn law_a_roll_summarizes_what_counts(
    reason: DisconnectV,
    recording: bool,
    is_talking: bool,
    delay_ms: u64,
)
    ensures
        reason is Rolling ==> spec_after_disconnect(reason, recording, is_talking, delay_ms).fate
            == (ConversationFate::Carry { summarize: recording }),
        reason is Rolling ==> spec_after_disconnect(reason, recording, is_talking, delay_ms).next
            == Next::Reconnect,
        reason is Error ==> spec_after_disconnect(reason, recording, is_talking, delay_ms).fate
            == (ConversationFate::Carry { summarize: false }),
        spec_after_disconnect(reason, recording, is_talking, delay_ms).fate matches ConversationFate::Carry { summarize }
            ==> (reason is Rolling || reason is Error) && (summarize ==> recording),
{
}

/// Audio still arriving for a response that was cancelled is never played.
pub proof fn law_stale_audio_is_not_played(t: TurnV, delta: Seq<char>)
    requires
        t.dropping_stale,
    ensures
        spec_audio_delta(t, delta).effects == no_effects(),
        spec_audio_delta(t, delta).turn.dropping_stale,
{
}

} // verus!
