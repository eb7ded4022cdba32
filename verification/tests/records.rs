use voicechat::avatar;
use voicechat::backup::{
    self, Backup, BackupCharacter, BackupConversation, BackupMemory, BackupMessage, BackupSettings,
    BackupVoiceSample, Incompatible, FORMAT, VERSION,
};
use voicechat::checks::{FloatValue, Reason, MAX_HISTORY_TURNS, MAX_VAD_SILENCE_MS};
use voicechat::commands::{check_connection_settings, ConnectionSettings};
use voicechat::i18n::Lang;
use voicechat::share::{self, default_preview_text, ShareError, SharedCharacter, SharedVoice};

fn float(x: f64) -> FloatValue {
    FloatValue { bits: x.to_bits(), text: x.to_string() }
}

const STAMP: &str = "2026-01-01T10:00:00+00:00";

fn valid_backup() -> Backup {
    Backup {
        format: FORMAT.into(),
        version: VERSION,
        exported_at: STAMP.into(),
        app_version: "0.1.0".into(),
        characters: vec![BackupCharacter {
            id: "c1".into(),
            name: "Nia".into(),
            avatar_path: None,
            avatar_data: None,
            language: "auto".into(),
            persona: "curious and warm".into(),
            speech_habits: "short sentences".into(),
            voice_kind: "preset".into(),
            voice_id: Some("longanqian".into()),
            voice_prompt: None,
            memory_enabled: true,
            max_history_turns: 20,
            created_at: STAMP.into(),
            updated_at: STAMP.into(),
            memories: vec![BackupMemory {
                id: "m1".into(),
                kind: "fact".into(),
                content: "likes oolong tea".into(),
                salience: float(0.5),
                updated_at: STAMP.into(),
            }],
            conversations: vec![BackupConversation {
                id: "v1".into(),
                title: Some("First chat".into()),
                started_at: STAMP.into(),
                ended_at: None,
                memorized: Some(true),
                messages: vec![BackupMessage {
                    id: "msg1".into(),
                    role: "user".into(),
                    text: "hello".into(),
                    audio_ms: None,
                    created_at: STAMP.into(),
                }],
            }],
        }],
        settings: Some(BackupSettings {
            api_key: Some("sk-not-a-real-key".into()),
            workspace_id: Some("llm-abc123".into()),
            region: Some("cn-beijing".into()),
            hotkey: Some("Ctrl+Shift+Space".into()),
            vad_threshold: Some(float(0.5)),
            vad_silence_ms: Some(800),
            ui_language: Some("zh-CN".into()),
        }),
        voice_samples: Vec::new(),
    }
}

fn with(edit: impl FnOnce(&mut BackupSettings)) -> Backup {
    let mut b = valid_backup();
    edit(b.settings.as_mut().expect("the fixture has settings"));
    b
}

#[test]
fn legacy_files_infer_the_memory_mark() {
    let conversation = |ended_at: Option<&str>| BackupConversation {
        id: "v1".into(),
        title: None,
        started_at: "2026-01-01T10:00:00+00:00".into(),
        ended_at: ended_at.map(Into::into),
        memorized: None,
        messages: vec![BackupMessage {
            id: "msg1".into(),
            role: "user".into(),
            text: "hello".into(),
            audio_ms: None,
            created_at: "2026-01-01T10:01:00+00:00".into(),
        }],
    };
    assert!(conversation(Some("2026-01-01T10:05:00+00:00")).is_memorized());
    assert!(
        !conversation(Some("2026-01-01T10:01:00+00:00")).is_memorized(),
        "closed by the sweep, never summarized"
    );
    assert!(!conversation(None).is_memorized());

    let mut explicit = conversation(Some("2026-01-01T10:01:00+00:00"));
    explicit.memorized = Some(true);
    assert!(explicit.is_memorized(), "the file's own answer wins");
}

#[test]
fn a_real_export_passes_its_own_validation() {
    valid_backup().validate().expect("the fixture is valid");
    valid_backup().check_compatible().expect("compatible");
}

#[test]
fn a_file_without_settings_leaves_this_device_configured() {
    let mut v1 = valid_backup();
    v1.version = 1;
    v1.settings = None;
    v1.check_compatible().expect("a v1 file still restores");
    v1.validate().expect("valid");
    assert!(!v1.summary(0).settings_restored);
}

#[test]
fn rejects_settings_it_would_have_to_connect_with() {
    assert!(
        with(|s| s.workspace_id = Some("evil.com/#".into())).validate().is_err(),
        "a workspace id that is really a host"
    );
    assert!(
        with(|s| s.region = Some("us-east-1".into())).validate().is_err(),
        "a region this build has no endpoint for"
    );
    assert!(
        with(|s| s.ui_language = Some("de".into())).validate().is_err(),
        "a display language with no catalogue"
    );
    assert!(
        with(|s| s.api_key = Some("   ".into())).validate().is_err(),
        "a blank API key, which would overwrite a working one with nothing"
    );
    assert!(
        with(|s| s.api_key = Some("k".repeat(backup::API_KEY_CHARS + 1))).validate().is_err(),
        "an API key no keyring should be asked to hold"
    );

    for threshold in [f64::NAN, -0.1, 1.5] {
        assert!(
            with(move |s| s.vad_threshold = Some(float(threshold))).validate().is_err(),
            "threshold {threshold}"
        );
    }
    for ms in [0, MAX_VAD_SILENCE_MS + 1] {
        assert!(with(move |s| s.vad_silence_ms = Some(ms)).validate().is_err(), "silence {ms} ms");
    }

    assert!(with(|s| s.workspace_id = Some(String::new())).validate().is_ok());
    assert!(with(|s| s.region = Some(String::new())).validate().is_ok());
    assert!(with(|s| s.hotkey = Some(String::new())).validate().is_ok());
}

#[test]
fn rejects_values_outside_the_closed_sets() {
    let mut b = valid_backup();
    b.characters[0].language = "'; DROP TABLE".into();
    assert!(b.validate().is_err(), "language");

    let mut b = valid_backup();
    b.characters[0].voice_kind = "anything".into();
    assert!(b.validate().is_err(), "voice_kind");

    let mut b = valid_backup();
    b.characters[0].memories[0].kind = "system".into();
    assert!(b.validate().is_err(), "memory kind");

    let mut b = valid_backup();
    b.characters[0].conversations[0].messages[0].role = "system".into();
    assert!(b.validate().is_err(), "message role");
}

#[test]
fn rejects_oversized_content() {
    let mut b = valid_backup();
    b.characters[0].persona = "x".repeat(backup::PROSE_CHARS + 1);
    assert!(b.validate().is_err(), "persona length");

    let mut b = valid_backup();
    b.characters[0].name = String::new();
    assert!(b.validate().is_err(), "an empty name");

    let mut b = valid_backup();
    b.characters = std::iter::repeat_with(|| {
        let mut c = valid_backup().characters.pop().expect("the fixture has one");
        c.id = format!("c-{}", voicechat::encoding::new_uuid_text());
        c
    })
    .take(backup::CHARACTERS + 1)
    .collect();
    assert!(b.validate().is_err(), "too many characters");
}

#[test]
fn rejects_numbers_outside_their_range() {
    for turns in [0, -1, MAX_HISTORY_TURNS + 1] {
        let mut b = valid_backup();
        b.characters[0].max_history_turns = turns;
        assert!(b.validate().is_err(), "max_history_turns {turns}");
    }

    for salience in [f64::NAN, f64::INFINITY, -0.5, 1.5] {
        let mut b = valid_backup();
        b.characters[0].memories[0].salience = float(salience);
        assert!(b.validate().is_err(), "salience {salience}");
    }
}

#[test]
fn rejects_a_voice_sample_that_isnt_audio() {
    let mut b = valid_backup();
    b.voice_samples.push(BackupVoiceSample {
        voice_id: "v".into(),
        data: Some(avatar::encode(b"\x89PNG\r\n\x1a\n")),
        file_name: None,
    });
    assert!(b.validate().is_err());
}

#[test]
fn backup_rejects_an_avatar_that_isnt_an_image() {
    let mut b = valid_backup();
    b.characters[0].avatar_data = Some(avatar::encode(b"<svg onload=alert(1)>"));
    assert!(b.validate().is_err(), "not an image");

    let mut b = valid_backup();
    b.characters[0].avatar_data = Some("not base64!".into());
    assert!(b.validate().is_err(), "not base64");
}

#[test]
fn rejects_files_it_cannot_restore() {
    let mut wrong = Backup {
        format: "something-else".into(),
        version: 1,
        exported_at: String::new(),
        app_version: String::new(),
        characters: Vec::new(),
        settings: None,
        voice_samples: Vec::new(),
    };
    assert!(wrong.check_compatible().is_err());

    wrong.format = FORMAT.into();
    wrong.version = VERSION + 1;
    assert!(wrong.check_compatible().is_err());

    wrong.version = VERSION;
    assert!(wrong.check_compatible().is_ok());
}

#[test]
fn each_incompatibility_says_what_is_wrong() {
    let mut wrong = valid_backup();
    wrong.format = "something-else".into();
    assert_eq!(wrong.check_compatible(), Err(Incompatible::NotABackup));
    wrong.format = FORMAT.into();
    wrong.version = VERSION + 1;
    assert_eq!(wrong.check_compatible(), Err(Incompatible::Newer { version: VERSION + 1 }));
    assert!(!Incompatible::NotABackup.message(Lang::En).is_empty());
}

#[test]
fn a_refused_backup_names_the_field() {
    let mut b = valid_backup();
    b.characters[0].voice_kind = "anything".into();
    let reason = b.validate().expect_err("voice_kind");
    let text = backup::rejection(&reason, Lang::En);
    assert!(text.starts_with("This backup file isn't usable: "), "{text}");
    assert!(text.contains("voice_kind"), "{text}");
}

#[test]
fn totals_count_what_the_file_holds() {
    let b = valid_backup();
    let t = b.totals();
    assert_eq!((t.characters, t.memories, t.conversations, t.messages), (1, 1, 1, 1));
    let s = b.summary(1);
    assert_eq!(s.totals, t);
    assert_eq!(s.new_characters, 1);
    assert!(s.settings_restored);
    assert!(!s.api_key_restored);
}

const PNG: &[u8] = b"\x89PNG\r\n\x1a\n\0\0\0\rIHDR";
const WAV: &[u8] = b"RIFF\x24\0\0\0WAVEfmt \x10\0\0\0";

fn shared(voice: SharedVoice) -> SharedCharacter {
    SharedCharacter {
        format: share::FORMAT.into(),
        version: share::VERSION,
        name: "  Nia ".into(),
        language: "en".into(),
        persona: "curious and warm".into(),
        speech_habits: "short sentences".into(),
        avatar: Some(format!("data:application/octet-stream;base64,{}", avatar::encode(PNG))),
        voice,
        memory_enabled: Some(false),
        max_history_turns: Some(30),
    }
}

fn audio() -> SharedVoice {
    SharedVoice::Audio { data: format!("data:audio/x-wav;base64,{}", avatar::encode(WAV)) }
}

#[test]
fn round_trips_through_json() {
    let parsed = shared(audio()).normalize().expect("valid");

    assert_eq!(parsed.name, "Nia", "the name is trimmed");
    assert_eq!(parsed.memory_enabled, Some(false));
    assert_eq!(parsed.max_history_turns, Some(30));
    assert_eq!(parsed.avatar_bytes().as_deref(), Some(PNG));
    assert!(
        parsed.avatar.as_deref().unwrap().starts_with("data:image/png;base64,"),
        "the picture is relabelled with what it is"
    );
    match parsed.voice {
        SharedVoice::Audio { data } => {
            assert!(data.starts_with("data:audio/wav;base64,"));
        }
        other => panic!("the voice changed kind: {other:?}"),
    }
}

#[test]
fn a_checked_character_passes_again_unchanged() {
    let described = SharedVoice::Description {
        prompt: "  a calm, low voice ".into(),
        preview_text: Some(" Hello there. ".into()),
    };
    for voice in [audio(), described] {
        let once = shared(voice).normalize().expect("valid");
        let before = format!("{once:?}");
        let twice = once.normalize().expect("what passed once passes again");
        assert_eq!(format!("{twice:?}"), before);
    }
}

#[test]
fn a_minimal_hand_written_file_imports() {
    let raw = SharedCharacter {
        format: "voice-chat-character".into(),
        version: 1,
        name: "小柔".into(),
        language: "auto".into(),
        persona: String::new(),
        speech_habits: String::new(),
        avatar: None,
        voice: SharedVoice::Description { prompt: "  温柔的女声  ".into(), preview_text: None },
        memory_enabled: None,
        max_history_turns: None,
    };
    let parsed = raw.normalize().expect("valid");
    assert_eq!(parsed.language, "auto");
    assert_eq!(parsed.persona, "");
    assert_eq!(parsed.avatar, None);
    assert_eq!(parsed.memory_enabled, None);
    match parsed.voice {
        SharedVoice::Description { prompt, preview_text } => {
            assert_eq!(prompt, "温柔的女声");
            assert_eq!(preview_text, None);
        }
        other => panic!("the voice changed kind: {other:?}"),
    }
}

/// Reads a file's `format` stamp as the app does before anything else.
fn parse_header(raw: &str) -> Result<(), String> {
    let unreadable = |e: serde_json::Error| ShareError::Unreadable { detail: e.to_string() }.message(Lang::En);
    let value: serde_json::Value = serde_json::from_str(raw).map_err(unreadable)?;
    let format = value.get("format").and_then(|f| f.as_str()).unwrap_or("");
    share::check_header(format).map_err(|e| e.message(Lang::En))
}

#[test]
fn points_a_backup_at_where_it_belongs() {
    let backup = r#"{"format": "voice-chat-backup", "version": 2}"#;
    let err = parse_header(backup).expect_err("not a character");
    assert!(err.contains("Backup") || err.contains("备份"), "{err}");

    assert!(parse_header(r#"{"hello": "world"}"#).is_err());
    assert!(parse_header("not json").is_err());
}

#[test]
fn a_backup_is_pointed_at_where_it_belongs() {
    assert!(matches!(share::check_header(backup::FORMAT), Err(ShareError::IsABackup)));
    assert!(matches!(share::check_header("voicechat-backup"), Err(ShareError::IsABackup)));
    assert!(matches!(share::check_header("voice-chat-backup"), Err(ShareError::IsABackup)));
    assert_eq!(backup::FORMAT, "voicechat-backup");
    assert!(matches!(share::check_header("something"), Err(ShareError::NotACharacter)));
    assert!(share::check_header(share::FORMAT).is_ok());
    let text = ShareError::IsABackup.message(Lang::En);
    assert!(text.contains("Backup") || text.contains("backup"), "{text}");
}

#[test]
fn rejects_files_it_cannot_import() {
    let mut newer = shared(audio());
    newer.version = share::VERSION + 1;
    assert!(newer.normalize().is_err(), "a newer format");

    let mut long = shared(audio());
    long.name = "字".repeat(13);
    assert!(long.normalize().is_err(), "a name the editor wouldn't take");

    let mut language = shared(audio());
    language.language = "de".into();
    assert!(language.normalize().is_err(), "a language outside the set");

    let mut persona = shared(audio());
    persona.persona = "x".repeat(share::PROSE_CHARS + 1);
    assert!(persona.normalize().is_err(), "an oversized persona");

    for turns in [0, MAX_HISTORY_TURNS + 1] {
        let mut c = shared(audio());
        c.max_history_turns = Some(turns);
        assert!(c.normalize().is_err(), "max_history_turns {turns}");
    }
}

#[test]
fn rejects_voices_it_cannot_make() {
    let preset = |id: &str| shared(SharedVoice::Preset { id: id.into() });
    assert!(preset("longanqian").normalize().is_ok());
    assert!(preset("someone-elses-cloned-voice").normalize().is_err());

    let description = |prompt: String| shared(SharedVoice::Description { prompt, preview_text: None });
    assert!(description("   ".into()).normalize().is_err(), "blank");
    assert!(
        description("x".repeat(share::VOICE_PROMPT_CHARS + 1)).normalize().is_err(),
        "longer than Voice Design takes"
    );

    let audio = |data: String| shared(SharedVoice::Audio { data });
    assert!(
        audio(format!("data:audio/wav;base64,{}", avatar::encode(PNG))).normalize().is_err(),
        "a picture labelled as audio"
    );
    assert!(audio("data:audio/wav,raw".into()).normalize().is_err());
    assert!(audio("https://example.com/a.wav".into()).normalize().is_err());
}

#[test]
fn takes_an_ogg_sample_whatever_it_is_labelled() {
    let ogg = SharedVoice::Audio {
        data: format!("data:audio/wav;base64,{}", avatar::encode(b"OggS\0\x02\0\0\0\0\0\0\0\0")),
    };
    match shared(ogg).normalize().expect("valid").voice {
        SharedVoice::Audio { data } => {
            assert!(data.starts_with("data:audio/ogg;base64,"), "{data}");
        }
        other => panic!("the voice changed kind: {other:?}"),
    }
}

#[test]
fn a_voice_on_its_own_is_rejected_without_blaming_a_file() {
    let blank = || SharedVoice::Description { prompt: " ".into(), preview_text: None };
    let alone: Reason = blank().normalize().expect_err("blank");
    let alone = alone.text(Lang::En);
    let in_file = shared(blank()).normalize().expect_err("blank").message(Lang::En);
    assert!(in_file.ends_with(&alone), "{in_file}");
    assert_ne!(in_file, alone);
}

#[test]
fn share_rejects_an_avatar_that_isnt_an_image() {
    let mut c = shared(audio());
    c.avatar = Some(format!("data:image/png;base64,{}", avatar::encode(b"<svg onload=alert(1)>")));
    assert!(c.normalize().is_err());
}

#[test]
fn picks_a_sample_passage_by_language() {
    let zh = default_preview_text("zh", "");
    let en = default_preview_text("en", "");
    assert_ne!(zh, en);
    assert_eq!(default_preview_text("ja", ""), zh);
    assert_eq!(default_preview_text("auto", "温柔的女声"), zh);
    assert_eq!(default_preview_text("auto", "a warm voice"), en);
    assert!(zh.chars().count() >= 150, "{}", zh.chars().count());
    assert!(en.chars().count() >= 150);
}

#[test]
fn a_restored_connection_is_checked_as_if_typed() {
    let cases: [(Option<&str>, Option<&str>); 6] = [
        (Some("llm-abc"), Some("cn-beijing")),
        (Some(" llm-abc "), None),
        (Some("evil.com/#"), None),
        (None, Some("us-east-1")),
        (Some(""), Some("")),
        (None, Some(" ap-southeast-1 ")),
    ];
    for (w, r) in cases {
        let restored = BackupSettings {
            api_key: None,
            workspace_id: w.map(Into::into),
            region: r.map(Into::into),
            hotkey: None,
            vad_threshold: None,
            vad_silence_ms: None,
            ui_language: None,
        };
        let typed = ConnectionSettings { workspace_id: w.map(Into::into), region: r.map(Into::into) };
        assert_eq!(restored.validate().is_ok(), check_connection_settings(&typed).is_ok(), "{w:?} {r:?}");
    }
}

#[test]
fn a_validated_backup_carries_pictures_and_samples_that_decode() {
    let mut b = valid_backup();
    b.characters[0].avatar_data = Some(avatar::encode(PNG));
    b.voice_samples.push(BackupVoiceSample { voice_id: "v".into(), data: Some(avatar::encode(WAV)), file_name: None });
    b.validate().expect("valid");
    let picture = avatar::decode(b.characters[0].avatar_data.as_deref().unwrap()).expect("decodes");
    assert_eq!(avatar::Format::sniff(&picture), Some(avatar::Format::Png));
    let sample = avatar::decode(b.voice_samples[0].data.as_deref().unwrap()).expect("decodes");
    assert_eq!(voicechat::voice::sample::Format::sniff(&sample), Some(voicechat::voice::sample::Format::Wav));
}
