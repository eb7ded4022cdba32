use voicechat::character::{character_file_name, seeding, Seeding};
use voicechat::commands::{
    active_hotkey, avatar_to_release, check_api_key, check_backup_size, check_connection_settings,
    check_conversation_title, check_deletable, hotkey_change, restored_hotkey, ui_language_tag, CommandError,
    ConnectionSettings, HotkeyChange, DEFAULT_HOTKEY,
};
use voicechat::i18n::Lang;
use voicechat::image::{check_announced_length, check_download_url, image_url, ImageError, MAX_DOWNLOAD_BYTES};
use voicechat::llm::{first_choice, FlashClient, FlashError};
use voicechat::secrets::status;
use voicechat::session::{history_window, realtime_url, session_voice, vad_silence_ms, FALLBACK_VOICE};

#[test]
fn an_api_key_is_trimmed_and_never_blank() {
    assert_eq!(check_api_key("  sk-abc  ").expect("a key"), "sk-abc");
    assert!(matches!(check_api_key("   "), Err(CommandError::EmptyApiKey)));
}

#[test]
fn connection_settings_are_checked_before_they_are_kept() {
    let ok = check_connection_settings(&ConnectionSettings {
        workspace_id: Some(" llm-abc ".into()),
        region: Some("ap-southeast-1".into()),
    })
    .expect("valid");
    assert_eq!(ok, ("llm-abc".to_string(), "ap-southeast-1".to_string()));
    let none = check_connection_settings(&ConnectionSettings { workspace_id: None, region: None }).expect("valid");
    assert_eq!(none, (String::new(), String::new()));
    assert!(matches!(
        check_connection_settings(&ConnectionSettings { workspace_id: Some("evil.com/#".into()), region: None }),
        Err(CommandError::NotAWorkspaceId)
    ));
    let unknown = check_connection_settings(&ConnectionSettings { workspace_id: None, region: Some("us-east-1".into()) })
        .expect_err("unknown region");
    assert_eq!(unknown.message(Lang::En), "Unknown region \"us-east-1\"");
}

#[test]
fn the_display_language_defaults_to_english() {
    assert_eq!(ui_language_tag(None), "en");
    assert_eq!(ui_language_tag(Some("")), "en");
    assert_eq!(ui_language_tag(Some("zh-CN")), "zh-CN");
}

#[test]
fn the_hotkey_is_the_default_until_turned_off() {
    assert_eq!(active_hotkey(None), Some(DEFAULT_HOTKEY.to_string()));
    assert_eq!(active_hotkey(Some("")), None);
    assert_eq!(active_hotkey(Some("Ctrl+Alt+K")), Some("Ctrl+Alt+K".to_string()));
    assert!(matches!(hotkey_change(None, Some(DEFAULT_HOTKEY.into())), HotkeyChange::Unchanged));
    match hotkey_change(None, Some("   ".into())) {
        HotkeyChange::Change { register, release, store } => {
            assert_eq!(register, None);
            assert_eq!(release, Some(DEFAULT_HOTKEY.to_string()));
            assert_eq!(store, "");
        }
        other => panic!("turning it off is a change: {other:?}"),
    }
    assert_eq!(restored_hotkey("  Ctrl+Alt+K "), Some("Ctrl+Alt+K".to_string()));
    assert_eq!(restored_hotkey("  "), None);
}

#[test]
fn oversized_files_are_refused_with_their_size() {
    assert!(check_backup_size(1024).is_ok());
    let err = check_backup_size(300 * 1_048_576).expect_err("too large");
    assert!(matches!(err, CommandError::BackupTooLarge { mb: 300, max_mb: 256 }));
    assert_eq!(
        err.message(Lang::En),
        "That file is 300 MB — too large to be a Voice Chat backup (the limit is 256 MB)"
    );
}

#[test]
fn conversations_and_avatars_are_let_go_of_carefully() {
    assert_eq!(check_conversation_title("  Trip  ").expect("a name"), "Trip");
    assert!(matches!(check_conversation_title(" "), Err(CommandError::EmptyConversationName)));
    assert!(matches!(check_deletable(Some("c1"), "c1"), Err(CommandError::ConversationStillGoing)));
    assert!(check_deletable(Some("c1"), "c2").is_ok());
    assert!(check_deletable(None, "c1").is_ok());
    assert_eq!(avatar_to_release(Some("a.png"), Some("b.png")), Some("a.png".to_string()));
    assert_eq!(avatar_to_release(Some("a.png"), Some("a.png")), None);
    assert_eq!(avatar_to_release(None, Some("b.png")), None);
}

#[test]
fn a_stored_key_shows_only_its_last_four() {
    let s = status(Some("sk-1234567890"));
    assert!(s.configured);
    assert_eq!(s.tail.as_deref(), Some("...7890"));
    assert!(!status(Some("")).configured);
    assert_eq!(status(None).tail, None);
}

#[test]
fn completions_go_to_the_workspace_host() {
    let c = FlashClient::new("k".into(), Some("llm-abc".into()), Some("ap-southeast-1"));
    assert_eq!(c.chat_url(), "https://llm-abc.ap-southeast-1.maas.aliyuncs.com/compatible-mode/v1/chat/completions");
    assert_eq!(c.api_key(), "k");
    assert!(matches!(first_choice(vec![]), Err(FlashError::NoContent)));
    assert_eq!(first_choice(vec!["a".into(), "b".into()]).expect("a choice"), "a");
    let http = FlashError::Http { status: "401 Unauthorized".into(), body: "  bad key ".into() };
    assert_eq!(http.message(Lang::En), "HTTP 401 Unauthorized: bad key");
}

#[test]
fn a_generated_image_is_fetched_only_over_https_and_within_limits() {
    assert!(check_download_url("https://x/a.png").is_ok());
    assert!(matches!(check_download_url("http://x/a.png"), Err(ImageError::NotHttps { .. })));
    assert!(check_announced_length(None).is_ok());
    assert!(matches!(check_announced_length(Some(MAX_DOWNLOAD_BYTES as u64 + 1)), Err(ImageError::TooLarge)));
    let choices = vec![vec![None, Some("https://x/a.png".to_string())], vec![Some("https://x/b.png".to_string())]];
    assert_eq!(image_url(&choices), Some("https://x/a.png".to_string()));
    assert_eq!(image_url(&vec![vec![Some(String::new())]]), None);
    assert_eq!(image_url(&vec![]), None);
}

#[test]
fn the_session_is_configured_from_the_character() {
    assert_eq!(
        realtime_url(None, None),
        "wss://dashscope.aliyuncs.com/api-ws/v1/realtime?model=qwen-audio-3.0-realtime-flash"
    );
    assert_eq!(history_window(0), 1);
    assert_eq!(history_window(20), 20);
    assert_eq!(vad_silence_ms(Some("1200")), 1200);
    assert_eq!(vad_silence_ms(Some("abc")), 800);
    assert_eq!(vad_silence_ms(None), 800);
    assert_eq!(session_voice(&None), FALLBACK_VOICE);
    assert_eq!(session_voice(&Some("v1".into())), "v1");
}

#[test]
fn startup_seeds_only_an_empty_device() {
    assert_eq!(seeding(0, None), Seeding::CreateDefault);
    assert_eq!(seeding(2, None), Seeding::PickFirst);
    assert_eq!(seeding(2, Some("")), Seeding::PickFirst);
    assert_eq!(seeding(2, Some("c1")), Seeding::Keep);
}

#[test]
fn a_shared_file_is_named_after_its_character() {
    assert_eq!(character_file_name("Nia"), "Nia.json");
    assert_eq!(character_file_name("a/b:c"), "a_b_c.json");
    assert_eq!(character_file_name(" ... "), "character.json");
}
