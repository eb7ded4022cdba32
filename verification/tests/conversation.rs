use voicechat::audio::LevelThrottle;
use voicechat::checks::FloatValue;
use voicechat::i18n::{self, current, Lang, UiLanguage};
use voicechat::memory::{
    sort_stored, build_injection_block, clean_title, concat_memories, fact_key_exec, new_facts, parse_u64,
    repeated_facts, rewordings, select_for_injection, summary_result, title_from_response,
    truncate_block, FactRevision, Injection, Memory, MemoryError, ParsedSummary, RevisionEntry,
    RevisionNumber, INJECT_BUDGET_CHARS,
};
use voicechat::prompt::{build_instructions, format_recent_turns, instructions_at, CharacterPrompt, RECENT_TURN_CHARS};
use voicechat::session::{
    after_disconnect, next_reconnect_delay, Backoff, Next, ConversationFate, Disconnect, EventContext, Effect, ServerAction,
    ServerEvent, SessionCommand, Turn, RECONNECT_MAX_MS,
};
use voicechat::subtitle::{
    begin_line, current_line, should_translate, translate_line, translated_segment, translation_prompt, LineCounter,
    Progress,
};

#[test]
fn what_is_set_is_what_is_read_back() {
    let mut ui = UiLanguage::new();
    assert_eq!(current(&ui), Lang::En);
    i18n::set(&mut ui, Lang::Zh);
    assert_eq!(current(&ui), Lang::Zh);
    assert_eq!(UiLanguage::from_code(ui.code()).code(), ui.code());
    i18n::set(&mut ui, Lang::En);
    assert_eq!(current(&ui), Lang::En);
}

#[test]
fn a_tag_reads_back_as_its_language() {
    for lang in [Lang::En, Lang::Zh] {
        assert_eq!(Lang::from_tag(lang.tag()), lang);
    }
    assert_eq!(Lang::Zh.tag(), "zh-CN");
    assert_eq!(Lang::from_tag("de"), Lang::En);
}

#[test]
fn line_ids_count_up_once_per_turn() {
    let mut lines = LineCounter::new();
    assert_eq!(begin_line(&mut lines), 1);
    assert_eq!(begin_line(&mut lines), 2);
    assert_eq!(current_line(&lines), 2);
}

#[test]
fn a_line_goes_out_a_sentence_at_a_time() {
    let mut p = Progress::new();
    assert!(translate_line(&mut p, 1, "你好。今天", false).is_none(), "too short to send alone");
    let first = translate_line(&mut p, 1, "你好。今天天气不错！我们", false).expect("a sentence");
    assert_eq!(first.index, 0);
    assert_eq!(first.segment, "你好。今天天气不错！");
    assert_eq!(first.earlier, "");
    let rest = translate_line(&mut p, 1, "你好。今天天气不错！我们走吧。", true).expect("the rest");
    assert_eq!(rest.index, 1);
    assert_eq!(rest.segment, "我们走吧。");
    assert_eq!(rest.earlier, "你好。今天天气不错！");
    assert!(translate_line(&mut p, 1, "你好。今天天气不错！我们走吧。", true).is_none());
    let next = translate_line(&mut p, 2, "Fine.", true).expect("a new line starts over");
    assert_eq!(next.index, 0);
}

fn ctx(now_ms: u64) -> EventContext {
    EventContext { now_ms, subtitle_open: false, has_conversation: true, lang: Lang::En }
}

fn responding() -> Turn {
    let mut t = Turn::new(true, true, true);
    t.is_responding = true;
    t
}

#[test]
fn a_closed_mic_never_commits_a_turn() {
    let mut t = Turn::new(false, true, true);
    for event in [ServerEvent::SpeechStarted, ServerEvent::SpeechStopped] {
        let r = t.handle_server_event(event, &ctx(5_000));
        assert_ne!(r.action, ServerAction::CommitTurn);
    }
}

#[test]
fn an_open_mic_commits_the_turn_it_heard() {
    let mut t = Turn::new(true, true, true);
    t.handle_server_event(ServerEvent::SpeechStarted, &ctx(5_000));
    let r = t.handle_server_event(ServerEvent::SpeechStopped, &ctx(6_000));
    assert_eq!(r.action, ServerAction::CommitTurn);
}

#[test]
fn speaking_over_a_reply_stops_it_at_once() {
    let mut t = responding();
    let a = t.handle_server_event(ServerEvent::SpeechStarted, &ctx(5_000));
    assert_eq!(a.action, ServerAction::CancelResponse);
    assert!(matches!(a.effects[0], Effect::ClearPlayback));
    assert!(!t.is_responding);
    assert!(t.dropping_stale);
}

#[test]
fn an_interruption_cuts_the_line() {
    let mut t = responding();
    t.handle_server_event(ServerEvent::SpeechStarted, &ctx(5_000));
    let late = t.handle_server_event(ServerEvent::ResponseAudioDelta { delta: "aGk=".into() }, &ctx(5_050));
    assert!(late.effects.is_empty(), "the cancelled reply is not played");
    let stopped = t.handle_server_event(ServerEvent::SpeechStopped, &ctx(6_000));
    assert_eq!(stopped.action, ServerAction::Nothing, "waits for the cancelled reply to end");
    let done = t.handle_server_event(ServerEvent::ResponseDone, &ctx(6_100));
    assert_eq!(done.action, ServerAction::CommitTurn, "then the user's turn is submitted");
}

#[test]
fn stale_audio_is_not_played() {
    let mut t = responding();
    t.dropping_stale = true;
    let r = t.handle_server_event(ServerEvent::ResponseAudioDelta { delta: "AAAA".into() }, &ctx(5_000));
    assert!(r.effects.is_empty());
    assert!(t.dropping_stale);
}

#[test]
fn live_audio_is_played_as_decoded() {
    let mut t = responding();
    let r = t.handle_server_event(ServerEvent::ResponseAudioDelta { delta: "aGk=".into() }, &ctx(5_000));
    assert!(r.effects.iter().any(|e| matches!(e, Effect::PlayAudio(bytes) if bytes == b"hi")));
}

#[test]
fn reconnects_back_off_up_to_a_ceiling() {
    assert_eq!(next_reconnect_delay(1_000), 2_000);
    assert_eq!(next_reconnect_delay(RECONNECT_MAX_MS), RECONNECT_MAX_MS);
}

#[test]
fn level_updates_are_spaced_by_the_interval() {
    let mut throttle = LevelThrottle::new(100, 5_000);
    assert!(throttle.should_emit(5_000));
    assert!(!throttle.should_emit(5_099));
    assert!(throttle.should_emit(5_100));
    assert!(!throttle.should_emit(5_150));
}

fn memory(kind: &str, content: &str) -> Memory {
    Memory {
        id: format!("{kind}-{content}"),
        character_id: "c1".into(),
        kind: kind.into(),
        content: content.into(),
        salience: FloatValue { bits: 0.5f64.to_bits(), text: "0.5".into() },
        updated_at: String::new(),
    }
}

#[test]
fn injection_pins_summary_and_threads_then_fills_with_newest_facts() {
    let summary = "摘".repeat(200);
    let long = "长".repeat(480);
    // Newest first, as the store lists them.
    let memories = [
        memory("fact", "  "),
        memory("fact", "短事实一"),
        memory("fact", &long),
        memory("fact", "短事实二"),
        memory("summary", &summary),
        memory("open_loop", "面试结果还没问"),
        memory("fact", "oldest fact"),
    ];
    let picked = select_for_injection(&memories);
    assert_eq!(
        picked.iter().map(|m| m.content.as_str()).collect::<Vec<_>>(),
        [summary.as_str(), "面试结果还没问", "短事实一", "短事实二", "oldest fact"]
    );
    assert!(concat_memories(&picked).chars().count() <= INJECT_BUDGET_CHARS);
    match build_injection_block(&picked) {
        Injection::Ready { block } => assert_eq!(block, concat_memories(&picked)),
        other => panic!("the block fits: {other:?}"),
    }
}

#[test]
fn an_overlong_block_is_compressed_or_cut() {
    let big = [memory("summary", &"摘".repeat(INJECT_BUDGET_CHARS + 10))];
    assert!(matches!(build_injection_block(&big), Injection::Compress { .. }));
    assert!(matches!(build_injection_block(&[]), Injection::Nothing));
    let cut = truncate_block(&"字".repeat(INJECT_BUDGET_CHARS + 10));
    assert_eq!(cut.chars().count(), INJECT_BUDGET_CHARS);
}

fn revision(n: RevisionNumber, text: Option<&str>) -> RevisionEntry {
    RevisionEntry { n, text: text.map(Into::into) }
}

#[test]
fn revisions_must_name_a_fact_that_was_shown() {
    let parsed = ParsedSummary {
        summary: "聊了搬家".into(),
        facts: vec!["养了一只猫".into()],
        revised_facts: vec![
            revision(RevisionNumber::Number { value: Some(2) }, Some("叫他李哥")),
            revision(RevisionNumber::Text { text: "1".into() }, Some(" 不喝咖啡了 ")),
            revision(RevisionNumber::Number { value: Some(3) }, Some("past the end")),
            revision(RevisionNumber::Number { value: Some(0) }, Some("before the start")),
            revision(RevisionNumber::Number { value: Some(1) }, Some("  ")),
            revision(RevisionNumber::Other, None),
        ],
        open_loops: vec![],
    };
    let result = summary_result(parsed, 2);
    assert_eq!(
        result.revised_facts,
        [
            FactRevision { index: 1, text: "叫他李哥".into() },
            FactRevision { index: 0, text: "不喝咖啡了".into() },
        ]
    );
    assert_eq!(result.facts, ["养了一只猫"]);

    let bare = ParsedSummary { summary: "s".into(), facts: vec![], revised_facts: vec![], open_loops: vec![] };
    assert!(summary_result(bare, 3).revised_facts.is_empty());
}

#[test]
fn numbers_are_read_digit_by_digit() {
    assert_eq!(parse_u64(&['1', '2']), Some(12));
    assert_eq!(parse_u64(&[]), None);
    assert_eq!(parse_u64(&['1', 'x']), None);
}

#[test]
fn storing_a_summary_drops_repeats_and_keeps_the_newest() {
    // Newest first.
    let known = [
        memory("fact", "喜欢乌龙茶。"),
        memory("fact", "叫他小李"),
        memory("fact", "喜欢 乌龙茶！"),
        memory("summary", "聊了搬家"),
    ];
    assert_eq!(repeated_facts(&known), ["fact-喜欢 乌龙茶！"]);
    assert_eq!(fact_key_exec("喜欢 乌龙茶！"), fact_key_exec("喜欢乌龙茶。"));
    assert_eq!(fact_key_exec("Likes Tea"), "likestea".chars().collect::<Vec<_>>());

    let revised = [FactRevision { index: 1, text: "叫他李哥".into() }, FactRevision { index: 9, text: "gone".into() }];
    assert_eq!(rewordings(&known, &revised), [("fact-叫他小李".to_string(), "叫他李哥".to_string())]);
    assert_eq!(new_facts(&["  养了一只猫 ".to_string(), "  ".to_string()]), ["养了一只猫"]);
}

#[test]
fn titles_come_back_clean() {
    assert_eq!(clean_title("  「搬家计划」\n第二行"), "搬家计划");
    assert_eq!(clean_title(&"字".repeat(50)).chars().count(), 40);
    assert_eq!(title_from_response("“周末爬山”").expect("a title"), "周末爬山");
    assert!(matches!(title_from_response("  \n"), Err(MemoryError::NoTitle { .. })));
}

fn prompt(invite: bool, memory: Option<&str>, recent: Option<&str>) -> String {
    build_instructions(&CharacterPrompt {
        name: "小柔",
        persona: "爱聊天",
        language: "zh",
        speech_habits: "句子短",
        memory_block: memory,
        recent_turns: recent,
        invite_open_loop: invite,
    })
}

#[test]
fn contract_replaces_the_style_checklist() {
    let text = prompt(false, None, None);
    assert!(text.contains("一轮只做一件事"));
    assert!(text.contains("不要每轮都以问句结尾"));
    assert!(!text.contains("对方还没开口"));
    assert!(!text.contains("[刚才说到]"));
    assert!(!text.contains("我记得你"));
}

#[test]
fn memory_is_labeled_as_not_for_reciting_and_can_invite() {
    let quiet = prompt(false, Some("未完话题：面试结果还没问"), None);
    assert!(quiet.contains("不要说「我记得你」"));
    assert!(!quiet.contains("对方还没开口"));

    let invited = prompt(true, Some("未完话题：面试结果还没问"), None);
    assert!(invited.contains("对方还没开口的这一轮"));
    assert!(invited.find("[长期记忆]").unwrap() < invited.find("对方还没开口").unwrap());
}

#[test]
fn japanese_contract_is_japanese_and_the_lock_is_last() {
    let text = build_instructions(&CharacterPrompt {
        name: "小柔",
        persona: "爱聊天",
        language: "ja",
        speech_habits: "句子短",
        memory_block: Some("未完话题：面试"),
        recent_turns: Some("用户：你好"),
        invite_open_loop: false,
    });
    assert!(text.contains("常に日本語で答えてください"));
    assert!(text.contains("[通話]"));
    assert!(!text.contains("你在打电话"));
    assert!(text.contains("【言語固定】"));
    assert!(text.rfind("【言語固定】").unwrap() > text.rfind("[長期記憶]").unwrap());
    assert!(text.ends_with("常に日本語で答えてください\n"));
}

#[test]
fn the_time_goes_in_as_given() {
    let p = CharacterPrompt {
        name: "Emma",
        persona: "a coach",
        language: "en",
        speech_habits: "",
        memory_block: None,
        recent_turns: None,
        invite_open_loop: false,
    };
    let text = instructions_at(&p, "2026-01-01 10:00 Thursday");
    assert!(text.contains("[Now]"));
    assert!(text.contains("2026-01-01 10:00 Thursday"));
    assert!(text.contains("Always respond in English"));
}

#[test]
fn recent_turns_keep_the_tail_in_order_and_drop_blanks() {
    let text = format_recent_turns(
        "小柔",
        &[
            ("user", "一"),
            ("assistant", ""),
            ("user", "二"),
            ("assistant", "三"),
            ("user", "四"),
            ("assistant", "五"),
            ("user", "六"),
            ("assistant", "七"),
        ],
    )
    .expect("tail");
    assert_eq!(text, "用户：二\n小柔：三\n用户：四\n小柔：五\n用户：六\n小柔：七");
    let long = "啊".repeat(200);
    let clipped = format_recent_turns("小柔", &[("user", &long)]).unwrap();
    assert_eq!(clipped.chars().count(), "用户：".chars().count() + RECENT_TURN_CHARS);
    assert_eq!(format_recent_turns("小柔", &[("user", "  ")]), None);
}

#[test]
fn a_segment_is_translated_with_what_came_before_it() {
    let first = translation_prompt(Lang::En, "");
    assert_eq!(
        first,
        "Translate the subtitle line the user sends into English. Output only the translation itself, with no quotes, labels, or explanation."
    );
    let later = translation_prompt(Lang::Zh, "你好。");
    assert!(later.starts_with("Translate the subtitle line the user sends into Simplified Chinese."));
    assert!(later.ends_with("\n<earlier>你好。</earlier>"));
    assert_eq!(translated_segment(1, Lang::En, " Fine. "), " Fine.");
    assert_eq!(translated_segment(0, Lang::En, " Fine. "), "Fine.");
    assert_eq!(translated_segment(1, Lang::Zh, " 好。 "), "好。");
    assert!(!should_translate("zh", Lang::Zh));
    assert!(should_translate("auto", Lang::Zh));
}

#[test]
fn memory_off_stays_off() {
    let mut t = Turn::new(true, false, false);
    let r = t.handle_command(SessionCommand::SetRecording(true));
    assert!(!t.recording);
    assert!(r.effects.is_empty());
    let mut on = Turn::new(true, true, true);
    on.handle_command(SessionCommand::SetRecording(false));
    assert!(!on.recording);
    let after = after_disconnect(&Disconnect::Rolling, t.recording, t.is_talking, 1_000);
    assert_eq!(after.fate, ConversationFate::Carry { summarize: false });
}

#[test]
fn stored_memories_are_sorted_for_the_summarizer() {
    let stored = vec![
        memory("fact", "likes tea"),
        memory("summary", "first summary"),
        memory("open_loop", "the trip"),
        memory("profile", "a student"),
        memory("summary", "older summary"),
        memory("fact", "lives in Osaka"),
    ];
    let sorted = sort_stored(&stored);
    assert_eq!(sorted.previous_summary.as_deref(), Some("first summary"));
    assert_eq!(sorted.known_texts, vec!["likes tea".to_string(), "lives in Osaka".to_string()]);
    assert_eq!(sorted.known_facts.len(), 2);
    assert_eq!(sorted.previous_loops, vec!["the trip".to_string()]);
    assert!(sort_stored(&[]).previous_summary.is_none());
}

#[test]
fn a_successful_connect_resets_the_backoff() {
    let b = Backoff::new();
    let (b, first) = b.connect_failed();
    let (b, second) = b.connect_failed();
    assert_eq!((first, second), (1_000, 2_000));
    assert!(b.auto);
    let b = b.connected();
    let (_, wait) = b.connect_failed();
    assert_eq!(wait, 1_000);
    let (_, after) = Backoff::new().disconnected(&Disconnect::Shutdown, true, true);
    assert_eq!(after.next, Next::Stop);
}

#[test]
fn the_time_line_has_the_clock_shape() {
    let text = prompt(false, None, None);
    let weekdays = ["Monday", "Tuesday", "Wednesday", "Thursday", "Friday", "Saturday", "Sunday"];
    let line = text
        .lines()
        .find(|l| weekdays.iter().any(|w| l.ends_with(&format!(" {w}"))))
        .expect("a line ending in a weekday");
    let parts: Vec<&str> = line.rsplitn(3, ' ').collect();
    let clock = parts[1].as_bytes();
    assert_eq!(clock.len(), 5);
    assert_eq!(clock[2], b':');
    let date = parts[2].rsplit(' ').next().unwrap().as_bytes();
    let n = date.len();
    assert!(n >= 10, "{line}");
    assert_eq!(date[n - 3], b'-');
    assert_eq!(date[n - 6], b'-');
    assert!(date[n - 2..].iter().chain(&date[n - 5..n - 3]).all(u8::is_ascii_digit));
}
