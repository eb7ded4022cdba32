use base64::Engine;
use voicechat::avatar::{self, decode_data_url, is_valid_name, to_data_url, Format};
use voicechat::dashscope::{host, is_valid_workspace_id, snippet, DEFAULT_REGION, SNIPPET_CHARS};
use voicechat::i18n::Lang;
use voicechat::subtitle::{segment_end, SOFT_CUT_CHARS};
use voicechat::voice::clone::{MAX_RECORD_SECS, TARGET_HZ};
use voicechat::voice::sample;

const PNG: &[u8] = b"\x89PNG\r\n\x1a\n\0\0\0\rIHDR";
const WEBP: &[u8] = b"RIFF\x24\0\0\0WEBPVP8 ";
const WAV: &[u8] = b"RIFF\x24\0\0\0WAVEfmt ";

#[test]
fn mod_tells_formats_apart_by_their_bytes() {
    assert_eq!(Format::sniff(PNG), Some(Format::Png));
    assert_eq!(Format::sniff(&[0xFF, 0xD8, 0xFF, 0xE0]), Some(Format::Jpeg));
    assert_eq!(Format::sniff(WEBP), Some(Format::Webp));
    assert_eq!(Format::sniff(b"GIF89a"), None);
    assert_eq!(Format::sniff(b"<svg"), None);
    assert_eq!(Format::sniff(b""), None);
}

#[test]
fn only_minted_names_count() {
    assert!(is_valid_name("0f8fad5b-d9cb-469f-a165-70867728950e.png"));
    assert!(is_valid_name("0f8fad5b-d9cb-469f-a165-70867728950e.webp"));
    for bad in [
        "",
        "avatar.png",
        "0f8fad5b-d9cb-469f-a165-70867728950e",
        "0f8fad5b-d9cb-469f-a165-70867728950e.gif",
        "0F8FAD5B-D9CB-469F-A165-70867728950E.png",
        "0f8fad5bd9cb469fa16570867728950e.png",
        "../0f8fad5b-d9cb-469f-a165-70867728950e.png",
        "urn:uuid:0f8fad5b-d9cb-469f-a165-70867728950e.png",
        "0f8fad5b-d9cb-469f-a165-70867728950e.png/../../x",
        "C:\\0f8fad5b-d9cb-469f-a165-70867728950e.png",
    ] {
        assert!(!is_valid_name(bad), "{bad:?} must not be taken as an avatar name");
    }
}

#[test]
fn decodes_data_urls() {
    let url = to_data_url(PNG, Format::Png);
    assert_eq!(decode_data_url(&url).expect("decode"), PNG);
    assert!(decode_data_url("data:image/png,rawtext").is_err());
    assert!(decode_data_url("https://example.com/a.png").is_err());
}

#[test]
fn a_minted_avatar_name_is_valid_and_fresh() {
    let name = avatar::mint_name(Format::Webp);
    assert!(is_valid_name(&name));
    assert!(name.ends_with(".webp"));
    assert_ne!(name, avatar::mint_name(Format::Webp), "a new picture always gets a new name");
}

#[test]
fn base64_is_the_standard_padded_form() {
    for (bytes, text) in [
        (&b""[..], ""),
        (b"f", "Zg=="),
        (b"fo", "Zm8="),
        (b"foo", "Zm9v"),
        (b"foobar", "Zm9vYmFy"),
        (&[0xfb, 0xff, 0xbf][..], "+/+/"),
    ] {
        assert_eq!(avatar::encode(bytes), text);
        assert_eq!(avatar::decode(text).expect("decode"), bytes);
    }
}

#[test]
fn a_data_url_carries_the_mime_and_base64_body() {
    assert_eq!(to_data_url(b"hi", Format::Png), "data:image/png;base64,aGk=");
    assert_eq!(avatar::encode(b"hi"), "aGk=");
    assert_eq!(avatar::decode("aGk=").expect("decode"), b"hi");
    assert!(avatar::decode("not base64!").is_err());
}

#[test]
fn bad_base64_is_reported_in_the_decoders_words() {
    for text in ["not base64!", "aGk", "aGl=", "aGk=="] {
        let expected = base64::engine::general_purpose::STANDARD.decode(text).unwrap_err().to_string();
        let err = avatar::decode(text).unwrap_err();
        assert_eq!(err.message(Lang::En), expected);
        assert_eq!(err.message(Lang::Zh), expected);
    }
    let malformed = decode_data_url("https://example.com/a.png").unwrap_err();
    assert_eq!(malformed.message(Lang::En), "Not an image data URL");
}

#[test]
fn avatar_pictures_are_checked_before_they_are_kept() {
    assert_eq!(avatar::check_picture(PNG), Ok(Format::Png));
    assert_eq!(avatar::check_picture(b"<svg onload=alert(1)>"), Err(avatar::SaveError::NotAnImage));
    let big = vec![0xFFu8; avatar::MAX_BYTES + 1];
    assert_eq!(avatar::check_picture(&big), Err(avatar::SaveError::TooLarge));
}

#[test]
fn the_sweep_keeps_what_is_referenced_and_foreign_files() {
    let kept = avatar::mint_name(Format::Png);
    let orphan = avatar::mint_name(Format::Png);
    let keep = vec![kept.clone()];
    assert!(!avatar::swept(&kept, &keep));
    assert!(avatar::swept(&orphan, &keep));
    assert!(!avatar::swept("notes.txt", &keep));
}

#[test]
fn only_a_stored_picture_is_served() {
    assert_eq!(avatar::served_name("/abc.png"), "abc.png");
    assert_eq!(Format::from_ext("png"), Some(Format::Png));
    assert_eq!(Format::from_ext("gif"), None);
    assert_eq!(Format::Png.mime(), "image/png");
    assert!(!is_valid_name(&avatar::served_name("/../voicechat.db")));
}

#[test]
fn snippet_keeps_short_bodies_and_cuts_long_ones() {
    assert_eq!(snippet("  {\"error\":\"bad key\"}  ", Lang::En), "{\"error\":\"bad key\"}");

    let long = "x".repeat(SNIPPET_CHARS * 3);
    let cut = snippet(&long, Lang::En);
    assert!(cut.chars().count() < long.chars().count());
    assert!(cut.starts_with(&"x".repeat(SNIPPET_CHARS)));
    assert!(!cut.contains(&"x".repeat(SNIPPET_CHARS + 1)));
    assert!(cut.ends_with("… (truncated, 1500 characters in total)"));
    assert!(snippet(&long, Lang::Zh).ends_with("…（已截断，共 1500 个字符）"));
}

#[test]
fn accepts_the_shape_real_workspace_ids_have() {
    assert!(is_valid_workspace_id("llm-0a1b2c3d4e5f"));
    assert!(is_valid_workspace_id("ws_123"));
    assert!(!is_valid_workspace_id(""));
    assert!(!is_valid_workspace_id(&"a".repeat(65)));
}

#[test]
fn rejects_anything_that_could_terminate_the_host() {
    for hostile in [
        "evil.com/#",
        "evil.com/",
        "attacker.io/x?",
        "x@evil.com",
        "evil.com:8443",
        "evil.com\\x",
        "a b",
    ] {
        assert!(
            !is_valid_workspace_id(hostile),
            "{hostile:?} must not be accepted as a workspace id"
        );
    }
}

#[test]
fn a_rejected_workspace_id_never_reaches_the_hostname() {
    assert_eq!(
        host(Some("evil.com/#"), Some("cn-beijing")),
        "dashscope.aliyuncs.com",
        "a malformed id must fall back to the shared domain, not be interpolated"
    );
    assert_eq!(host(Some("evil.com/#"), Some("ap-southeast-1")), "dashscope-intl.aliyuncs.com");
}

#[test]
fn an_unknown_region_falls_back_to_the_default() {
    assert_eq!(
        host(Some("llm-abc"), Some("evil.com/#")),
        format!("llm-abc.{DEFAULT_REGION}.maas.aliyuncs.com")
    );
    assert_eq!(host(None, Some("us-east-1")), "dashscope.aliyuncs.com");
}

#[test]
fn still_builds_the_endpoints_it_is_supposed_to() {
    assert_eq!(host(None, None), "dashscope.aliyuncs.com");
    assert_eq!(host(None, Some("")), "dashscope.aliyuncs.com");
    assert_eq!(host(None, Some("ap-southeast-1")), "dashscope-intl.aliyuncs.com");
    assert_eq!(host(Some("llm-abc"), Some("ap-southeast-1")), "llm-abc.ap-southeast-1.maas.aliyuncs.com");
}

#[test]
fn an_empty_workspace_id_is_no_workspace_id() {
    assert_eq!(host(Some(""), Some("ap-southeast-1")), "dashscope-intl.aliyuncs.com");
}

fn cut(tail: &str) -> Option<&str> {
    segment_end(tail).map(|end| &tail[..end])
}

#[test]
fn cuts_after_the_last_finished_sentence() {
    assert_eq!(cut("你好。今天天气不错！我们"), Some("你好。今天天气不错！"));
    assert_eq!(cut("Hello there. How are you? I"), Some("Hello there. How are you?"));
}

#[test]
fn the_cut_is_the_last_one_allowed() {
    assert_eq!(cut("One. Two. Three"), Some("One. Two."));
    assert_eq!(cut("一。二。三。"), Some("一。二。"));
    assert_eq!(cut("Mixed 好。x.y"), Some("Mixed 好。"));
}

#[test]
fn waits_for_what_follows_the_punctuation() {
    assert_eq!(cut("你好。"), None);
    assert_eq!(cut("It costs 3."), None);
    assert_eq!(cut("It costs 3.14 dollars"), None);
}

#[test]
fn keeps_closing_quotes_and_stacked_punctuation_with_their_sentence() {
    assert_eq!(cut("他说：「好。」然后"), Some("他说：「好。」"));
    assert_eq!(cut("真的吗？！我不信"), Some("真的吗？！"));
    assert_eq!(cut("She said \"hi.\" Then"), Some("She said \"hi.\""));
}

#[test]
fn cuts_long_runs_at_a_comma_but_not_short_ones() {
    assert_eq!(cut("短句，接着"), None);
    let long = format!("{}，接着", "长".repeat(SOFT_CUT_CHARS));
    let expected = format!("{}，", "长".repeat(SOFT_CUT_CHARS));
    assert_eq!(cut(&long), Some(expected.as_str()));
    assert_eq!(cut(&format!("{} 1,000", "x".repeat(SOFT_CUT_CHARS))), None);
}

#[test]
fn a_recording_at_the_cap_fits_in_a_kept_sample() {
    let at_cap = MAX_RECORD_SECS as usize * TARGET_HZ as usize * 2 + 44;
    assert!(at_cap < sample::MAX_BYTES, "{at_cap}");
}

#[test]
fn sample_tells_formats_apart_by_their_bytes() {
    assert_eq!(sample::Format::sniff(WAV), Some(sample::Format::Wav));
    assert_eq!(sample::Format::sniff(b"ID3\x04\0\0\0\0\0\0"), Some(sample::Format::Mp3));
    assert_eq!(sample::Format::sniff(&[0xFF, 0xFB, 0x90, 0x64]), Some(sample::Format::Mp3));
    assert_eq!(sample::Format::sniff(b"\0\0\0\x20ftypM4A "), Some(sample::Format::M4a));
    assert_eq!(sample::Format::sniff(b"fLaC\0\0\0\x22"), Some(sample::Format::Flac));
    assert_eq!(sample::Format::sniff(b"OggS\0\x02\0\0"), Some(sample::Format::Ogg));
    let opus = b"OggS\0\x02\0\0\0\0\0\0\0\0\0\0\0\0\0\0\0\0\0\0\0\0\x01\x13OpusHead";
    assert_eq!(sample::Format::sniff(opus), Some(sample::Format::Ogg));
    assert_eq!(sample::Format::sniff(&[0xFF, 0xF1, 0x50, 0x80]), Some(sample::Format::Aac));
    let webm = b"\x1A\x45\xDF\xA3\x9F\x42\x86\x81\x01\x42\x82\x84webm\x42\x87\x81\x04";
    assert_eq!(sample::Format::sniff(webm), Some(sample::Format::Webm));

    assert_eq!(sample::Format::sniff(b"ID3\x04\0\0\0\0\0\x02\0\0fLaC"), Some(sample::Format::Flac));
    assert_eq!(sample::Format::sniff(b"ID3\x04\0\0\0\0\0\0\xFF\xF1\x50\x80"), Some(sample::Format::Aac));
    assert_eq!(sample::Format::sniff(b"ID3\x04\0\0\0\0\0\0\xFF\xFB\x90\x64"), Some(sample::Format::Mp3));

    assert_eq!(sample::Format::sniff(b"RIFF\x24\0\0\0WEBPVP8 "), None, "a WebP image");
    assert_eq!(sample::Format::sniff(b"FORM\0\0\0\x24AIFFCOMM"), None, "AIFF, which cloning refuses");
    let matroska = b"\x1A\x45\xDF\xA3\xA3\x42\x86\x81\x01\x42\x82\x88matroska";
    assert_eq!(sample::Format::sniff(matroska), None, "Matroska that isn't WebM");
    assert_eq!(sample::Format::sniff(b"\x89PNG\r\n\x1a\n"), None);
    assert_eq!(sample::Format::sniff(b""), None);
}

#[test]
fn samples_travel_as_data_urls_and_names_are_minted() {
    let url = sample::to_data_url(WAV, sample::Format::Wav);
    assert!(url.starts_with("data:audio/wav;base64,"));
    assert_eq!(sample::from_data_url(&url), Some(WAV.to_vec()));
    assert_eq!(sample::from_data_url("https://example.com/voice.wav"), None);
    let name = sample::mint_name(sample::Format::Wav);
    assert!(sample::is_valid_name(&name));
    assert!(name.ends_with(".wav"));
    assert!(!sample::is_valid_name("../voicechat.db"));
    assert!(!sample::is_valid_name("sample.wav"));
    assert!(!sample::is_valid_name("0f8fad5b-d9cb-469f-a165-70867728950e.png"));
}

#[test]
fn a_sample_is_checked_before_it_is_kept() {
    assert_eq!(sample::check_sample(WAV), Ok(sample::Format::Wav));
    assert_eq!(sample::check_sample(b"<svg onload=alert(1)>"), Err(sample::SaveError::UnknownFormat));
}

#[test]
fn replacing_a_sample_hands_back_the_file_let_go_of() {
    assert_eq!(sample::replaced_file(Some("a.wav".to_string()), "b.wav"), Some("a.wav".to_string()));
    assert_eq!(sample::replaced_file(Some("b.wav".to_string()), "b.wav"), None);
    assert_eq!(sample::replaced_file(None, "c.wav"), None);
}

#[test]
fn a_refused_sample_says_why() {
    assert_eq!(
        sample::SaveError::TooLarge.message(Lang::En),
        "That recording is too large to keep (the limit is 10 MB)"
    );
    assert_eq!(
        sample::SaveError::UnknownFormat.message(Lang::En),
        "Only WAV, MP3, M4A, FLAC, OGG, AAC or WebM recordings can be kept"
    );
    assert_eq!(sample::SaveError::TooLarge.message(Lang::Zh), "音频太大，无法保存（上限 10 MB）");
}

#[test]
fn a_stored_picture_is_served_with_its_type_and_anything_else_is_a_404() {
    let png = b"\x89PNG\r\n\x1a\n\0\0\0\rIHDR".to_vec();
    let found = avatar::serve_response(Some((png.clone(), Format::Png)));
    assert_eq!(found.status, 200);
    assert_eq!(found.content_type, Some("image/png"));
    assert_eq!(found.cache_control, Some(avatar::CACHE_CONTROL));
    assert_eq!(found.body, png);
    let missing = avatar::serve_response(None);
    assert_eq!(missing.status, 404);
    assert_eq!(missing.content_type, None);
    assert!(missing.body.is_empty());
}
