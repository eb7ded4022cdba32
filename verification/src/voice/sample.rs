//! The audio a custom voice was cloned from: which formats can be kept, told
//! apart by their bytes, and the names samples are stored under (minted the
//! same way as avatars). Reading and writing the files is the app's.

use vstd::prelude::*;

use crate::avatar::{
    data_url, has_prefix, has_prefix_exec, holds_at, holds_at_exec, spec_decode_data_url,
    split_at_dot, spec_is_minted_stem, split_once_dot, is_minted_stem, DataErrorV,
};
use crate::encoding::{base64_encode, well_encoded};
use crate::i18n::{tr, Lang};
use crate::text::{chars_of, decimal, extend_str, push_decimal, str_eq, string_of};

verus! {

pub const DIR_NAME: &'static str = "voice_samples";

/// Comfortably above the 10–20 seconds of speech voice enrollment asks for,
/// and above the in-app recorder's longest take.
pub const MAX_BYTES: usize = 10 * 1024 * 1024;

/// The formats voice enrollment clones from, whatever the codec or bit
/// depth inside. AIFF, WMA and AMR it turns away.
#[derive(Clone, Copy, Debug, PartialEq, Eq, Structural)]
pub enum Format {
    Wav,
    Mp3,
    M4a,
    Flac,
    Ogg,
    Aac,
    Webm,
}

pub open spec fn spec_names(lang: Lang) -> Seq<char> {
    tr(lang, "WAV, MP3, M4A, FLAC, OGG, AAC or WebM"@, "WAV、MP3、M4A、FLAC、OGG、AAC 或 WebM"@)
}

/// The formats as messages list them.
pub fn names(lang: Lang) -> (r: &'static str)
    ensures
        r@ == spec_names(lang),
{
    match lang {
        Lang::En => "WAV, MP3, M4A, FLAC, OGG, AAC or WebM",
        Lang::Zh => "WAV、MP3、M4A、FLAC、OGG、AAC 或 WebM",
    }
}

/// `ID3`.
pub open spec fn id3() -> Seq<u8> {
    seq![0x49u8, 0x44, 0x33]
}

/// The size an ID3v2 header gives its tag: four bytes of seven bits each.
pub open spec fn id3_size(h: Seq<u8>) -> nat {
    ((h[6] % 128) as nat) * 2097152 + ((h[7] % 128) as nat) * 16384 + ((h[8] % 128) as nat) * 128
        + (h[9] % 128) as nat
}

/// What follows an ID3v2 tag at the start of `b`, if one is there — empty
/// when the tag runs to the end (or the header itself is cut short). The
/// tag is its ten-byte header, the size the header gives, and a footer as
/// long as the header when flag bit 4 is set.
pub open spec fn spec_after_id3(b: Seq<u8>) -> Option<Seq<u8>> {
    if !has_prefix(b, id3()) {
        None
    } else if b.len() < 10 {
        Some(Seq::<u8>::empty())
    } else {
        let footer: nat = if b[5] & 0x10 != 0 { 10 } else { 0 };
        let start = 10 + id3_size(b) + footer;
        if start <= b.len() {
            Some(b.skip(start as int))
        } else {
            Some(Seq::<u8>::empty())
        }
    }
}

pub fn after_id3(bytes: &[u8]) -> (r: Option<&[u8]>)
    ensures
        match r {
            Some(rest) => spec_after_id3(bytes@) == Some(rest@),
            None => spec_after_id3(bytes@) is None,
        },
{
    let tag: [u8; 3] = [0x49u8, 0x44, 0x33];
    assert(tag@ =~= id3());
    if !has_prefix_exec(bytes, &tag) {
        return None;
    }
    let empty: &[u8] = &bytes[0..0];
    assert(empty@ =~= Seq::<u8>::empty());
    if bytes.len() < 10 {
        return Some(empty);
    }
    let size: usize = (bytes[6] % 128) as usize * 2097152 + (bytes[7] % 128) as usize * 16384 + (
    bytes[8] % 128) as usize * 128 + (bytes[9] % 128) as usize;
    let footer: usize = if bytes[5] & 0x10 != 0 {
        10
    } else {
        0
    };
    let start = 10 + size + footer;
    if start <= bytes.len() {
        let rest = &bytes[start..bytes.len()];
        assert(rest@ =~= bytes@.skip(start as int));
        Some(rest)
    } else {
        Some(empty)
    }
}

/// `webm`.
pub open spec fn webm_tag() -> Seq<u8> {
    seq![0x77u8, 0x65, 0x62, 0x6D]
}

/// The EBML magic number.
pub open spec fn ebml() -> Seq<u8> {
    seq![0x1Au8, 0x45, 0xDF, 0xA3]
}

/// An EBML header naming WebM as its document type within its first 64
/// bytes. Matroska proper starts the same way but isn't taken for WebM.
pub open spec fn spec_is_webm(b: Seq<u8>) -> bool {
    &&& has_prefix(b, ebml())
    &&& exists|i: int| 4 <= i && i + 4 <= 64 && #[trigger] holds_at(b, i, webm_tag())
}

pub fn is_webm(bytes: &[u8]) -> (r: bool)
    ensures
        r == spec_is_webm(bytes@),
{
    let magic: [u8; 4] = [0x1Au8, 0x45, 0xDF, 0xA3];
    let tag: [u8; 4] = [0x77u8, 0x65, 0x62, 0x6D];
    assert(magic@ =~= ebml());
    assert(tag@ =~= webm_tag());
    if !has_prefix_exec(bytes, &magic) {
        return false;
    }
    let mut i: usize = 4;
    while i + 4 <= 64
        invariant
            4 <= i <= 61,
            tag@ == webm_tag(),
            has_prefix(bytes@, ebml()),
            forall|k: int| 4 <= k < i ==> !holds_at(bytes@, k, webm_tag()),
        decreases 64 - i,
    {
        if holds_at_exec(bytes, i, &tag) {
            assert(4 <= i && i + 4 <= 64 && holds_at(bytes@, i as int, webm_tag()));
            assert(has_prefix(bytes@, ebml()));
            assert(spec_is_webm(bytes@));
            return true;
        }
        i += 1;
    }
    false
}

/// `RIFF`, `WAVE`, `ftyp`, `fLaC`, `OggS`.
pub open spec fn riff() -> Seq<u8> {
    seq![0x52u8, 0x49, 0x46, 0x46]
}

pub open spec fn wave() -> Seq<u8> {
    seq![0x57u8, 0x41, 0x56, 0x45]
}

pub open spec fn ftyp() -> Seq<u8> {
    seq![0x66u8, 0x74, 0x79, 0x70]
}

pub open spec fn flac() -> Seq<u8> {
    seq![0x66u8, 0x4C, 0x61, 0x43]
}

pub open spec fn oggs() -> Seq<u8> {
    seq![0x4Fu8, 0x67, 0x67, 0x53]
}

/// MP3 frames and AAC's ADTS frames share their sync bits.
pub open spec fn frame_sync(b: Seq<u8>) -> bool {
    b.len() >= 2 && b[0] == 0xFF && b[1] & 0xE0 == 0xE0
}

/// The format of bytes with no ID3 tag in front.
pub open spec fn spec_sniff_untagged(b: Seq<u8>) -> Option<Format> {
    if b.len() >= 12 && holds_at(b, 0, riff()) && holds_at(b, 8, wave()) {
        Some(Format::Wav)
    } else if frame_sync(b) && b[1] & 0x06 != 0 {
        Some(Format::Mp3)
    } else if frame_sync(b) && b[1] & 0xF6 == 0xF0 {
        Some(Format::Aac)
    } else if b.len() >= 8 && holds_at(b, 4, ftyp()) {
        Some(Format::M4a)
    } else if has_prefix(b, flac()) {
        Some(Format::Flac)
    } else if has_prefix(b, oggs()) {
        Some(Format::Ogg)
    } else if spec_is_webm(b) {
        Some(Format::Webm)
    } else {
        None
    }
}

/// The format of a sample, by its bytes. An ID3 tag says nothing about what
/// follows it: usually MP3, but FLAC and AAC carry them too.
pub open spec fn spec_sniff(b: Seq<u8>) -> Option<Format> {
    match spec_after_id3(b) {
        Some(rest) => match spec_sniff_untagged(rest) {
            Some(Format::Flac) => Some(Format::Flac),
            Some(Format::Aac) => Some(Format::Aac),
            _ => Some(Format::Mp3),
        },
        None => spec_sniff_untagged(b),
    }
}

pub open spec fn spec_ext(f: Format) -> Seq<char> {
    match f {
        Format::Wav => "wav"@,
        Format::Mp3 => "mp3"@,
        Format::M4a => "m4a"@,
        Format::Flac => "flac"@,
        Format::Ogg => "ogg"@,
        Format::Aac => "aac"@,
        Format::Webm => "webm"@,
    }
}

pub open spec fn spec_from_ext(ext: Seq<char>) -> Option<Format> {
    if ext == "wav"@ {
        Some(Format::Wav)
    } else if ext == "mp3"@ {
        Some(Format::Mp3)
    } else if ext == "m4a"@ {
        Some(Format::M4a)
    } else if ext == "flac"@ {
        Some(Format::Flac)
    } else if ext == "ogg"@ {
        Some(Format::Ogg)
    } else if ext == "aac"@ {
        Some(Format::Aac)
    } else if ext == "webm"@ {
        Some(Format::Webm)
    } else {
        None
    }
}

pub open spec fn spec_mime(f: Format) -> Seq<char> {
    match f {
        Format::Wav => "audio/wav"@,
        Format::Mp3 => "audio/mpeg"@,
        Format::M4a => "audio/mp4"@,
        Format::Flac => "audio/flac"@,
        Format::Ogg => "audio/ogg"@,
        Format::Aac => "audio/aac"@,
        Format::Webm => "audio/webm"@,
    }
}

impl Format {
    /// Decided by the bytes, never by the type a `data:` URL declares.
    pub fn sniff(bytes: &[u8]) -> (r: Option<Format>)
        ensures
            r == spec_sniff(bytes@),
    {
        match after_id3(bytes) {
            Some(rest) => match Format::sniff_untagged(rest) {
                Some(Format::Flac) => Some(Format::Flac),
                Some(Format::Aac) => Some(Format::Aac),
                _ => Some(Format::Mp3),
            },
            None => Format::sniff_untagged(bytes),
        }
    }

    pub fn sniff_untagged(bytes: &[u8]) -> (r: Option<Format>)
        ensures
            r == spec_sniff_untagged(bytes@),
    {
        let riff_tag: [u8; 4] = [0x52u8, 0x49, 0x46, 0x46];
        let wave_tag: [u8; 4] = [0x57u8, 0x41, 0x56, 0x45];
        let ftyp_tag: [u8; 4] = [0x66u8, 0x74, 0x79, 0x70];
        let flac_tag: [u8; 4] = [0x66u8, 0x4C, 0x61, 0x43];
        let ogg_tag: [u8; 4] = [0x4Fu8, 0x67, 0x67, 0x53];
        assert(riff_tag@ =~= riff());
        assert(wave_tag@ =~= wave());
        assert(ftyp_tag@ =~= ftyp());
        assert(flac_tag@ =~= flac());
        assert(ogg_tag@ =~= oggs());
        let sync = bytes.len() >= 2 && bytes[0] == 0xFF && bytes[1] & 0xE0 == 0xE0;
        if bytes.len() >= 12 && holds_at_exec(bytes, 0, &riff_tag) && holds_at_exec(
            bytes,
            8,
            &wave_tag,
        ) {
            Some(Format::Wav)
        } else if sync && bytes[1] & 0x06 != 0 {
            Some(Format::Mp3)
        } else if sync && bytes[1] & 0xF6 == 0xF0 {
            Some(Format::Aac)
        } else if bytes.len() >= 8 && holds_at_exec(bytes, 4, &ftyp_tag) {
            Some(Format::M4a)
        } else if has_prefix_exec(bytes, &flac_tag) {
            Some(Format::Flac)
        } else if has_prefix_exec(bytes, &ogg_tag) {
            Some(Format::Ogg)
        } else if is_webm(bytes) {
            Some(Format::Webm)
        } else {
            None
        }
    }

    pub fn ext(self) -> (r: &'static str)
        ensures
            r@ == spec_ext(self),
    {
        match self {
            Format::Wav => "wav",
            Format::Mp3 => "mp3",
            Format::M4a => "m4a",
            Format::Flac => "flac",
            Format::Ogg => "ogg",
            Format::Aac => "aac",
            Format::Webm => "webm",
        }
    }

    pub fn from_ext(ext: &str) -> (r: Option<Format>)
        ensures
            r == spec_from_ext(ext@),
    {
        if str_eq(ext, "wav") {
            Some(Format::Wav)
        } else if str_eq(ext, "mp3") {
            Some(Format::Mp3)
        } else if str_eq(ext, "m4a") {
            Some(Format::M4a)
        } else if str_eq(ext, "flac") {
            Some(Format::Flac)
        } else if str_eq(ext, "ogg") {
            Some(Format::Ogg)
        } else if str_eq(ext, "aac") {
            Some(Format::Aac)
        } else if str_eq(ext, "webm") {
            Some(Format::Webm)
        } else {
            None
        }
    }

    pub fn mime(self) -> (r: &'static str)
        ensures
            r@ == spec_mime(self),
    {
        match self {
            Format::Wav => "audio/wav",
            Format::Mp3 => "audio/mpeg",
            Format::M4a => "audio/mp4",
            Format::Flac => "audio/flac",
            Format::Ogg => "audio/ogg",
            Format::Aac => "audio/aac",
            Format::Webm => "audio/webm",
        }
    }
}

pub fn to_data_url(bytes: &[u8], format: Format) -> (r: String)
    requires
        bytes@.len() <= usize::MAX / 2,
    ensures
        r@ == data_url(spec_mime(format), bytes@),
        well_encoded(bytes@),
        spec_decode_data_url(r@) == Ok::<Seq<u8>, DataErrorV>(bytes@),
{
    let mut v = chars_of("data:");
    extend_str(&mut v, format.mime());
    extend_str(&mut v, ";base64,");
    let e = base64_encode(bytes);
    extend_str(&mut v, e.as_str());
    assert(v@ =~= data_url(spec_mime(format), bytes@));
    proof {
        lemma_mime_has_no_comma(format);
        crate::avatar::lemma_data_url_decodes(spec_mime(format), bytes@);
    }
    string_of(&v)
}

proof fn lemma_mime_has_no_comma(format: Format)
    ensures
        forall|k: int| 0 <= k < spec_mime(format).len() ==> #[trigger] spec_mime(format)[k] != ',',
{
    match format {
        Format::Wav => reveal_strlit("audio/wav"),
        Format::Mp3 => reveal_strlit("audio/mpeg"),
        Format::M4a => reveal_strlit("audio/mp4"),
        Format::Flac => reveal_strlit("audio/flac"),
        Format::Ogg => reveal_strlit("audio/ogg"),
        Format::Aac => reveal_strlit("audio/aac"),
        Format::Webm => reveal_strlit("audio/webm"),
    }
}

/// The bytes of a `data:…;base64,…` URL, if they are a sample this module
/// can keep: within `MAX_BYTES` and in one of the formats.
pub open spec fn spec_from_data_url(url: Seq<char>) -> Option<Seq<u8>> {
    match spec_decode_data_url(url) {
        Ok(b) => if b.len() <= MAX_BYTES && spec_sniff(b) is Some {
            Some(b)
        } else {
            None
        },
        Err(_) => None,
    }
}

pub fn from_data_url(url: &str) -> (r: Option<Vec<u8>>)
    ensures
        match r {
            Some(v) => spec_from_data_url(url@) == Some(v@),
            None => spec_from_data_url(url@) is None,
        },
{
    match crate::avatar::decode_data_url(url) {
        Ok(bytes) => if bytes.len() <= MAX_BYTES && Format::sniff(&bytes).is_some() {
            Some(bytes)
        } else {
            None
        },
        Err(_) => None,
    }
}

/// Whether `name` is one `save` could have minted.
pub open spec fn spec_is_valid_name(name: Seq<char>) -> bool {
    match split_at_dot(name) {
        Some((stem, ext)) => spec_is_minted_stem(stem) && spec_from_ext(ext) is Some,
        None => false,
    }
}

pub fn is_valid_name(name: &str) -> (r: bool)
    ensures
        r == spec_is_valid_name(name@),
{
    let v = chars_of(name);
    match split_once_dot(&v) {
        Some((stem, ext)) => {
            if !is_minted_stem(&stem) {
                return false;
            }
            let e = string_of(&ext);
            Format::from_ext(e.as_str()).is_some()
        },
        None => false,
    }
}

/// Why a recording can't be kept as a sample.
#[derive(Clone, Copy, Debug, PartialEq, Eq, Structural)]
pub enum SaveError {
    TooLarge,
    UnknownFormat,
}

pub open spec fn spec_check_sample(bytes: Seq<u8>) -> Result<Format, SaveError> {
    if bytes.len() > MAX_BYTES {
        Err(SaveError::TooLarge)
    } else {
        match spec_sniff(bytes) {
            Some(f) => Ok(f),
            None => Err(SaveError::UnknownFormat),
        }
    }
}

/// What `save` checks before it writes anything. `Ok` carries the format,
/// which names the file.
pub fn check_sample(bytes: &[u8]) -> (r: Result<Format, SaveError>)
    ensures
        r == spec_check_sample(bytes@),
{
    if bytes.len() > MAX_BYTES {
        return Err(SaveError::TooLarge);
    }
    match Format::sniff(bytes) {
        Some(f) => Ok(f),
        None => Err(SaveError::UnknownFormat),
    }
}

pub open spec fn spec_save_error_message(e: SaveError, lang: Lang) -> Seq<char> {
    match e {
        SaveError::TooLarge => tr(
            lang,
            "That recording is too large to keep (the limit is "@ + decimal(10) + " MB)"@,
            "音频太大，无法保存（上限 "@ + decimal(10) + " MB）"@,
        ),
        SaveError::UnknownFormat => tr(
            lang,
            "Only "@ + spec_names(lang) + " recordings can be kept"@,
            "只能保存 "@ + spec_names(lang) + " 格式的音频"@,
        ),
    }
}

impl SaveError {
    pub fn message(&self, lang: Lang) -> (r: String)
        ensures
            r@ == spec_save_error_message(*self, lang),
    {
        let mut v: Vec<char> = Vec::new();
        match self {
            SaveError::TooLarge => match lang {
                Lang::En => {
                    extend_str(&mut v, "That recording is too large to keep (the limit is ");
                    push_decimal(&mut v, (MAX_BYTES / 1_048_576) as u64);
                    extend_str(&mut v, " MB)");
                },
                Lang::Zh => {
                    extend_str(&mut v, "音频太大，无法保存（上限 ");
                    push_decimal(&mut v, (MAX_BYTES / 1_048_576) as u64);
                    extend_str(&mut v, " MB）");
                },
            },
            SaveError::UnknownFormat => match lang {
                Lang::En => {
                    extend_str(&mut v, "Only ");
                    extend_str(&mut v, names(lang));
                    extend_str(&mut v, " recordings can be kept");
                },
                Lang::Zh => {
                    extend_str(&mut v, "只能保存 ");
                    extend_str(&mut v, names(lang));
                    extend_str(&mut v, " 格式的音频");
                },
            },
        }
        assert(v@ =~= spec_save_error_message(*self, lang));
        string_of(&v)
    }
}

/// A name for a new sample file of format `format`.
pub fn mint_name(format: Format) -> (r: String)
    ensures
        spec_is_valid_name(r@),
{
    let stem = crate::encoding::new_uuid_text();
    let mut v = chars_of(stem.as_str());
    extend_str(&mut v, ".");
    extend_str(&mut v, format.ext());
    let r = string_of(&v);
    proof {
        reveal_strlit("wav");
        reveal_strlit("mp3");
        reveal_strlit("m4a");
        reveal_strlit("flac");
        reveal_strlit("ogg");
        reveal_strlit("aac");
        reveal_strlit("webm");
        let ext = spec_ext(format);
        assert(forall|i: int| 0 <= i < ext.len() ==> #[trigger] ext[i] != '.');
        crate::avatar::lemma_minted_name_is_valid(stem@, ext);
        assert(r@ =~= crate::avatar::spec_file_name(stem@, ext));
        lemma_from_ext_of_ext(format);
    }
    r
}

/// Each format's extension reads back as that format.
pub proof fn lemma_from_ext_of_ext(f: Format)
    ensures
        spec_from_ext(spec_ext(f)) == Some(f),
{
    reveal_strlit("wav");
    reveal_strlit("mp3");
    reveal_strlit("m4a");
    reveal_strlit("flac");
    reveal_strlit("ogg");
    reveal_strlit("aac");
    reveal_strlit("webm");
    match f {
        Format::Wav => {},
        Format::Mp3 => {
            assert("mp3"@[0] != "wav"@[0]);
        },
        Format::M4a => {
            assert("m4a"@[0] != "wav"@[0]);
            assert("m4a"@[1] != "mp3"@[1]);
        },
        Format::Flac => {
            assert("flac"@.len() != "wav"@.len());
        },
        Format::Ogg => {
            assert("ogg"@[0] != "wav"@[0]);
            assert("ogg"@[0] != "mp3"@[0]);
            assert("ogg"@[0] != "m4a"@[0]);
        },
        Format::Aac => {
            assert("aac"@[0] != "wav"@[0]);
            assert("aac"@[0] != "mp3"@[0]);
            assert("aac"@[0] != "m4a"@[0]);
            assert("aac"@[0] != "ogg"@[0]);
        },
        Format::Webm => {
            assert("webm"@[0] != "flac"@[0]);
        },
    }
}

/// The file a voice's new sample replaces: its old one, unless that is the
/// same file — nothing points at a replaced file any more.
pub fn replaced_file(old: Option<String>, new: &str) -> (r: Option<String>)
    ensures
        match old {
            Some(o) => if o@ == new@ {
                r is None
            } else {
                r == Some(o)
            },
            None => r is None,
        },
{
    match old {
        Some(o) => if str_eq(o.as_str(), new) {
            None
        } else {
            Some(o)
        },
        None => None,
    }
}

} // verus!
