//! The voice-enrollment service's bookkeeping: which voices exist, which of
//! them the live session can use, and what a response has to hold. The HTTP
//! requests themselves are the app's.

use vstd::prelude::*;

use crate::dashscope::{opt_view, spec_host};
use crate::i18n::{tr, Lang};
use crate::text::{chars_of, extend_str, is_blank_str, starts_with, starts_with_chars, str_eq, string_of};

verus! {

pub const PRESET_VOICES: [&'static str; 5] = [
    "longanqian",
    "longanlingxin",
    "longanlingxi",
    "longanxiaoxin",
    "longanlufeng",
];

pub open spec fn is_preset_voice(id: Seq<char>) -> bool {
    ||| id == "longanqian"@
    ||| id == "longanlingxin"@
    ||| id == "longanlingxi"@
    ||| id == "longanxiaoxin"@
    ||| id == "longanlufeng"@
}

/// Whether `id` is one of the preset voices.
pub fn is_preset(id: &str) -> (r: bool)
    ensures
        r == is_preset_voice(id@),
{
    str_eq(id, "longanqian") || str_eq(id, "longanlingxin") || str_eq(id, "longanlingxi")
        || str_eq(id, "longanxiaoxin") || str_eq(id, "longanlufeng")
}

pub const REALTIME_TARGET_MODEL: &'static str = "qwen-audio-3.0-realtime-flash";

/// What Voice Design enrolls its previews on.
pub const DESIGN_TARGET_MODEL: &'static str = "cosyvoice-v3.5-plus";

/// One custom voice as the service lists it.
#[derive(Clone, Debug)]
pub struct VoiceListEntry {
    pub voice_id: String,
    /// `OK` (usable), `DEPLOYING` (still being reviewed) or `UNDEPLOYED`.
    pub status: Option<String>,
    pub gmt_create: Option<String>,
    /// Only the Qwen series reports this back.
    pub target_model: Option<String>,
}

/// Whether a voice can drive the live session: enrolled on the realtime
/// model. When the service doesn't say which model, the id does, since ids
/// are built as `{target_model}-{prefix}-{hash}`.
pub open spec fn spec_is_realtime(voice_id: Seq<char>, target_model: Option<Seq<char>>) -> bool {
    match target_model {
        Some(m) => if m.len() > 0 {
            m == REALTIME_TARGET_MODEL@
        } else {
            starts_with(voice_id, REALTIME_TARGET_MODEL@)
        },
        None => starts_with(voice_id, REALTIME_TARGET_MODEL@),
    }
}

impl VoiceListEntry {
    /// A field-by-field copy.
    pub fn copy(&self) -> (r: VoiceListEntry)
        ensures
            r == *self,
    {
        VoiceListEntry {
            voice_id: self.voice_id.clone(),
            status: crate::text::copy_opt(&self.status),
            gmt_create: crate::text::copy_opt(&self.gmt_create),
            target_model: crate::text::copy_opt(&self.target_model),
        }
    }

    pub fn is_realtime(&self) -> (r: bool)
        ensures
            r == spec_is_realtime(self.voice_id@, match &self.target_model {
                Some(m) => Some(m@),
                None => None,
            }),
    {
        match &self.target_model {
            Some(m) if m.as_str().unicode_len() > 0 => str_eq(m.as_str(), REALTIME_TARGET_MODEL),
            _ => {
                let id = chars_of(self.voice_id.as_str());
                let prefix = chars_of(REALTIME_TARGET_MODEL);
                starts_with_chars(&id, &prefix)
            },
        }
    }
}

/// Where enrollment requests go, and with what key.
pub struct VoiceService {
    pub api_key: String,
    pub base_url: String,
}

impl VoiceService {
    pub fn new(api_key: String, workspace_id: Option<String>, region: Option<&str>) -> (r:
        VoiceService)
        ensures
            r.api_key == api_key,
            r.base_url@ == "https://"@ + spec_host(crate::llm::opt_string(workspace_id), opt_view(region)),
    {
        let ws: Option<&str> = match &workspace_id {
            Some(w) => Some(w.as_str()),
            None => None,
        };
        let host = crate::dashscope::host(ws, region);
        let mut v = chars_of("https://");
        extend_str(&mut v, host.as_str());
        VoiceService { api_key, base_url: string_of(&v) }
    }

    pub fn endpoint(&self) -> (r: String)
        ensures
            r@ == self.base_url@ + "/api/v1/services/audio/tts/customization"@,
    {
        let mut v = chars_of(self.base_url.as_str());
        extend_str(&mut v, "/api/v1/services/audio/tts/customization");
        string_of(&v)
    }
}

/// How many voices the service lists per page.
pub const PAGE_SIZE: usize = 100;

/// Far past any real account: only there so a service that ignored the
/// page index couldn't keep the listing going forever.
pub const MAX_PAGES: usize = 50;

pub open spec fn ids_of(v: Seq<VoiceListEntry>) -> Seq<Seq<char>> {
    v.map_values(|e: VoiceListEntry| e.voice_id@)
}

/// `page`'s entries whose id is in neither `known` nor earlier in the page.
pub open spec fn new_entries(known: Seq<Seq<char>>, page: Seq<VoiceListEntry>) -> Seq<
    VoiceListEntry,
>
    decreases page.len(),
{
    if page.len() == 0 {
        Seq::<VoiceListEntry>::empty()
    } else {
        let rest = new_entries(known, page.drop_last());
        let e = page.last();
        if known.contains(e.voice_id@) || ids_of(rest).contains(e.voice_id@) {
            rest
        } else {
            rest.push(e)
        }
    }
}

/// Folds one page of the listing into `voices`, skipping voices already
/// listed (a voice created while paging shifts the rest along by one, so a
/// page can repeat the last entry of the one before). Returns whether to ask
/// for the next page: only after a full page that brought something new.
pub fn merge_voice_page(voices: &mut Vec<VoiceListEntry>, page: Vec<VoiceListEntry>) -> (more: bool)
    ensures
        final(voices)@ == old(voices)@ + new_entries(ids_of(old(voices)@), page@),
        more == (page@.len() >= PAGE_SIZE && new_entries(ids_of(old(voices)@), page@).len() > 0),
{
    let ghost known = ids_of(old(voices)@);
    let before = voices.len();
    let full = page.len() >= PAGE_SIZE;
    let mut i: usize = 0;
    while i < page.len()
        invariant
            i <= page.len(),
            before == old(voices)@.len(),
            known == ids_of(old(voices)@),
            voices@ == old(voices)@ + new_entries(known, page@.take(i as int)),
        decreases page.len() - i,
    {
        let e = &page[i];
        let mut seen = false;
        let mut k: usize = 0;
        let ghost fresh = new_entries(known, page@.take(i as int));
        while k < voices.len()
            invariant
                k <= voices.len(),
                voices@ == old(voices)@ + fresh,
                !seen ==> forall|j: int| 0 <= j < k ==> voices@[j].voice_id@ != e.voice_id@,
                seen ==> exists|j: int| 0 <= j < voices@.len() && voices@[j].voice_id@ == e.voice_id@,
            decreases voices.len() - k,
        {
            if !seen && str_eq(voices[k].voice_id.as_str(), e.voice_id.as_str()) {
                seen = true;
            }
            k += 1;
        }
        proof {
            assert(page@.take(i + 1).drop_last() =~= page@.take(i as int));
            assert(page@.take(i + 1).last() == page@[i as int]);
            let all = old(voices)@ + fresh;
            if seen {
                let j = choose|j: int| 0 <= j < all.len() && all[j].voice_id@ == e.voice_id@;
                if j < old(voices)@.len() {
                    assert(known[j] == e.voice_id@);
                    assert(known.contains(e.voice_id@));
                } else {
                    assert(ids_of(fresh)[j - old(voices)@.len()] == e.voice_id@);
                    assert(ids_of(fresh).contains(e.voice_id@));
                }
            } else {
                assert forall|j: int| 0 <= j < known.len() implies known[j] != e.voice_id@ by {
                    assert(all[j] == old(voices)@[j]);
                }
                assert forall|j: int| 0 <= j < ids_of(fresh).len() implies ids_of(fresh)[j]
                    != e.voice_id@ by {
                    assert(all[j + old(voices)@.len()] == fresh[j]);
                }
            }
        }
        if !seen {
            voices.push(e.copy());
            proof {
                assert(old(voices)@ + fresh.push(page@[i as int]) =~= (old(voices)@ + fresh).push(
                    page@[i as int],
                ));
            }
        }
        i += 1;
    }
    assert(page@.take(page.len() as int) =~= page@);
    full && voices.len() != before
}

/// Why a voice-enrollment response can't be used.
#[derive(Clone, Copy, Debug, PartialEq, Eq, Structural)]
pub enum VoiceError {
    NoVoiceId,
    NoPreviewAudio,
}

impl VoiceError {
    pub fn message(&self, lang: Lang) -> (r: String)
        ensures
            r@ == match *self {
                VoiceError::NoVoiceId => tr(lang, "The response had no voice_id"@, "响应中缺少 voice_id"@),
                VoiceError::NoPreviewAudio => tr(lang, "The response had no preview audio"@, "响应中缺少试听音频"@),
            },
    {
        let s = match self {
            VoiceError::NoVoiceId => match lang {
                Lang::En => "The response had no voice_id",
                Lang::Zh => "响应中缺少 voice_id",
            },
            VoiceError::NoPreviewAudio => match lang {
                Lang::En => "The response had no preview audio",
                Lang::Zh => "响应中缺少试听音频",
            },
        };
        crate::text::copy_str(s)
    }
}

/// The id a clone request created.
pub fn cloned_voice_id(voice_id: Option<String>) -> (r: Result<String, VoiceError>)
    ensures
        match voice_id {
            Some(id) => r == Ok::<String, VoiceError>(id),
            None => r == Err::<String, VoiceError>(VoiceError::NoVoiceId),
        },
{
    match voice_id {
        Some(id) => Ok(id),
        None => Err(VoiceError::NoVoiceId),
    }
}

/// What a Voice Design request gives back.
pub struct DesignedVoicePreview {
    /// The TTS-series voice the design enrolled, of no use once the preview
    /// is in hand.
    pub tts_voice: Option<String>,
    /// Base64 WAV audio.
    pub preview_audio_b64: String,
}

/// A design response's preview, which has to be there and not be empty.
pub fn designed_preview(tts_voice: Option<String>, preview_data: Option<String>) -> (r: Result<
    DesignedVoicePreview,
    VoiceError,
>)
    ensures
        match preview_data {
            Some(d) => if d@.len() > 0 {
                r matches Ok(p) && p.preview_audio_b64 == d && p.tts_voice == tts_voice
            } else {
                r == Err::<DesignedVoicePreview, VoiceError>(VoiceError::NoPreviewAudio)
            },
            None => r == Err::<DesignedVoicePreview, VoiceError>(VoiceError::NoPreviewAudio),
        },
{
    match preview_data {
        Some(d) => if d.as_str().unicode_len() > 0 {
            Ok(DesignedVoicePreview { tts_voice, preview_audio_b64: d })
        } else {
            Err(VoiceError::NoPreviewAudio)
        },
        None => Err(VoiceError::NoPreviewAudio),
    }
}

} // verus!
