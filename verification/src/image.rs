//! Drawing an avatar with the image model: where the request goes, where in
//! the answer the picture is, and what a downloaded file must be before it
//! is taken as one. The HTTP round trips are the application's.

use vstd::prelude::*;

use crate::avatar::{spec_sniff, Format};
use crate::dashscope::{opt_view, spec_host, spec_snippet};
use crate::i18n::{tr, Lang};
use crate::text::{extend_str, starts_with, string_of};

verus! {

pub const MODEL: &'static str = "qwen-image-3.0";
/// Square, and twice the size the editor crops to.
pub const SIZE: &'static str = "1024*1024";
/// What an avatar must not have: the model otherwise likes to letter a
/// caption or the character's name across the picture.
pub const NEGATIVE_PROMPT: &'static str = "文字, 字母, 水印, 签名, 边框, 多个人物, 拼贴, 模糊, 低清晰度, 畸形, 多余的手指";
/// A generation takes from ten seconds to over a minute.
pub const GENERATE_TIMEOUT_SECS: u64 = 180;
pub const DOWNLOAD_TIMEOUT_SECS: u64 = 60;
/// A 1024² PNG comes to a few megabytes; this only guards against a
/// response that is something else entirely.
pub const MAX_DOWNLOAD_BYTES: usize = 20 * 1024 * 1024;

pub struct ImageClient {
    api_key: String,
    base_url: String,
}

impl ImageClient {
    pub closed spec fn key(&self) -> Seq<char> {
        self.api_key@
    }

    pub closed spec fn base(&self) -> Seq<char> {
        self.base_url@
    }

    pub fn new(api_key: String, workspace_id: Option<String>, region: Option<&str>) -> (r: ImageClient)
        ensures
            r.key() == api_key@,
            r.base() == "https://"@ + spec_host(crate::llm::opt_string(workspace_id), opt_view(region)),
    {
        let ws: Option<&str> = match &workspace_id {
            Some(w) => Some(w.as_str()),
            None => None,
        };
        let h = crate::dashscope::host(ws, region);
        let mut v: Vec<char> = Vec::new();
        extend_str(&mut v, "https://");
        extend_str(&mut v, h.as_str());
        ImageClient { api_key, base_url: string_of(&v) }
    }

    pub fn api_key(&self) -> (r: &str)
        ensures
            r@ == self.key(),
    {
        self.api_key.as_str()
    }

    /// Where generations are requested.
    pub fn generation_url(&self) -> (r: String)
        ensures
            r@ == self.base() + "/api/v1/services/aigc/multimodal-generation/generation"@,
    {
        let mut v: Vec<char> = Vec::new();
        extend_str(&mut v, self.base_url.as_str());
        extend_str(&mut v, "/api/v1/services/aigc/multimodal-generation/generation");
        string_of(&v)
    }
}

/// The `image` of each content part of each choice, in order.
pub open spec fn flatten(choices: Seq<Vec<Option<String>>>) -> Seq<Option<String>>
    decreases choices.len(),
{
    if choices.len() == 0 {
        Seq::<Option<String>>::empty()
    } else {
        flatten(choices.drop_last()) + choices.last()@
    }
}

/// The first image a part carries, if there is one.
pub open spec fn first_some(parts: Seq<Option<String>>) -> Option<Seq<char>>
    decreases parts.len(),
{
    if parts.len() == 0 {
        None
    } else {
        match parts[0] {
            Some(u) => Some(u@),
            None => first_some(parts.drop_first()),
        }
    }
}

/// The picture's link in an answer: the first image any content part of
/// any choice carries — nothing if that one is empty.
pub open spec fn spec_image_url(choices: Seq<Vec<Option<String>>>) -> Option<Seq<char>> {
    match first_some(flatten(choices)) {
        Some(u) => if u.len() > 0 {
            Some(u)
        } else {
            None
        },
        None => None,
    }
}

proof fn lemma_first_some_append(a: Seq<Option<String>>, b: Seq<Option<String>>)
    ensures
        first_some(a + b) == match first_some(a) {
            Some(u) => Some(u),
            None => first_some(b),
        },
    decreases a.len(),
{
    if a.len() == 0 {
        assert(a + b =~= b);
    } else {
        assert((a + b).drop_first() =~= a.drop_first() + b);
        lemma_first_some_append(a.drop_first(), b);
    }
}

proof fn lemma_flatten_step(choices: Seq<Vec<Option<String>>>, i: int)
    requires
        0 <= i < choices.len(),
    ensures
        flatten(choices.take(i + 1)) == flatten(choices.take(i)) + choices[i]@,
{
    assert(choices.take(i + 1).drop_last() =~= choices.take(i));
}

fn first_in(parts: &Vec<Option<String>>) -> (r: Option<String>)
    ensures
        match r {
            Some(u) => first_some(parts@) == Some(u@),
            None => first_some(parts@) is None,
        },
{
    let mut i: usize = 0;
    assert(parts@.skip(0) =~= parts@);
    while i < parts.len()
        invariant
            i <= parts@.len(),
            first_some(parts@) == first_some(parts@.skip(i as int)),
        decreases parts.len() - i,
    {
        assert(parts@.skip(i as int)[0] == parts@[i as int]);
        assert(parts@.skip(i as int).drop_first() =~= parts@.skip(i + 1));
        if let Some(u) = &parts[i] {
            return Some(u.clone());
        }
        i += 1;
    }
    assert(parts@.skip(i as int) =~= Seq::<Option<String>>::empty());
    None
}

pub fn image_url(choices: &Vec<Vec<Option<String>>>) -> (r: Option<String>)
    ensures
        match r {
            Some(u) => spec_image_url(choices@) == Some(u@),
            None => spec_image_url(choices@) is None,
        },
{
    let mut i: usize = 0;
    assert(choices@.take(0) =~= Seq::<Vec<Option<String>>>::empty());
    assert(flatten(choices@.take(0)) =~= Seq::<Option<String>>::empty());
    while i < choices.len()
        invariant
            i <= choices@.len(),
            first_some(flatten(choices@.take(i as int))) is None,
        decreases choices.len() - i,
    {
        proof {
            lemma_flatten_step(choices@, i as int);
            lemma_first_some_append(flatten(choices@.take(i as int)), choices@[i as int]@);
        }
        match first_in(&choices[i]) {
            Some(u) => {
                proof {
                    lemma_first_some_prefix(choices@, i + 1);
                }
                if u.unicode_len() > 0 {
                    return Some(u);
                }
                return None;
            },
            None => {},
        }
        i += 1;
    }
    assert(choices@.take(choices@.len() as int) =~= choices@);
    None
}

/// Once a prefix holds an image, so does the whole, the same one.
proof fn lemma_first_some_prefix(choices: Seq<Vec<Option<String>>>, k: int)
    requires
        0 <= k <= choices.len(),
        first_some(flatten(choices.take(k))) is Some,
    ensures
        first_some(flatten(choices)) == first_some(flatten(choices.take(k))),
    decreases choices.len() - k,
{
    if k == choices.len() {
        assert(choices.take(k) =~= choices);
    } else {
        lemma_flatten_step(choices, k);
        lemma_first_some_append(flatten(choices.take(k)), choices[k]@);
        lemma_first_some_prefix(choices, k + 1);
    }
}

/// Why no picture came of a generation.
#[derive(Debug)]
pub enum ImageError {
    Transport { detail: String },
    Http { status: String, body: String },
    /// The answer holds no picture.
    NoImage { body: String },
    /// The link isn't HTTPS; it is fetched without the API key, but still
    /// not over anything else.
    NotHttps { url: String },
    DownloadFailed { status: String },
    TooLarge,
    NotAnImage,
}

pub open spec fn spec_image_error_message(e: ImageError, lang: Lang) -> Seq<char> {
    match e {
        ImageError::Transport { detail } => detail@,
        ImageError::Http { status, body } => "HTTP "@ + status@ + ": "@ + spec_snippet(body@, lang),
        ImageError::NoImage { body } => tr(
            lang,
            "The response had no image in it: "@,
            "响应中没有图片："@,
        ) + spec_snippet(body@, lang),
        ImageError::NotHttps { url } => tr(
            lang,
            "Refusing to download the image from a non-HTTPS link: "@ + url@,
            "图片链接不是 HTTPS，已拒绝下载："@ + url@,
        ),
        ImageError::DownloadFailed { status } => tr(
            lang,
            "Couldn't download the generated image (HTTP "@ + status@ + ")"@,
            "下载生成的图片失败（HTTP "@ + status@ + "）"@,
        ),
        ImageError::TooLarge => tr(
            lang,
            "The generated image is unexpectedly large"@,
            "生成的图片大小异常"@,
        ),
        ImageError::NotAnImage => tr(
            lang,
            "The generated file isn't an image this app can read"@,
            "生成的文件不是可识别的图片"@,
        ),
    }
}

impl ImageError {
    pub fn message(&self, lang: Lang) -> (r: String)
        ensures
            r@ == spec_image_error_message(*self, lang),
    {
        let en = lang == Lang::En;
        let mut v: Vec<char> = Vec::new();
        match self {
            ImageError::Transport { detail } => extend_str(&mut v, detail.as_str()),
            ImageError::Http { status, body } => {
                extend_str(&mut v, "HTTP ");
                extend_str(&mut v, status.as_str());
                extend_str(&mut v, ": ");
                let sn = crate::dashscope::snippet(body.as_str(), lang);
                extend_str(&mut v, sn.as_str());
            },
            ImageError::NoImage { body } => {
                extend_str(&mut v, if en { "The response had no image in it: " } else { "响应中没有图片：" });
                let sn = crate::dashscope::snippet(body.as_str(), lang);
                extend_str(&mut v, sn.as_str());
            },
            ImageError::NotHttps { url } => {
                extend_str(
                    &mut v,
                    if en {
                        "Refusing to download the image from a non-HTTPS link: "
                    } else {
                        "图片链接不是 HTTPS，已拒绝下载："
                    },
                );
                extend_str(&mut v, url.as_str());
            },
            ImageError::DownloadFailed { status } => {
                extend_str(
                    &mut v,
                    if en { "Couldn't download the generated image (HTTP " } else { "下载生成的图片失败（HTTP " },
                );
                extend_str(&mut v, status.as_str());
                extend_str(&mut v, if en { ")" } else { "）" });
            },
            ImageError::TooLarge => extend_str(
                &mut v,
                if en { "The generated image is unexpectedly large" } else { "生成的图片大小异常" },
            ),
            ImageError::NotAnImage => extend_str(
                &mut v,
                if en { "The generated file isn't an image this app can read" } else { "生成的文件不是可识别的图片" },
            ),
        }
        assert(v@ =~= spec_image_error_message(*self, lang));
        string_of(&v)
    }
}

/// The link a picture is fetched from has to be HTTPS.
pub fn check_download_url(url: &str) -> (r: Result<(), ImageError>)
    ensures
        starts_with(url@, "https://"@) ==> r is Ok,
        !starts_with(url@, "https://"@) ==> (r matches Err(ImageError::NotHttps { url: u })
            && u@ == url@),
{
    let v = crate::text::chars_of(url);
    let p = crate::text::chars_of("https://");
    if crate::text::starts_with_chars(&v, &p) {
        Ok(())
    } else {
        Err(ImageError::NotHttps { url: crate::text::copy_str(url) })
    }
}

/// A download announcing more than `MAX_DOWNLOAD_BYTES` is refused before
/// its body is read.
pub fn check_announced_length(content_length: Option<u64>) -> (r: Result<(), ImageError>)
    ensures
        r is Ok <==> !(content_length matches Some(n) && n > MAX_DOWNLOAD_BYTES),
        r is Err ==> r matches Err(ImageError::TooLarge),
{
    match content_length {
        Some(n) => if n > MAX_DOWNLOAD_BYTES as u64 {
            Err(ImageError::TooLarge)
        } else {
            Ok(())
        },
        None => Ok(()),
    }
}

/// What the downloaded bytes are: a picture within `MAX_DOWNLOAD_BYTES`.
pub fn check_downloaded(bytes: &[u8]) -> (r: Result<Format, ImageError>)
    ensures
        bytes@.len() > MAX_DOWNLOAD_BYTES ==> r matches Err(ImageError::TooLarge),
        bytes@.len() <= MAX_DOWNLOAD_BYTES ==> match spec_sniff(bytes@) {
            Some(f) => r matches Ok(g) && g == f,
            None => r matches Err(ImageError::NotAnImage),
        },
{
    if bytes.len() > MAX_DOWNLOAD_BYTES {
        return Err(ImageError::TooLarge);
    }
    match Format::sniff(bytes) {
        Some(f) => Ok(f),
        None => Err(ImageError::NotAnImage),
    }
}

} // verus!
