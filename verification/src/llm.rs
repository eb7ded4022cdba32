//! The text model the app asks for summaries, titles, translations and
//! persona polishing: where its requests go, and what its answers come
//! to. The HTTP round trip is the application's.

use vstd::prelude::*;

use crate::dashscope::{opt_view, spec_host, spec_snippet};
use crate::i18n::{tr, Lang};
use crate::text::{copy_str, extend_str, string_of};

verus! {

pub const MODEL: &'static str = "qwen3.8-flash";
/// Ceiling on one request's round trip, in seconds: it is called on the
/// hot path of a live conversation.
pub const REQUEST_TIMEOUT_SECS: u64 = 15;
/// Ceiling for a request that reads a whole transcript: a timeout there
/// loses the conversation's worth of memory, not one subtitle line.
pub const LONG_REQUEST_TIMEOUT_SECS: u64 = 30;

pub struct FlashClient {
    api_key: String,
    base_url: String,
}

pub open spec fn spec_base_url(workspace_id: Option<Seq<char>>, region: Option<Seq<char>>) -> Seq<char> {
    "https://"@ + spec_host(workspace_id, region) + "/compatible-mode/v1"@
}

pub open spec fn opt_string(o: Option<String>) -> Option<Seq<char>> {
    match o {
        Some(s) => Some(s@),
        None => None,
    }
}

impl FlashClient {
    pub closed spec fn key(&self) -> Seq<char> {
        self.api_key@
    }

    pub closed spec fn base(&self) -> Seq<char> {
        self.base_url@
    }

    /// A client for the account `api_key` belongs to, on its workspace's
    /// host in its region.
    pub fn new(api_key: String, workspace_id: Option<String>, region: Option<&str>) -> (r: FlashClient)
        ensures
            r.key() == api_key@,
            r.base() == spec_base_url(opt_string(workspace_id), opt_view(region)),
    {
        let ws: Option<&str> = match &workspace_id {
            Some(w) => Some(w.as_str()),
            None => None,
        };
        let h = crate::dashscope::host(ws, region);
        let mut v: Vec<char> = Vec::new();
        extend_str(&mut v, "https://");
        extend_str(&mut v, h.as_str());
        extend_str(&mut v, "/compatible-mode/v1");
        FlashClient { api_key, base_url: string_of(&v) }
    }

    pub fn api_key(&self) -> (r: &str)
        ensures
            r@ == self.key(),
    {
        self.api_key.as_str()
    }

    /// Where chat completions are posted.
    pub fn chat_url(&self) -> (r: String)
        ensures
            r@ == self.base() + "/chat/completions"@,
    {
        let mut v: Vec<char> = Vec::new();
        extend_str(&mut v, self.base_url.as_str());
        extend_str(&mut v, "/chat/completions");
        string_of(&v)
    }
}

/// Why a completion came to nothing.
#[derive(Debug)]
pub enum FlashError {
    /// The request never got an answer; the transport's account of why.
    Transport { detail: String },
    /// An answer that isn't a success: the status as shown, and the body.
    Http { status: String, body: String },
    /// A body that isn't a completion: the parser's account, and the body.
    Unparsable { detail: String, raw: String },
    /// A completion without a single choice.
    NoContent,
}

pub open spec fn spec_flash_error_message(e: FlashError, lang: Lang) -> Seq<char> {
    match e {
        FlashError::Transport { detail } => detail@,
        FlashError::Http { status, body } => "HTTP "@ + status@ + ": "@ + spec_snippet(body@, lang),
        FlashError::Unparsable { detail, raw } => tr(
            lang,
            "Could not parse the response: "@ + detail@ + "; raw: "@,
            "解析响应失败: "@ + detail@ + "; 原始: "@,
        ) + spec_snippet(raw@, lang),
        FlashError::NoContent => tr(lang, "The response contained no content"@, "响应中没有内容"@),
    }
}

impl FlashError {
    pub fn message(&self, lang: Lang) -> (r: String)
        ensures
            r@ == spec_flash_error_message(*self, lang),
    {
        let en = lang == Lang::En;
        let mut v: Vec<char> = Vec::new();
        match self {
            FlashError::Transport { detail } => extend_str(&mut v, detail.as_str()),
            FlashError::Http { status, body } => {
                extend_str(&mut v, "HTTP ");
                extend_str(&mut v, status.as_str());
                extend_str(&mut v, ": ");
                let sn = crate::dashscope::snippet(body.as_str(), lang);
                extend_str(&mut v, sn.as_str());
            },
            FlashError::Unparsable { detail, raw } => {
                extend_str(&mut v, if en { "Could not parse the response: " } else { "解析响应失败: " });
                extend_str(&mut v, detail.as_str());
                extend_str(&mut v, if en { "; raw: " } else { "; 原始: " });
                let sn = crate::dashscope::snippet(raw.as_str(), lang);
                extend_str(&mut v, sn.as_str());
            },
            FlashError::NoContent => extend_str(
                &mut v,
                if en { "The response contained no content" } else { "响应中没有内容" },
            ),
        }
        assert(v@ =~= spec_flash_error_message(*self, lang));
        string_of(&v)
    }
}

/// The answer of a completion: its first choice's message.
pub fn first_choice(contents: Vec<String>) -> (r: Result<String, FlashError>)
    ensures
        contents@.len() == 0 ==> r matches Err(FlashError::NoContent),
        contents@.len() > 0 ==> (r matches Ok(s) && s == contents@[0]),
{
    if contents.len() == 0 {
        return Err(FlashError::NoContent);
    }
    let mut contents = contents;
    Ok(contents.swap_remove(0))
}

} // verus!
