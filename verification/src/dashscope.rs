//! Region and endpoint resolution shared by every DashScope (Model Studio)
//! client. Only the regions where realtime audio and voice cloning/design
//! are available are offered.

use vstd::prelude::*;

use crate::i18n::{tr, Lang};
use crate::text::{
    chars_of, decimal, extend_str, is_ascii_alnum, is_ascii_alnum_exec, push_decimal,
    string_of, take_chars, take_chars_exec, trim, trim_chars,
};

verus! {

pub const DEFAULT_REGION: &'static str = "cn-beijing";

pub const REGION_IDS: [&'static str; 2] = ["cn-beijing", "ap-southeast-1"];

/// How much of an upstream response to keep when it ends up in an error
/// message.
pub const SNIPPET_CHARS: usize = 500;

/// A region as the Settings dropdown sees it.
pub struct RegionOption {
    pub id: &'static str,
    pub label: String,
}

pub open spec fn spec_region_label(id: Seq<char>, lang: Lang) -> Seq<char> {
    if id == "ap-southeast-1"@ {
        tr(lang, "Singapore"@, "新加坡"@)
    } else {
        tr(lang, "Chinese Mainland (Beijing)"@, "中国大陆（北京）"@)
    }
}

pub fn region_label(id: &str, lang: Lang) -> (r: String)
    ensures
        r@ == spec_region_label(id@, lang),
{
    let s = if crate::text::str_eq(id, "ap-southeast-1") {
        match lang {
            Lang::En => "Singapore",
            Lang::Zh => "新加坡",
        }
    } else {
        match lang {
            Lang::En => "Chinese Mainland (Beijing)",
            Lang::Zh => "中国大陆（北京）",
        }
    };
    crate::text::copy_str(s)
}

/// Every region on offer, in order, each labelled in `lang`.
pub fn regions(lang: Lang) -> (r: Vec<RegionOption>)
    ensures
        r.len() == 2,
        r@[0].id@ == "cn-beijing"@,
        r@[1].id@ == "ap-southeast-1"@,
        forall|i: int| 0 <= i < 2 ==> r@[i].label@ == spec_region_label(#[trigger] r@[i].id@, lang),
{
    let mut r: Vec<RegionOption> = Vec::new();
    let a = "cn-beijing";
    let b = "ap-southeast-1";
    r.push(RegionOption { id: a, label: region_label(a, lang) });
    r.push(RegionOption { id: b, label: region_label(b, lang) });
    r
}

/// The note appended to a body that had to be cut.
pub open spec fn truncation_note(total: nat, lang: Lang) -> Seq<char> {
    tr(
        lang,
        "… (truncated, "@ + decimal(total) + " characters in total)"@,
        "…（已截断，共 "@ + decimal(total) + " 个字符）"@,
    )
}

/// An upstream response body trimmed down to something that belongs in an
/// error message, saying so when it had to cut.
pub open spec fn spec_snippet(body: Seq<char>, lang: Lang) -> Seq<char> {
    let t = trim(body);
    if t.len() <= SNIPPET_CHARS {
        t
    } else {
        take_chars(t, SNIPPET_CHARS as int) + truncation_note(t.len(), lang)
    }
}

pub fn snippet(body: &str, lang: Lang) -> (r: String)
    ensures
        r@ == spec_snippet(body@, lang),
{
    let v = chars_of(body);
    let t = trim_chars(&v);
    let total = t.len();
    if total <= SNIPPET_CHARS {
        return string_of(&t);
    }
    let mut kept = take_chars_exec(&t, SNIPPET_CHARS);
    let ghost k0 = kept@;
    match lang {
        Lang::En => {
            extend_str(&mut kept, "… (truncated, ");
            push_decimal(&mut kept, total as u64);
            extend_str(&mut kept, " characters in total)");
        },
        Lang::Zh => {
            extend_str(&mut kept, "…（已截断，共 ");
            push_decimal(&mut kept, total as u64);
            extend_str(&mut kept, " 个字符）");
        },
    }
    assert(kept@ =~= k0 + truncation_note(total as nat, lang));
    string_of(&kept)
}

/// The characters a workspace id may hold.
pub open spec fn is_id_char(c: char) -> bool {
    is_ascii_alnum(c) || c == '-' || c == '_'
}

/// Workspace ids look like `llm-0a1b2c3d4e5f`. The value is interpolated
/// straight into a hostname, so only the characters real ids are made of are
/// allowed: any character that could end the authority part of a URL would
/// send every request, key included, somewhere else.
pub open spec fn spec_is_valid_workspace_id(id: Seq<char>) -> bool {
    &&& id.len() > 0
    &&& id.len() <= 64
    &&& forall|i: int| 0 <= i < id.len() ==> is_id_char(#[trigger] id[i])
}

pub fn is_valid_workspace_id(id: &str) -> (r: bool)
    ensures
        r == spec_is_valid_workspace_id(id@),
{
    let v = chars_of(id);
    if v.len() == 0 || v.len() > 64 {
        return false;
    }
    let mut i: usize = 0;
    while i < v.len()
        invariant
            i <= v.len(),
            v@ == id@,
            forall|k: int| 0 <= k < i ==> is_id_char(#[trigger] id@[k]),
        decreases v.len() - i,
    {
        let c = v[i];
        if !(is_ascii_alnum_exec(c) || c == '-' || c == '_') {
            return false;
        }
        i += 1;
    }
    true
}

/// Regions are a closed set.
pub open spec fn spec_is_valid_region(id: Seq<char>) -> bool {
    id == "cn-beijing"@ || id == "ap-southeast-1"@
}

pub fn is_valid_region(id: &str) -> (r: bool)
    ensures
        r == spec_is_valid_region(id@),
{
    crate::text::str_eq(id, "cn-beijing") || crate::text::str_eq(id, "ap-southeast-1")
}

/// The region to use: the one given if it is known, the default otherwise.
pub open spec fn spec_normalize(region: Option<Seq<char>>) -> Seq<char> {
    match region {
        Some(r) => if spec_is_valid_region(r) {
            r
        } else {
            DEFAULT_REGION@
        },
        None => DEFAULT_REGION@,
    }
}

pub fn normalize<'a>(region: Option<&'a str>) -> (r: &'a str)
    ensures
        r@ == spec_normalize(match region {
            Some(s) => Some(s@),
            None => None,
        }),
{
    match region {
        Some(r) => if is_valid_region(r) {
            r
        } else {
            DEFAULT_REGION
        },
        None => DEFAULT_REGION,
    }
}

/// The shared, non-workspace domain serving a region.
pub open spec fn spec_shared_host(region: Seq<char>) -> Seq<char> {
    if region == "ap-southeast-1"@ {
        "dashscope-intl.aliyuncs.com"@
    } else {
        "dashscope.aliyuncs.com"@
    }
}

pub fn shared_host(region: &str) -> (r: String)
    ensures
        r@ == spec_shared_host(region@),
{
    if crate::text::str_eq(region, "ap-southeast-1") {
        crate::text::copy_str("dashscope-intl.aliyuncs.com")
    } else {
        crate::text::copy_str("dashscope.aliyuncs.com")
    }
}

/// Host (no scheme, no path) for a workspace/region combination: the
/// workspace's own domain when there is a valid id, the region's shared
/// domain otherwise. A malformed id fails closed, to the shared domain:
/// the API key travels on every one of these requests.
pub open spec fn spec_host(workspace_id: Option<Seq<char>>, region: Option<Seq<char>>) -> Seq<
    char,
> {
    let region = spec_normalize(region);
    match workspace_id {
        Some(w) => if w.len() > 0 && spec_is_valid_workspace_id(w) {
            w + "."@ + region + ".maas.aliyuncs.com"@
        } else {
            spec_shared_host(region)
        },
        None => spec_shared_host(region),
    }
}

pub open spec fn opt_view(o: Option<&str>) -> Option<Seq<char>> {
    match o {
        Some(s) => Some(s@),
        None => None,
    }
}

pub fn host(workspace_id: Option<&str>, region: Option<&str>) -> (r: String)
    ensures
        r@ == spec_host(opt_view(workspace_id), opt_view(region)),
{
    let region = normalize(region);
    match workspace_id {
        Some(w) => {
            if w.unicode_len() > 0 && is_valid_workspace_id(w) {
                let mut v = chars_of(w);
                let ghost w0 = v@;
                extend_str(&mut v, ".");
                extend_str(&mut v, region);
                extend_str(&mut v, ".maas.aliyuncs.com");
                assert(v@ =~= w0 + "."@ + region@ + ".maas.aliyuncs.com"@);
                string_of(&v)
            } else {
                shared_host(region)
            }
        },
        None => shared_host(region),
    }
}

/// Whatever is asked for, the host is the workspace's own Alibaba domain or
/// one of the two shared ones: a hostile workspace id or region never
/// becomes part of it unchecked.
pub proof fn law_host_stays_on_alibaba(workspace_id: Option<Seq<char>>, region: Option<Seq<char>>)
    ensures
        ({
            let h = spec_host(workspace_id, region);
            ||| h == "dashscope.aliyuncs.com"@
            ||| h == "dashscope-intl.aliyuncs.com"@
            ||| exists|w: Seq<char>|
                spec_is_valid_workspace_id(w) && (h == w + "."@ + "cn-beijing"@
                    + ".maas.aliyuncs.com"@ || h == w + "."@ + "ap-southeast-1"@
                    + ".maas.aliyuncs.com"@)
        }),
{
    let r = spec_normalize(region);
    assert(r == "cn-beijing"@ || r == "ap-southeast-1"@);
    match workspace_id {
        Some(w) => {
            if w.len() > 0 && spec_is_valid_workspace_id(w) {
                assert(spec_is_valid_workspace_id(w));
            }
        },
        None => {},
    }
}

} // verus!
