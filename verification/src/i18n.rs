//! The display language of the user-facing strings the library produces:
//! error messages and region labels. LLM prompts are not covered: those
//! follow the character's own `language`.

use vstd::prelude::*;

use crate::text::str_eq;

verus! {

#[derive(Clone, Copy, PartialEq, Eq, Debug, Structural)]
pub enum Lang {
    En,
    Zh,
}

/// The language the app starts in.
pub const DEFAULT: Lang = Lang::En;

pub open spec fn spec_from_tag(tag: Seq<char>) -> Lang {
    if tag == "zh-CN"@ {
        Lang::Zh
    } else {
        DEFAULT
    }
}

pub open spec fn spec_tag(lang: Lang) -> Seq<char> {
    match lang {
        Lang::En => "en"@,
        Lang::Zh => "zh-CN"@,
    }
}

impl Lang {
    /// Unknown or malformed tags fall back to the default rather than
    /// erroring: a settings row written by a later version must never stop
    /// the app from starting.
    pub fn from_tag(tag: &str) -> (r: Lang)
        ensures
            r == spec_from_tag(tag@),
    {
        if str_eq(tag, "zh-CN") {
            Lang::Zh
        } else {
            DEFAULT
        }
    }

    pub fn tag(self) -> (r: &'static str)
        ensures
            r@ == spec_tag(self),
    {
        match self {
            Lang::En => "en",
            Lang::Zh => "zh-CN",
        }
    }
}

/// The English or Simplified Chinese text, by `lang`.
pub open spec fn tr(lang: Lang, en: Seq<char>, zh: Seq<char>) -> Seq<char> {
    match lang {
        Lang::En => en,
        Lang::Zh => zh,
    }
}

/// Where the process keeps its current display language: one byte, so it
/// can live in an atomic.
pub struct UiLanguage {
    code: u8,
}

pub open spec fn lang_of_code(code: u8) -> Lang {
    if code == 1 {
        Lang::Zh
    } else {
        Lang::En
    }
}

pub open spec fn lang_code(lang: Lang) -> u8 {
    match lang {
        Lang::En => 0,
        Lang::Zh => 1,
    }
}

impl UiLanguage {
    pub closed spec fn view(&self) -> Lang {
        if self.code == 1 {
            Lang::Zh
        } else {
            Lang::En
        }
    }

    /// Starts out in English.
    pub fn new() -> (r: UiLanguage)
        ensures
            r.view() == Lang::En,
    {
        UiLanguage { code: 0 }
    }

    /// The language as the byte it is stored as.
    pub fn from_code(code: u8) -> (r: UiLanguage)
        ensures
            r.view() == lang_of_code(code),
    {
        UiLanguage { code }
    }

    pub fn code(&self) -> (c: u8)
        ensures
            c == lang_code(self.view()),
    {
        if self.code == 1 { 1 } else { 0 }
    }
}

/// Makes `lang` the display language.
pub fn set(ui: &mut UiLanguage, lang: Lang)
    ensures
        final(ui).view() == lang,
{
    ui.code = match lang {
        Lang::En => 0,
        Lang::Zh => 1,
    };
}

/// The display language.
pub fn current(ui: &UiLanguage) -> (r: Lang)
    ensures
        r == ui.view(),
{
    if ui.code == 1 {
        Lang::Zh
    } else {
        Lang::En
    }
}

/// What is set is what is read back, and storing it as a byte loses nothing.
pub proof fn law_set_then_current(lang: Lang)
    ensures
        lang_of_code(lang_code(lang)) == lang,
{
}

/// A tag written for a language reads back as that language.
pub proof fn law_tag_round_trip(lang: Lang)
    ensures
        spec_from_tag(spec_tag(lang)) == lang,
{
    reveal_strlit("zh-CN");
    reveal_strlit("en");
    assert("en"@ != "zh-CN"@) by {
        assert("en"@.len() != "zh-CN"@.len());
    }
}

} // verus!
