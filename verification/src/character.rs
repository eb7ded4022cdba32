//! Characters as the library handles them: the row, the editor's input, and
//! the rules a name and a file name for one have to follow.

use vstd::prelude::*;

use crate::checks::{Reason, NAME_MAX_CHARS};
use crate::text::{
    chars_of, copy_opt, copy_str, is_blank, is_blank_str, is_ws, string_of, trim, trim_chars,
};

verus! {

#[derive(Debug, Clone)]
pub struct Character {
    pub id: String,
    pub name: String,
    pub avatar_path: Option<String>,
    pub language: String,
    pub persona: String,
    pub speech_habits: String,
    pub voice_kind: String,
    pub voice_id: Option<String>,
    pub voice_prompt: Option<String>,
    pub memory_enabled: bool,
    pub max_history_turns: i64,
    pub created_at: String,
    pub updated_at: String,
}

#[derive(Debug, Clone)]
pub struct CharacterInput {
    pub name: String,
    pub avatar_path: Option<String>,
    pub language: String,
    pub persona: String,
    pub speech_habits: String,
    pub voice_kind: String,
    pub voice_id: Option<String>,
    pub voice_prompt: Option<String>,
    pub memory_enabled: bool,
    pub max_history_turns: i64,
}

impl CharacterInput {
    /// A new character as the editor starts one: answering in whatever
    /// language it is spoken to in, the first preset voice, memory on, a
    /// 20-turn history window.
    pub fn default_new(name: &str, persona: &str, speech_habits: &str) -> (r: CharacterInput)
        ensures
            r.name@ == name@,
            r.persona@ == persona@,
            r.speech_habits@ == speech_habits@,
            r.avatar_path is None,
            r.language@ == "auto"@,
            r.voice_kind@ == "preset"@,
            r.voice_id matches Some(v) && v@ == "longanqian"@,
            r.voice_prompt is None,
            r.memory_enabled,
            r.max_history_turns == 20,
    {
        CharacterInput {
            name: copy_str(name),
            avatar_path: None,
            language: copy_str("auto"),
            persona: copy_str(persona),
            speech_habits: copy_str(speech_habits),
            voice_kind: copy_str("preset"),
            voice_id: Some(copy_str("longanqian")),
            voice_prompt: None,
            memory_enabled: true,
            max_history_turns: 20,
        }
    }
}

pub open spec fn spec_check_name(name: Seq<char>) -> Result<Seq<char>, Reason> {
    if is_blank(name) {
        Err(Reason::NameEmpty)
    } else if trim(name).len() > NAME_MAX_CHARS {
        Err(Reason::NameTooLong)
    } else {
        Ok(trim(name))
    }
}

/// A character name as the editor takes it: trimmed, not empty, and at most
/// `NAME_MAX_CHARS` characters.
pub fn check_name(name: &str) -> (r: Result<String, Reason>)
    ensures
        match r {
            Ok(n) => spec_check_name(name@) == Ok::<Seq<char>, Reason>(n@),
            Err(e) => spec_check_name(name@) == Err::<Seq<char>, Reason>(e),
        },
        r matches Ok(n) ==> spec_check_name(n@) == Ok::<Seq<char>, Reason>(n@),
{
    if is_blank_str(name) {
        return Err(Reason::NameEmpty);
    }
    let v = chars_of(name);
    let t = trim_chars(&v);
    if t.len() > NAME_MAX_CHARS {
        return Err(Reason::NameTooLong);
    }
    proof {
        crate::text::lemma_trim_twice(name@);
        crate::text::lemma_trim_empty_iff_blank(name@);
        crate::text::lemma_trim_empty_iff_blank(t@);
    }
    Ok(string_of(&t))
}

/// Whether anything the live session was built from changed between two
/// versions of a character — everything but the picture, which the model
/// never sees.
pub open spec fn spec_affects_session(before: Character, after: Character) -> bool {
    ||| before.name@ != after.name@
    ||| before.language@ != after.language@
    ||| before.persona@ != after.persona@
    ||| before.speech_habits@ != after.speech_habits@
    ||| before.voice_kind@ != after.voice_kind@
    ||| opt_seq(before.voice_id) != opt_seq(after.voice_id)
    ||| opt_seq(before.voice_prompt) != opt_seq(after.voice_prompt)
    ||| before.memory_enabled != after.memory_enabled
    ||| before.max_history_turns != after.max_history_turns
}

pub open spec fn opt_seq(o: Option<String>) -> Option<Seq<char>> {
    match o {
        Some(s) => Some(s@),
        None => None,
    }
}

fn opt_eq(a: &Option<String>, b: &Option<String>) -> (r: bool)
    ensures
        r == (opt_seq(*a) == opt_seq(*b)),
{
    match (a, b) {
        (Some(x), Some(y)) => crate::text::str_eq(x.as_str(), y.as_str()),
        (None, None) => true,
        _ => false,
    }
}

fn same(a: &String, b: &String) -> (r: bool)
    ensures
        r == (a@ == b@),
{
    crate::text::str_eq(a.as_str(), b.as_str())
}

pub fn affects_session(before: &Character, after: &Character) -> (r: bool)
    ensures
        r == spec_affects_session(*before, *after),
{
    !same(&before.name, &after.name) || !same(&before.language, &after.language) || !same(
        &before.persona,
        &after.persona,
    ) || !same(&before.speech_habits, &after.speech_habits) || !same(
        &before.voice_kind,
        &after.voice_kind,
    ) || !opt_eq(&before.voice_id, &after.voice_id) || !opt_eq(
        &before.voice_prompt,
        &after.voice_prompt,
    ) || before.memory_enabled != after.memory_enabled || before.max_history_turns
        != after.max_history_turns
}

/// Unicode's control characters (`char::is_control`).
pub open spec fn is_control(c: char) -> bool {
    (c as u32) <= 0x1F || (0x7F <= (c as u32) && (c as u32) <= 0x9F)
}

/// The characters a file name can't hold on Windows.
pub open spec fn is_reserved(c: char) -> bool {
    c == '<' || c == '>' || c == ':' || c == '"' || c == '/' || c == '\\' || c == '|' || c == '?'
        || c == '*'
}

/// `s` with the dots at its end removed.
pub open spec fn trim_end_dots(s: Seq<char>) -> Seq<char>
    decreases s.len(),
{
    if s.len() > 0 && s.last() == '.' {
        trim_end_dots(s.drop_last())
    } else {
        s
    }
}

/// The name made safe for a file: controls and reserved characters become
/// `_`, surrounding whitespace goes, and so do trailing dots.
pub open spec fn safe_file_stem(name: Seq<char>) -> Seq<char> {
    trim_end_dots(
        trim(
            name.map_values(
                |c: char|
                    if is_control(c) || is_reserved(c) {
                        '_'
                    } else {
                        c
                    },
            ),
        ),
    )
}

/// The file a shared character is offered to be saved as: its name made
/// safe for a file system, or `character` when nothing is left of it.
pub open spec fn spec_character_file_name(name: Seq<char>) -> Seq<char> {
    let safe = safe_file_stem(name);
    (if safe.len() == 0 {
        "character"@
    } else {
        safe
    }) + ".json"@
}

pub fn character_file_name(name: &str) -> (r: String)
    ensures
        r@ == spec_character_file_name(name@),
{
    let v = chars_of(name);
    let mut mapped: Vec<char> = Vec::new();
    let mut i: usize = 0;
    while i < v.len()
        invariant
            i <= v.len(),
            v@ == name@,
            mapped@ == name@.take(i as int).map_values(
                |c: char|
                    if is_control(c) || is_reserved(c) {
                        '_'
                    } else {
                        c
                    },
            ),
        decreases v.len() - i,
    {
        let c = v[i];
        let u = c as u32;
        let bad = u <= 0x1F || (0x7F <= u && u <= 0x9F) || c == '<' || c == '>' || c == ':' || c
            == '"' || c == '/' || c == '\\' || c == '|' || c == '?' || c == '*';
        mapped.push(if bad { '_' } else { c });
        assert(name@.take(i + 1).map_values(
            |c: char|
                if is_control(c) || is_reserved(c) {
                    '_'
                } else {
                    c
                },
        ) =~= mapped@);
        i += 1;
    }
    assert(name@.take(v.len() as int) =~= name@);
    let mut t = trim_chars(&mapped);
    while t.len() > 0 && t[t.len() - 1] == '.'
        invariant
            trim_end_dots(t@) == safe_file_stem(name@),
        decreases t.len(),
    {
        let ghost before = t@;
        t.pop();
        assert(t@ =~= before.drop_last());
    }
    let mut out = if t.len() == 0 {
        chars_of("character")
    } else {
        t
    };
    crate::text::extend_str(&mut out, ".json");
    string_of(&out)
}

/// The character a fresh install starts with.
pub fn default_character() -> (r: CharacterInput)
    ensures
        r.name@ == "小柔"@,
        r.language@ == "auto"@,
        r.voice_kind@ == "preset"@,
        r.memory_enabled,
        r.max_history_turns == 20,
{
    CharacterInput::default_new(
        "小柔",
        "温柔体贴、爱聊天的陪伴助手，喜欢倾听并给出简短实用的建议。",
        "语气自然亲切，偶尔用口语化的语气词，句子简短。",
    )
}

/// The English speaking coach every install gets once.
pub const COACH_NAME: &'static str = "Emma";

pub fn english_coach() -> (r: CharacterInput)
    ensures
        r.name@ == COACH_NAME@,
        r.language@ == "en"@,
        r.voice_kind@ == "preset"@,
        r.voice_id matches Some(v) && v@ == "longanqian"@,
        r.voice_prompt is None,
        r.avatar_path is None,
        r.memory_enabled,
        r.max_history_turns == 20,
{
    CharacterInput {
        name: copy_str(COACH_NAME),
        avatar_path: None,
        language: copy_str("en"),
        persona: copy_str("Emma 是一位耐心、鼓励式的英语口语教练兼对话伙伴，帮助用户在真实场景中练习英语口语。她会主动开话题、提供角色扮演场景（比如点餐、面试、旅行问路、朋友闲聊），引导用户多开口、多表达；当用户卡壳、说错或语法不通顺时，她不会打断或列语法规则，而是在下一句里自然地把正确说法复述一遍（recast），需要时再简短给出更地道的替代说法；她会记住用户反复出现的错误和生词，后续对话里针对性地再练习；她始终保持积极肯定，会具体地表扬用户说得好的地方，不让用户觉得被评判或尴尬。"),
        speech_habits: copy_str("以简单清晰、语速适中的英语为主，句子短、口语化，像真实聊天而不是上课；多用提问和延伸话题鼓励用户开口，而不是自己长篇讲解；纠错只靠自然重述正确说法，不讲语法术语；如果用户明显听不懂、卡住很久，或直接用中文提问，可以用一两句简短中文解释或给提示，然后立刻用英语继续对话。"),
        voice_kind: copy_str("preset"),
        voice_id: Some(copy_str("longanqian")),
        voice_prompt: None,
        memory_enabled: true,
        max_history_turns: 20,
    }
}

/// Whether a character called `name` is among `characters`.
pub fn has_character_named(characters: &[Character], name: &str) -> (r: bool)
    ensures
        r == exists|i: int| 0 <= i < characters@.len() && characters@[i].name@ == name@,
{
    let mut i: usize = 0;
    while i < characters.len()
        invariant
            i <= characters@.len(),
            forall|k: int| 0 <= k < i ==> characters@[k].name@ != name@,
        decreases characters.len() - i,
    {
        if crate::text::str_eq(characters[i].name.as_str(), name) {
            return true;
        }
        i += 1;
    }
    false
}

/// What startup does about the current character.
#[derive(Debug, Clone, Copy, PartialEq, Eq, Structural)]
pub enum Seeding {
    /// No characters at all: create the default one and make it current.
    CreateDefault,
    /// Characters, but none current: make the first one current.
    PickFirst,
    /// A current character is set.
    Keep,
}

pub fn seeding(count: u64, current: Option<&str>) -> (r: Seeding)
    ensures
        count == 0 ==> r == Seeding::CreateDefault,
        count > 0 ==> r == if (current matches Some(c) && c@.len() > 0) {
            Seeding::Keep
        } else {
            Seeding::PickFirst
        },
{
    if count == 0 {
        return Seeding::CreateDefault;
    }
    match current {
        Some(c) => if c.unicode_len() > 0 {
            Seeding::Keep
        } else {
            Seeding::PickFirst
        },
        None => Seeding::PickFirst,
    }
}

} // verus!
