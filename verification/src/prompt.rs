//! The instructions a character's live session is opened with: who the
//! character is, what language it answers in, how a spoken call goes, what
//! it remembers, what was just said, and what time it is.

use vstd::prelude::*;

use crate::text::{chars_of, extend_str, is_blank, is_blank_str, string_of, take_chars, take_chars_exec, trim, trim_chars};

verus! {

/// How many of the latest utterances to paste back when a reconnect has
/// wiped the server-side context: the actual last lines, so the character
/// can continue instead of starting the call over.
pub const RECENT_TURN_LIMIT: usize = 6;
pub const RECENT_TURN_CHARS: usize = 160;

pub struct CharacterPrompt<'a> {
    pub name: &'a str,
    pub persona: &'a str,
    /// "zh" | "ja" | "en" | "auto"
    pub language: &'a str,
    pub speech_habits: &'a str,
    pub memory_block: Option<&'a str>,
    /// Already-formatted tail of the conversation being resumed.
    pub recent_turns: Option<&'a str>,
    /// A new sitting that has an unfinished thread: the session asks for
    /// one spoken sentence before the user talks. Left false on a mid-call
    /// reconnect, where `recent_turns` is what continuity comes from.
    pub invite_open_loop: bool,
}

/// The fixed text of the instructions, in the reply language: a Chinese
/// contract after a one-line "speak Japanese" rule is what the model
/// follows for the first turns.
#[derive(Clone, Copy)]
pub struct PromptCopy {
    pub role: &'static str,
    pub lang_label: &'static str,
    pub lang_line: &'static str,
    pub habits: &'static str,
    /// The spoken-call contract.
    pub contract: &'static str,
    pub memory: &'static str,
    pub memory_rule: &'static str,
    pub open_loop: &'static str,
    pub recent: &'static str,
    pub recent_glue: &'static str,
    pub time: &'static str,
    /// The last line. Empty when the character follows whichever language
    /// the user just spoke.
    pub lock: &'static str,
}

pub const JA_ROLE: &'static str = "[役割]";
pub const JA_LANG_LABEL: &'static str = "[言語]";
pub const JA_LANG_LINE: &'static str = "常に日本語で答えてください";
pub const JA_HABITS: &'static str = "[話し方]";
pub const JA_CONTRACT: &'static str = "[通話] 今は電話中で、声に出して話す。一ターンで一つだけ：相手が今言った具体的な一点を受け止めるか、答えるか、聞き返すか。三つ同時にしない。基本は一文。長く聞かれていなければ言い切らない。ときには「本当？」「ちょっと待って」のような短い相槌だけ。声の調子が聞こえる：笑っている、急いでいる、言いかけて止まっている、その調子で返す。字面だけに答えない。言い切っていないときは短い受けで話を返す。自分の考えを持ってよい。知らなければ知らないとすぐ言う。割り込まれたらそこで止める。謝らない。さっきの文を最初から言い直さない。言わない：お役に立てれば、要するに、AIとして、いい質問ですね、お気持ちはわかります。毎ターン質問で終わらない。markdown、番号リスト、絵文字、括弧内の動作やナレーションは出さない。\n";
pub const JA_MEMORY: &'static str = "[長期記憶]";
pub const JA_MEMORY_RULE: &'static str = "記憶は話がつながるときだけ使い、同じことは一度だけ。「覚えている」とは言わず、記憶を箇条書きで読み上げない。\n";
pub const JA_OPEN_LOOP: &'static str = "相手がまだ話していないこのターンは、上の未完の話題を一つだけ一文で出して、そこで止めて待つ。挨拶も自己紹介もしない。\n";
pub const JA_RECENT: &'static str = "[さっきの話]";
pub const JA_RECENT_GLUE: &'static str = "ここから続ける。挨拶をやり直さない。上の数行を繰り返さない。\n";
pub const JA_TIME: &'static str = "[今]";
pub const JA_LOCK: &'static str = "【言語固定】これ以降、声に出す文はすべて日本語だけ。相手が中国語や英語で話しても、設定・記憶・直前の会話が中国語でも、中国語では答えない。最初の一言から日本語。常に日本語で答えてください\n";
pub const EN_ROLE: &'static str = "[Role]";
pub const EN_LANG_LABEL: &'static str = "[Language]";
pub const EN_LANG_LINE: &'static str = "Always respond in English";
pub const EN_HABITS: &'static str = "[Speech]";
pub const EN_CONTRACT: &'static str = "[Call] You are on a phone call, and the words are spoken. One move per turn: catch the specific thing they just said, or answer, or ask — not all three.Default to one sentence. Don't finish a long explanation they didn't ask for. Sometimes only a short backchannel like \"Really?\" or \"Wait\".You can hear the tone: if they're laughing, rushing, or trailing off, react to that, not just the literal words. If they haven't finished, hand the turn back with a short bridge.You can have your own view, and you can not know. If you don't know, say so.If interrupted, stop. Don't apologize for the interruption, and don't start that sentence over.Don't say: I hope this helps, in short, as an AI, that's a great question, I understand how you feel. Don't end every turn with a question.Don't output markdown, numbered lists, emoji, or stage directions in parentheses.\n";
pub const EN_MEMORY: &'static str = "[Memory]";
pub const EN_MEMORY_RULE: &'static str = "Use a memory only when it connects, and only once. Don't say \"I remember you\", and don't recite the memories as a list.\n";
pub const EN_OPEN_LOOP: &'static str = "On this turn, before they have spoken, raise one unfinished thread above in a single sentence, then stop and wait. No greeting, no introduction.\n";
pub const EN_RECENT: &'static str = "[Just now]";
pub const EN_RECENT_GLUE: &'static str = "Continue from here. Don't greet again, and don't repeat the lines above.\n";
pub const EN_TIME: &'static str = "[Now]";
pub const EN_LOCK: &'static str = "[Language lock] Every spoken sentence from now on is English only. Even if they speak Chinese or Japanese, and even if the persona, memories, and recent lines are in Chinese, do not answer in Chinese. Start with English on the first sentence. Always respond in English\n";
pub const ZH_ROLE: &'static str = "[角色]";
pub const ZH_LANG_LABEL: &'static str = "[语言]";
pub const ZH_LANG_LINE: &'static str = "始终用中文回答";
pub const ZH_HABITS: &'static str = "[语言习惯]";
pub const ZH_CONTRACT: &'static str = "[通话] 你在打电话，话是说出来的。一轮只做一件事：接住对方刚说的那个具体点，或回答，或追问，不要三件一起做。默认一句，对方没问长的就不要讲完；有时只回「真的？」「等等」这种短接话。听得见语气：对方在笑、在赶、话没说完，就按这个反应，不要只答字面。话没说完时用一个短承接把话交回去。可以有自己的看法，也可以不知道，不知道就直接说不知道。被打断就停，不要为被打断道歉，也不要把刚才那句从头再说一遍。不要说：希望这对你有帮助、总之、作为AI、这是个好问题、我理解你的感受。不要每轮都以问句结尾。不要输出 markdown、编号列表、表情符号、括号里的动作描写或旁白。\n";
pub const ZH_MEMORY: &'static str = "[长期记忆]";
pub const ZH_MEMORY_RULE: &'static str = "记忆只用在接得上的时候，同一件提一次。不要说「我记得你」，不要把记忆逐条念出来。\n";
pub const ZH_OPEN_LOOP: &'static str = "对方还没开口的这一轮，用一句话提起上面未完话题里的一件，然后停下等。不要问好，不要自我介绍。\n";
pub const ZH_RECENT: &'static str = "[刚才说到]";
pub const ZH_RECENT_GLUE: &'static str = "从这里接着说。不要重新寒暄，不要把上面几句再讲一遍。\n";
pub const ZH_TIME: &'static str = "[当前时间]";
pub const ZH_LOCK: &'static str = "【语言固定】从现在起每一句都用中文说，即使用户用别的语言也一样。始终用中文回答\n";
pub const FOLLOW_LANG_LINE: &'static str = "跟随用户所使用的语言回答";
pub const FOLLOW_LOCK: &'static str = "";

/// The copy for a reply language: Japanese, English, Chinese, or — for
/// anything else — the Chinese copy that follows the user's language.
pub open spec fn spec_prompt_copy(language: Seq<char>) -> PromptCopy {
    if language == "ja"@ {
        PromptCopy {
            role: JA_ROLE,
            lang_label: JA_LANG_LABEL,
            lang_line: JA_LANG_LINE,
            habits: JA_HABITS,
            contract: JA_CONTRACT,
            memory: JA_MEMORY,
            memory_rule: JA_MEMORY_RULE,
            open_loop: JA_OPEN_LOOP,
            recent: JA_RECENT,
            recent_glue: JA_RECENT_GLUE,
            time: JA_TIME,
            lock: JA_LOCK,
        }
    } else if language == "en"@ {
        PromptCopy {
            role: EN_ROLE,
            lang_label: EN_LANG_LABEL,
            lang_line: EN_LANG_LINE,
            habits: EN_HABITS,
            contract: EN_CONTRACT,
            memory: EN_MEMORY,
            memory_rule: EN_MEMORY_RULE,
            open_loop: EN_OPEN_LOOP,
            recent: EN_RECENT,
            recent_glue: EN_RECENT_GLUE,
            time: EN_TIME,
            lock: EN_LOCK,
        }
    } else if language == "zh"@ {
        PromptCopy {
            role: ZH_ROLE,
            lang_label: ZH_LANG_LABEL,
            lang_line: ZH_LANG_LINE,
            habits: ZH_HABITS,
            contract: ZH_CONTRACT,
            memory: ZH_MEMORY,
            memory_rule: ZH_MEMORY_RULE,
            open_loop: ZH_OPEN_LOOP,
            recent: ZH_RECENT,
            recent_glue: ZH_RECENT_GLUE,
            time: ZH_TIME,
            lock: ZH_LOCK,
        }
    } else {
        PromptCopy {
            role: ZH_ROLE,
            lang_label: ZH_LANG_LABEL,
            lang_line: FOLLOW_LANG_LINE,
            habits: ZH_HABITS,
            contract: ZH_CONTRACT,
            memory: ZH_MEMORY,
            memory_rule: ZH_MEMORY_RULE,
            open_loop: ZH_OPEN_LOOP,
            recent: ZH_RECENT,
            recent_glue: ZH_RECENT_GLUE,
            time: ZH_TIME,
            lock: FOLLOW_LOCK,
        }
    }
}

pub fn prompt_copy(language: &str) -> (r: PromptCopy)
    ensures
        r == spec_prompt_copy(language@),
{
    if crate::text::str_eq(language, "ja") {
        PromptCopy {
            role: JA_ROLE,
            lang_label: JA_LANG_LABEL,
            lang_line: JA_LANG_LINE,
            habits: JA_HABITS,
            contract: JA_CONTRACT,
            memory: JA_MEMORY,
            memory_rule: JA_MEMORY_RULE,
            open_loop: JA_OPEN_LOOP,
            recent: JA_RECENT,
            recent_glue: JA_RECENT_GLUE,
            time: JA_TIME,
            lock: JA_LOCK,
        }
    } else if crate::text::str_eq(language, "en") {
        PromptCopy {
            role: EN_ROLE,
            lang_label: EN_LANG_LABEL,
            lang_line: EN_LANG_LINE,
            habits: EN_HABITS,
            contract: EN_CONTRACT,
            memory: EN_MEMORY,
            memory_rule: EN_MEMORY_RULE,
            open_loop: EN_OPEN_LOOP,
            recent: EN_RECENT,
            recent_glue: EN_RECENT_GLUE,
            time: EN_TIME,
            lock: EN_LOCK,
        }
    } else if crate::text::str_eq(language, "zh") {
        PromptCopy {
            role: ZH_ROLE,
            lang_label: ZH_LANG_LABEL,
            lang_line: ZH_LANG_LINE,
            habits: ZH_HABITS,
            contract: ZH_CONTRACT,
            memory: ZH_MEMORY,
            memory_rule: ZH_MEMORY_RULE,
            open_loop: ZH_OPEN_LOOP,
            recent: ZH_RECENT,
            recent_glue: ZH_RECENT_GLUE,
            time: ZH_TIME,
            lock: ZH_LOCK,
        }
    } else {
        PromptCopy {
            role: ZH_ROLE,
            lang_label: ZH_LANG_LABEL,
            lang_line: FOLLOW_LANG_LINE,
            habits: ZH_HABITS,
            contract: ZH_CONTRACT,
            memory: ZH_MEMORY,
            memory_rule: ZH_MEMORY_RULE,
            open_loop: ZH_OPEN_LOOP,
            recent: ZH_RECENT,
            recent_glue: ZH_RECENT_GLUE,
            time: ZH_TIME,
            lock: FOLLOW_LOCK,
        }
    }
}

/// The memory section: the block, the rule on using it, and — on a new
/// sitting with a thread to pick up — the invitation to raise one.
pub open spec fn memory_part(p: CharacterPrompt, c: PromptCopy) -> Seq<char> {
    match p.memory_block {
        Some(mem) => if mem@.len() > 0 {
            c.memory@ + "\n"@ + mem@ + "\n"@ + c.memory_rule@ + if p.invite_open_loop {
                c.open_loop@
            } else {
                Seq::<char>::empty()
            }
        } else {
            Seq::<char>::empty()
        },
        None => Seq::<char>::empty(),
    }
}

/// The lines just said, when a reconnect resumes a conversation.
pub open spec fn recent_part(p: CharacterPrompt, c: PromptCopy) -> Seq<char> {
    match p.recent_turns {
        Some(turns) => if turns@.len() > 0 {
            c.recent@ + "\n"@ + turns@ + "\n"@ + c.recent_glue@
        } else {
            Seq::<char>::empty()
        },
        None => Seq::<char>::empty(),
    }
}

/// The instructions for `p` at local time `time`: role, language, speech
/// habits when there are any, the call contract, memory, the lines just
/// said, the time, and — last, so it wins over everything before it and
/// over the user's language — the language lock.
pub open spec fn spec_instructions(p: CharacterPrompt, time: Seq<char>) -> Seq<char> {
    let c = spec_prompt_copy(p.language@);
    head_part(p, c) + c.contract@ + memory_part(p, c) + recent_part(p, c) + c.time@ + " "@ + time
        + "\n"@ + c.lock@
}

/// The language lock is the very end of the instructions, after persona,
/// memory and the lines just said — which may all be in another language —
/// so it is what the model reads last.
pub proof fn law_lock_is_last(p: CharacterPrompt, time: Seq<char>)
    ensures
        crate::text::ends_with(spec_instructions(p, time), spec_prompt_copy(p.language@).lock@),
{
    let whole = spec_instructions(p, time);
    let lock = spec_prompt_copy(p.language@).lock@;
    assert(whole.skip(whole.len() - lock.len()) =~= lock);
}

/// Whether a memory block was handed in with anything in it.
pub open spec fn has_memory(p: CharacterPrompt) -> bool {
    p.memory_block matches Some(m) && m@.len() > 0
}

/// Whether lines of a resumed conversation were handed in.
pub open spec fn has_recent(p: CharacterPrompt) -> bool {
    p.recent_turns matches Some(t) && t@.len() > 0
}

/// The instructions in their order: who the character is, the call
/// contract, then a memory section exactly when there is a memory block —
/// the block, the rule on using it, and after it the invitation to pick up
/// a thread only when one is to be raised — then the lines just said
/// exactly when a conversation is resumed, the time, and last the language
/// lock, which is empty exactly when the language is left to follow the
/// user.
pub proof fn law_sections_in_order(p: CharacterPrompt, time: Seq<char>)
    ensures
        ({
            let c = spec_prompt_copy(p.language@);
            let whole = spec_instructions(p, time);
            let mem = memory_part(p, c);
            let recent = recent_part(p, c);
            &&& whole == head_part(p, c) + c.contract@ + mem + recent + c.time@ + " "@ + time
                + "\n"@ + c.lock@
            &&& (mem.len() > 0) == has_memory(p)
            &&& has_memory(p) ==> mem == c.memory@ + "\n"@ + p.memory_block.unwrap()@ + "\n"@
                + c.memory_rule@ + (if p.invite_open_loop {
                c.open_loop@
            } else {
                Seq::<char>::empty()
            })
            &&& (recent.len() > 0) == has_recent(p)
            &&& has_recent(p) ==> recent == c.recent@ + "\n"@ + p.recent_turns.unwrap()@ + "\n"@
                + c.recent_glue@
            &&& crate::text::ends_with(whole, c.lock@)
            &&& (c.lock@.len() == 0) == !(p.language@ == "zh"@ || p.language@ == "ja"@
                || p.language@ == "en"@)
        }),
{
    law_lock_is_last(p, time);
    reveal_strlit("");
    reveal_strlit("zh");
    reveal_strlit("ja");
    reveal_strlit("en");
    reveal_strlit("【言語固定】これ以降、声に出す文はすべて日本語だけ。相手が中国語や英語で話しても、設定・記憶・直前の会話が中国語でも、中国語では答えない。最初の一言から日本語。常に日本語で答えてください\n");
    reveal_strlit("[Language lock] Every spoken sentence from now on is English only. Even if they speak Chinese or Japanese, and even if the persona, memories, and recent lines are in Chinese, do not answer in Chinese. Start with English on the first sentence. Always respond in English\n");
    reveal_strlit("【语言固定】从现在起每一句都用中文说，即使用户用别的语言也一样。始终用中文回答\n");
    let c = spec_prompt_copy(p.language@);
    let mem = memory_part(p, c);
    let recent = recent_part(p, c);
    if has_memory(p) {
        assert(mem.len() >= p.memory_block.unwrap()@.len());
    }
    if has_recent(p) {
        assert(recent.len() >= p.recent_turns.unwrap()@.len());
    }
}

/// The call contract of a language: Japanese and English characters get
/// theirs, every other character the Chinese one.
pub open spec fn contract_for(language: Seq<char>) -> Seq<char> {
    if language == "ja"@ {
        JA_CONTRACT@
    } else if language == "en"@ {
        EN_CONTRACT@
    } else {
        ZH_CONTRACT@
    }
}

/// The call contract is written in the reply language and is in the
/// instructions right after who the character is: an English character is
/// told the English contract, a Japanese one the Japanese contract, and a
/// Chinese or auto one the Chinese contract.
pub proof fn law_contract_is_in_the_reply_language(p: CharacterPrompt, time: Seq<char>)
    ensures
        spec_prompt_copy(p.language@).contract@ == contract_for(p.language@),
        p.language@ == "en"@ ==> spec_prompt_copy(p.language@).contract@ == EN_CONTRACT@,
        p.language@ == "ja"@ ==> spec_prompt_copy(p.language@).contract@ == JA_CONTRACT@,
        p.language@ == "zh"@ ==> spec_prompt_copy(p.language@).contract@ == ZH_CONTRACT@,
        crate::text::occurs_at(
            spec_instructions(p, time),
            contract_for(p.language@),
            head_part(p, spec_prompt_copy(p.language@)).len() as int,
        ),
        crate::text::contains_seq(spec_instructions(p, time), contract_for(p.language@)),
{
    reveal_strlit("zh");
    reveal_strlit("ja");
    reveal_strlit("en");
    assert("en"@ != "ja"@) by {
        assert("en"@[0] != "ja"@[0]);
    }
    assert("zh"@ != "ja"@) by {
        assert("zh"@[0] != "ja"@[0]);
    }
    assert("zh"@ != "en"@) by {
        assert("zh"@[0] != "en"@[0]);
    }
    let c = spec_prompt_copy(p.language@);
    let h = head_part(p, c);
    let whole = spec_instructions(p, time);
    let k = c.contract@;
    assert(whole.subrange(h.len() as int, (h.len() + k.len()) as int) =~= k);
    assert(crate::text::occurs_at(whole, k, h.len() as int));
}

/// Role, language and speech habits.
pub open spec fn head_part(p: CharacterPrompt, c: PromptCopy) -> Seq<char> {
    c.role@ + " "@ + p.name@ + "："@ + p.persona@ + "\n"@ + c.lang_label@ + " "@ + c.lang_line@
        + "\n"@ + (if p.speech_habits@.len() > 0 {
        c.habits@ + " "@ + p.speech_habits@ + "\n"@
    } else {
        Seq::<char>::empty()
    })
}

fn push_head(v: &mut Vec<char>, p: &CharacterPrompt, c: &PromptCopy)
    ensures
        final(v)@ == old(v)@ + head_part(*p, *c),
{
    extend_str(v, c.role);
    extend_str(v, " ");
    extend_str(v, p.name);
    extend_str(v, "：");
    extend_str(v, p.persona);
    extend_str(v, "\n");
    extend_str(v, c.lang_label);
    extend_str(v, " ");
    extend_str(v, c.lang_line);
    extend_str(v, "\n");
    if p.speech_habits.unicode_len() > 0 {
        extend_str(v, c.habits);
        extend_str(v, " ");
        extend_str(v, p.speech_habits);
        extend_str(v, "\n");
    }
    assert(v@ =~= old(v)@ + head_part(*p, *c));
}

fn push_memory(v: &mut Vec<char>, p: &CharacterPrompt, c: &PromptCopy)
    ensures
        final(v)@ == old(v)@ + memory_part(*p, *c),
{
    if let Some(mem) = p.memory_block {
        if mem.unicode_len() > 0 {
            extend_str(v, c.memory);
            extend_str(v, "\n");
            extend_str(v, mem);
            extend_str(v, "\n");
            extend_str(v, c.memory_rule);
            if p.invite_open_loop {
                extend_str(v, c.open_loop);
            }
        }
    }
    assert(v@ =~= old(v)@ + memory_part(*p, *c));
}

fn push_recent(v: &mut Vec<char>, p: &CharacterPrompt, c: &PromptCopy)
    ensures
        final(v)@ == old(v)@ + recent_part(*p, *c),
{
    if let Some(turns) = p.recent_turns {
        if turns.unicode_len() > 0 {
            extend_str(v, c.recent);
            extend_str(v, "\n");
            extend_str(v, turns);
            extend_str(v, "\n");
            extend_str(v, c.recent_glue);
        }
    }
    assert(v@ =~= old(v)@ + recent_part(*p, *c));
}

/// The instructions for `p`, with `time` as the local time.
pub fn instructions_at(p: &CharacterPrompt, time: &str) -> (r: String)
    ensures
        r@ == spec_instructions(*p, time@),
{
    let c = prompt_copy(p.language);
    let mut v: Vec<char> = Vec::new();
    push_head(&mut v, p, &c);
    extend_str(&mut v, c.contract);
    push_memory(&mut v, p, &c);
    push_recent(&mut v, p, &c);
    extend_str(&mut v, c.time);
    extend_str(&mut v, " ");
    extend_str(&mut v, time);
    extend_str(&mut v, "\n");
    extend_str(&mut v, c.lock);
    assert(v@ =~= spec_instructions(*p, time@));
    string_of(&v)
}

/// Two decimal digits read as a number from `lo` to `hi`.
pub open spec fn two_digits(s: Seq<char>, lo: int, hi: int) -> bool {
    &&& s.len() == 2
    &&& '0' <= s[0] <= '9'
    &&& '0' <= s[1] <= '9'
    &&& lo <= (s[0] as int - 48) * 10 + (s[1] as int - 48) <= hi
}

/// The English name of weekday `w`, Monday first.
pub open spec fn weekday_name(w: int) -> Seq<char> {
    if w == 0 {
        "Monday"@
    } else if w == 1 {
        "Tuesday"@
    } else if w == 2 {
        "Wednesday"@
    } else if w == 3 {
        "Thursday"@
    } else if w == 4 {
        "Friday"@
    } else if w == 5 {
        "Saturday"@
    } else {
        "Sunday"@
    }
}

/// The text `%Y-%m-%d %H:%M %A` writes for these parts.
pub open spec fn clock_text(
    year: Seq<char>,
    mo: Seq<char>,
    d: Seq<char>,
    h: Seq<char>,
    mi: Seq<char>,
    w: int,
) -> Seq<char> {
    year + "-"@ + mo + "-"@ + d + " "@ + h + ":"@ + mi + " "@ + weekday_name(w)
}

/// A local time as `%Y-%m-%d %H:%M %A` writes it: the year, two-digit
/// month, day, hour and minute, and the weekday's English name.
pub open spec fn is_clock_text(s: Seq<char>) -> bool {
    exists|year: Seq<char>, mo: Seq<char>, d: Seq<char>, h: Seq<char>, mi: Seq<char>, w: int|
        two_digits(mo, 1, 12) && two_digits(d, 1, 31) && two_digits(h, 0, 23) && two_digits(
            mi,
            0,
            59,
        ) && 0 <= w < 7 && s == #[trigger] clock_text(year, mo, d, h, mi, w)
}

/// `chrono::Local::now()` formatted as `%Y-%m-%d %H:%M %A`: the local date,
/// time and weekday in that shape. Which moment it is depends on the clock
/// and the machine's time zone, and is not stated.
#[verifier::external_body]
fn local_time_text() -> (r: String)
    ensures
        is_clock_text(r@),
{
    chrono::Local::now().format("%Y-%m-%d %H:%M %A").to_string()
}

/// The instructions for `p` as of now.
pub fn build_instructions(p: &CharacterPrompt) -> (r: String)
    ensures
        exists|time: Seq<char>| is_clock_text(time) && r@ == spec_instructions(*p, time),
{
    let now = local_time_text();
    let r = instructions_at(p, now.as_str());
    assert(is_clock_text(now@) && r@ == spec_instructions(*p, now@));
    r
}

// ---------------------------------------------------------------------
// The lines just said.

/// The turns that hold something: a user turn whose transcription never
/// arrived is stored blank and would show up as a silent line.
pub open spec fn spoken<'a>(turns: Seq<(&'a str, &'a str)>) -> Seq<(&'a str, &'a str)>
    decreases turns.len(),
{
    if turns.len() == 0 {
        Seq::<(&'a str, &'a str)>::empty()
    } else if is_blank(turns.last().1@) {
        spoken(turns.drop_last())
    } else {
        spoken(turns.drop_last()).push(turns.last())
    }
}

/// The last `RECENT_TURN_LIMIT` of them.
pub open spec fn tail<'a>(turns: Seq<(&'a str, &'a str)>) -> Seq<(&'a str, &'a str)> {
    if turns.len() <= RECENT_TURN_LIMIT {
        turns
    } else {
        turns.skip(turns.len() - RECENT_TURN_LIMIT)
    }
}

/// `who：text`, the text trimmed and cut to `RECENT_TURN_CHARS`.
pub open spec fn turn_line(speaker: Seq<char>, turn: (&str, &str)) -> Seq<char> {
    (if turn.0@ == "user"@ {
        "用户"@
    } else {
        speaker
    }) + "："@ + take_chars(trim(turn.1@), RECENT_TURN_CHARS as int)
}

pub open spec fn turn_lines(speaker: Seq<char>, turns: Seq<(&str, &str)>) -> Seq<char>
    decreases turns.len(),
{
    if turns.len() == 0 {
        Seq::<char>::empty()
    } else if turns.len() == 1 {
        turn_line(speaker, turns[0])
    } else {
        turn_lines(speaker, turns.drop_last()) + "\n"@ + turn_line(speaker, turns.last())
    }
}

/// The chronological tail of a transcript, for the lines-just-said
/// section: the last six turns that hold something, each cut to 160
/// characters. Nothing when nothing was said.
pub fn format_recent_turns(speaker_name: &str, messages: &[(&str, &str)]) -> (r: Option<String>)
    ensures
        spoken(messages@).len() == 0 ==> r is None,
        spoken(messages@).len() > 0 ==> (r matches Some(s) && s@ == turn_lines(
            speaker_name@,
            tail(spoken(messages@)),
        )),
{
    let mut kept: Vec<(&str, &str)> = Vec::new();
    let mut i: usize = 0;
    while i < messages.len()
        invariant
            i <= messages@.len(),
            kept@ == spoken(messages@.take(i as int)),
        decreases messages.len() - i,
    {
        assert(messages@.take(i + 1).drop_last() =~= messages@.take(i as int));
        assert(messages@.take(i + 1).last() == messages@[i as int]);
        let (role, text) = messages[i];
        if !is_blank_str(text) {
            kept.push((role, text));
        }
        i += 1;
    }
    assert(messages@.take(messages@.len() as int) =~= messages@);
    if kept.len() == 0 {
        return None;
    }
    let start: usize = if kept.len() > RECENT_TURN_LIMIT {
        kept.len() - RECENT_TURN_LIMIT
    } else {
        0
    };
    let ghost t = tail(kept@);
    assert(t =~= kept@.skip(start as int));
    let mut v: Vec<char> = Vec::new();
    let mut j: usize = start;
    while j < kept.len()
        invariant
            start <= j <= kept@.len(),
            t == kept@.skip(start as int),
            v@ == turn_lines(speaker_name@, t.take(j - start)),
        decreases kept.len() - j,
    {
        let ghost k = j - start;
        assert(t.take(k + 1).drop_last() =~= t.take(k));
        assert(t.take(k + 1).last() == kept@[j as int]);
        if j > start {
            extend_str(&mut v, "\n");
        }
        let (role, text) = kept[j];
        if crate::text::str_eq(role, "user") {
            extend_str(&mut v, "用户");
        } else {
            extend_str(&mut v, speaker_name);
        }
        extend_str(&mut v, "：");
        let cs = chars_of(text);
        let tr = trim_chars(&cs);
        let body = take_chars_exec(&tr, RECENT_TURN_CHARS);
        crate::text::extend_chars(&mut v, &body);
        proof {
            if k == 0 {
                assert(v@ =~= turn_lines(speaker_name@, t.take(1)));
            } else {
                assert(v@ =~= turn_lines(speaker_name@, t.take(k + 1)));
            }
        }
        j += 1;
    }
    assert(t.take(t.len() as int) =~= t);
    Some(string_of(&v))
}

} // verus!
