//! A character's long-term memory: what of it goes into the instructions on
//! every connect, how a conversation is put to the summarizer and what is
//! kept of its answer, and which stored facts repeat one another.
//!
//! The calls to the model and the database are the application's; every
//! decision around them is here.

use vstd::prelude::*;

use crate::checks::FloatValue;
use crate::message::Message;
use crate::text::{
    chars_of, copy_str, extend_chars, extend_str, is_blank, is_blank_str, string_of, take_chars,
    take_chars_exec, trim, trim_chars, trim_str,
};

verus! {

/// Roughly 800 tokens' worth of characters for the injected `[长期记忆]`
/// block: CJK text runs close to 1-1.5 chars/token.
pub const INJECT_BUDGET_CHARS: usize = 700;
pub const MAX_FACTS_PER_CHARACTER: usize = 30;
/// Enough of a conversation to tell what it is about.
pub const TITLE_CONTEXT_MESSAGES: usize = 12;
/// Hard cap on a stored title, in characters.
pub const MAX_TITLE_CHARS: usize = 40;

#[derive(Debug)]
pub struct Memory {
    pub id: String,
    pub character_id: String,
    /// profile|fact|summary|open_loop
    pub kind: String,
    pub content: String,
    pub salience: FloatValue,
    pub updated_at: String,
}

impl Memory {
    pub fn copy(&self) -> (r: Memory)
        ensures
            r == *self,
    {
        Memory {
            id: self.id.clone(),
            character_id: self.character_id.clone(),
            kind: self.kind.clone(),
            content: self.content.clone(),
            salience: self.salience.copy(),
            updated_at: self.updated_at.clone(),
        }
    }
}

/// Memory text no real string comes near: what lets the block's lengths
/// be counted in `usize`.
pub open spec fn countable(m: Memory) -> bool {
    m.content@.len() <= usize::MAX / 2
}

// ---------------------------------------------------------------------
// One memory as a line of the block.

pub open spec fn spec_label(kind: Seq<char>) -> Seq<char> {
    if kind == "summary"@ {
        "摘要"@
    } else if kind == "open_loop"@ {
        "未完话题"@
    } else if kind == "profile"@ {
        "画像"@
    } else {
        "事实"@
    }
}

fn memory_label(kind: &str) -> (r: &'static str)
    ensures
        r@ == spec_label(kind@),
        r@.len() <= 4,
{
    proof {
        reveal_strlit("摘要");
        reveal_strlit("未完话题");
        reveal_strlit("画像");
        reveal_strlit("事实");
    }
    if crate::text::str_eq(kind, "summary") {
        "摘要"
    } else if crate::text::str_eq(kind, "open_loop") {
        "未完话题"
    } else if crate::text::str_eq(kind, "profile") {
        "画像"
    } else {
        "事实"
    }
}

/// `摘要：…`, `事实：…` and so on, the content trimmed.
pub open spec fn spec_line(m: Memory) -> Seq<char> {
    spec_label(m.kind@) + "："@ + trim(m.content@)
}

fn push_line(v: &mut Vec<char>, m: &Memory)
    ensures
        final(v)@ == old(v)@ + spec_line(*m),
{
    extend_str(v, memory_label(m.kind.as_str()));
    extend_str(v, "：");
    let c = chars_of(m.content.as_str());
    let t = trim_chars(&c);
    extend_chars(v, &t);
    assert(v@ =~= old(v)@ + spec_line(*m));
}

pub fn memory_line(m: &Memory) -> (r: String)
    ensures
        r@ == spec_line(*m),
{
    let mut v: Vec<char> = Vec::new();
    push_line(&mut v, m);
    assert(v@ =~= spec_line(*m));
    string_of(&v)
}

/// What one memory adds to the block: its line plus the newline joining it
/// to the next. One newline more than the block ends up holding, which
/// only ever errs toward fitting.
pub open spec fn spec_cost(m: Memory) -> nat {
    spec_line(m).len() + 1
}

proof fn lemma_cost_bound(m: Memory)
    requires
        countable(m),
    ensures
        spec_cost(m) <= usize::MAX / 2 + 8,
{
    crate::text::lemma_trim_len(m.content@);
    reveal_strlit("：");
    assert(spec_label(m.kind@).len() <= 4) by {
        reveal_strlit("摘要");
        reveal_strlit("未完话题");
        reveal_strlit("画像");
        reveal_strlit("事实");
    }
}

pub fn line_cost(m: &Memory) -> (n: usize)
    requires
        countable(*m),
    ensures
        n == spec_cost(*m),
{
    proof {
        lemma_cost_bound(*m);
    }
    let line = memory_line(m);
    line.unicode_len() + 1
}

/// The lines joined by newlines.
pub open spec fn spec_block(ms: Seq<Memory>) -> Seq<char>
    decreases ms.len(),
{
    if ms.len() == 0 {
        Seq::<char>::empty()
    } else if ms.len() == 1 {
        spec_line(ms[0])
    } else {
        spec_block(ms.drop_last()) + "\n"@ + spec_line(ms.last())
    }
}

pub fn concat_memories(memories: &[Memory]) -> (r: String)
    ensures
        r@ == spec_block(memories@),
{
    let mut v: Vec<char> = Vec::new();
    let mut i: usize = 0;
    while i < memories.len()
        invariant
            i <= memories@.len(),
            v@ == spec_block(memories@.take(i as int)),
        decreases memories.len() - i,
    {
        assert(memories@.take(i + 1).drop_last() =~= memories@.take(i as int));
        if i > 0 {
            extend_str(&mut v, "\n");
        }
        push_line(&mut v, &memories[i]);
        proof {
            if i == 0 {
                assert(v@ =~= spec_block(memories@.take(1)));
            } else {
                assert(v@ =~= spec_block(memories@.take(i + 1)));
            }
        }
        i += 1;
    }
    assert(memories@.take(memories@.len() as int) =~= memories@);
    string_of(&v)
}

// ---------------------------------------------------------------------
// What goes into the block.

/// The memories of `ms` that pass `p`, in order.
pub open spec fn keep(ms: Seq<Memory>, p: spec_fn(Memory) -> bool) -> Seq<Memory>
    decreases ms.len(),
{
    if ms.len() == 0 {
        Seq::<Memory>::empty()
    } else if p(ms.last()) {
        keep(ms.drop_last(), p).push(ms.last())
    } else {
        keep(ms.drop_last(), p)
    }
}

/// Where a pinned memory goes: the summary first, the profile next, then
/// everything else — unfinished threads — in the order given.
pub open spec fn rank(kind: Seq<char>) -> int {
    if kind == "summary"@ {
        0
    } else if kind == "profile"@ {
        1
    } else {
        2
    }
}

pub open spec fn is_fact(m: Memory) -> bool {
    m.kind@ == "fact"@
}

pub open spec fn pinned_at(r: int) -> spec_fn(Memory) -> bool {
    |m: Memory| !is_blank(m.content@) && !is_fact(m) && rank(m.kind@) == r
}

pub open spec fn usable_fact() -> spec_fn(Memory) -> bool {
    |m: Memory| !is_blank(m.content@) && is_fact(m)
}

/// The memories that always go in, in the order they are written: the
/// summary, then the profile, then every unfinished thread.
pub open spec fn pinned(ms: Seq<Memory>) -> Seq<Memory> {
    keep(ms, pinned_at(0)) + keep(ms, pinned_at(1)) + keep(ms, pinned_at(2))
}

pub open spec fn total_cost(ms: Seq<Memory>) -> nat
    decreases ms.len(),
{
    if ms.len() == 0 {
        0
    } else {
        total_cost(ms.drop_last()) + spec_cost(ms.last())
    }
}

/// The facts offered the budget in turn, each taken when it still fits in
/// what is left and skipped when it doesn't — a shorter one after it may
/// still fit. Returns what was taken and the budget then used.
pub open spec fn fill(facts: Seq<Memory>, used: int) -> (Seq<Memory>, int)
    decreases facts.len(),
{
    if facts.len() == 0 {
        (Seq::<Memory>::empty(), used)
    } else {
        let (taken, u) = fill(facts.drop_last(), used);
        let f = facts.last();
        if u + spec_cost(f) <= INJECT_BUDGET_CHARS {
            (taken.push(f), u + spec_cost(f))
        } else {
            (taken, u)
        }
    }
}

/// What goes into the `[长期记忆]` block, from a character's memories
/// newest first: the pinned ones, then as many non-blank facts as the rest
/// of the budget holds, most recently confirmed first.
pub open spec fn spec_select(ms: Seq<Memory>) -> Seq<Memory> {
    let p = pinned(ms);
    p + fill(keep(ms, usable_fact()), total_cost(p) as int).0
}

proof fn lemma_keep_step(ms: Seq<Memory>, p: spec_fn(Memory) -> bool, i: int)
    requires
        0 <= i < ms.len(),
    ensures
        keep(ms.take(i + 1), p) == if p(ms[i]) {
            keep(ms.take(i), p).push(ms[i])
        } else {
            keep(ms.take(i), p)
        },
{
    assert(ms.take(i + 1).drop_last() =~= ms.take(i));
}

proof fn lemma_total_cost_append(a: Seq<Memory>, b: Seq<Memory>)
    ensures
        total_cost(a + b) == total_cost(a) + total_cost(b),
    decreases b.len(),
{
    if b.len() == 0 {
        assert(a + b =~= a);
    } else {
        assert((a + b).drop_last() =~= a + b.drop_last());
        lemma_total_cost_append(a, b.drop_last());
    }
}

/// Copies of the memories of `ms` that pass the pinned test for `r`.
fn pick_rank(ms: &[Memory], r: u8) -> (out: Vec<Memory>)
    requires
        r <= 2,
    ensures
        out@ == keep(ms@, pinned_at(r as int)),
{
    let mut out: Vec<Memory> = Vec::new();
    let mut i: usize = 0;
    while i < ms.len()
        invariant
            i <= ms@.len(),
            r <= 2,
            out@ == keep(ms@.take(i as int), pinned_at(r as int)),
        decreases ms.len() - i,
    {
        let m = &ms[i];
        proof {
            lemma_keep_step(ms@, pinned_at(r as int), i as int);
        }
        let kind = m.kind.as_str();
        let rank_here: u8 = if crate::text::str_eq(kind, "summary") {
            0
        } else if crate::text::str_eq(kind, "profile") {
            1
        } else {
            2
        };
        if !is_blank_str(m.content.as_str()) && !crate::text::str_eq(kind, "fact") && rank_here
            == r {
            out.push(m.copy());
        }
        i += 1;
    }
    assert(ms@.take(ms@.len() as int) =~= ms@);
    out
}

fn usable_facts(ms: &[Memory]) -> (out: Vec<Memory>)
    ensures
        out@ == keep(ms@, usable_fact()),
{
    let mut out: Vec<Memory> = Vec::new();
    let mut i: usize = 0;
    while i < ms.len()
        invariant
            i <= ms@.len(),
            out@ == keep(ms@.take(i as int), usable_fact()),
        decreases ms.len() - i,
    {
        let m = &ms[i];
        proof {
            lemma_keep_step(ms@, usable_fact(), i as int);
        }
        if !is_blank_str(m.content.as_str()) && crate::text::str_eq(m.kind.as_str(), "fact") {
            out.push(m.copy());
        }
        i += 1;
    }
    assert(ms@.take(ms@.len() as int) =~= ms@);
    out
}

proof fn lemma_keep_countable(ms: Seq<Memory>, p: spec_fn(Memory) -> bool)
    requires
        forall|k: int| 0 <= k < ms.len() ==> countable(#[trigger] ms[k]),
    ensures
        forall|k: int| 0 <= k < keep(ms, p).len() ==> countable(#[trigger] keep(ms, p)[k]),
    decreases ms.len(),
{
    if ms.len() > 0 {
        let d = ms.drop_last();
        assert forall|k: int| 0 <= k < d.len() implies countable(#[trigger] d[k]) by {
            assert(d[k] == ms[k]);
        }
        lemma_keep_countable(d, p);
        let kd = keep(d, p);
        assert(countable(ms[ms.len() - 1]));
        if p(ms.last()) {
            assert forall|k: int| 0 <= k < keep(ms, p).len() implies countable(
                #[trigger] keep(ms, p)[k],
            ) by {
                if k < kd.len() {
                    assert(keep(ms, p)[k] == kd[k]);
                }
            }
        }
    }
}

/// Picks what goes into the `[长期记忆]` block, as `spec_select`
/// describes, from a character's memories newest first.
pub fn select_for_injection(memories: &[Memory]) -> (picked: Vec<Memory>)
    requires
        forall|k: int| 0 <= k < memories@.len() ==> countable(#[trigger] memories@[k]),
    ensures
        picked@ == spec_select(memories@),
{
    let mut picked = pick_rank(memories, 0);
    let mut profile = pick_rank(memories, 1);
    let mut threads = pick_rank(memories, 2);
    picked.append(&mut profile);
    picked.append(&mut threads);
    let ghost pins = picked@;
    assert(pins =~= pinned(memories@));
    proof {
        lemma_keep_countable(memories@, pinned_at(0));
        lemma_keep_countable(memories@, pinned_at(1));
        lemma_keep_countable(memories@, pinned_at(2));
        assert forall|k: int| 0 <= k < pins.len() implies countable(#[trigger] pins[k]) by {
            let a = keep(memories@, pinned_at(0));
            let b = keep(memories@, pinned_at(1));
            if k < a.len() {
                assert(pins[k] == a[k]);
            } else if k < a.len() + b.len() {
                assert(pins[k] == b[k - a.len()]);
            } else {
                assert(pins[k] == keep(memories@, pinned_at(2))[k - a.len() - b.len()]);
            }
        }
    }
    // The budget the pinned memories use, saturating: past the budget it
    // makes no difference by how much.
    let mut used: usize = 0;
    let mut i: usize = 0;
    while i < picked.len()
        invariant
            i <= picked@.len(),
            picked@ == pins,
            forall|k: int| 0 <= k < pins.len() ==> countable(#[trigger] pins[k]),
            used == if total_cost(pins.take(i as int)) <= usize::MAX {
                total_cost(pins.take(i as int))
            } else {
                usize::MAX as nat
            },
        decreases picked.len() - i,
    {
        assert(pins.take(i + 1).drop_last() =~= pins.take(i as int));
        let cost = line_cost(&picked[i]);
        used = used.saturating_add(cost);
        i += 1;
    }
    assert(pins.take(pins.len() as int) =~= pins);
    let facts = usable_facts(memories);
    proof {
        lemma_keep_countable(memories@, usable_fact());
    }
    let ghost start: int = total_cost(pins) as int;
    let mut j: usize = 0;
    while j < facts.len()
        invariant
            j <= facts@.len(),
            facts@ == keep(memories@, usable_fact()),
            forall|k: int| 0 <= k < facts@.len() ==> countable(#[trigger] facts@[k]),
            picked@ == pins + fill(facts@.take(j as int), start).0,
            start == total_cost(pins),
            used == if fill(facts@.take(j as int), start).1 <= usize::MAX {
                fill(facts@.take(j as int), start).1
            } else {
                usize::MAX as int
            },
            fill(facts@.take(j as int), start).1 >= start,
            start >= 0,
        decreases facts.len() - j,
    {
        assert(facts@.take(j + 1).drop_last() =~= facts@.take(j as int));
        assert(facts@.take(j + 1).last() == facts@[j as int]);
        let cost = line_cost(&facts[j]);
        if cost <= INJECT_BUDGET_CHARS && used <= INJECT_BUDGET_CHARS - cost {
            used = used + cost;
            picked.push(facts[j].copy());
        }
        j += 1;
    }
    assert(facts@.take(facts@.len() as int) =~= facts@);
    picked
}

proof fn lemma_block_len(ms: Seq<Memory>)
    requires
        ms.len() > 0,
    ensures
        spec_block(ms).len() + 1 == total_cost(ms),
    decreases ms.len(),
{
    reveal_strlit("\n");
    assert("\n"@.len() == 1);
    if ms.len() == 1 {
        assert(ms.drop_last().len() == 0);
        assert(total_cost(ms.drop_last()) == 0);
        assert(ms.last() == ms[0]);
    } else {
        lemma_block_len(ms.drop_last());
        assert(spec_block(ms) == spec_block(ms.drop_last()) + "\n"@ + spec_line(ms.last()));
    }
}

proof fn lemma_fill(facts: Seq<Memory>, used: int)
    ensures
        fill(facts, used).1 == used + total_cost(fill(facts, used).0),
        used <= INJECT_BUDGET_CHARS ==> fill(facts, used).1 <= INJECT_BUDGET_CHARS,
    decreases facts.len(),
{
    if facts.len() > 0 {
        lemma_fill(facts.drop_last(), used);
        let (taken, u) = fill(facts.drop_last(), used);
        let f = facts.last();
        if u + spec_cost(f) <= INJECT_BUDGET_CHARS {
            assert(taken.push(f).drop_last() =~= taken);
        }
    }
}

/// The block never runs over the budget unless the memories that always go
/// in — the summary, the profile and the unfinished threads — already do
/// on their own: facts are only taken while they fit.
pub proof fn law_injection_fits(ms: Seq<Memory>)
    requires
        total_cost(pinned(ms)) <= INJECT_BUDGET_CHARS,
    ensures
        spec_block(spec_select(ms)).len() <= INJECT_BUDGET_CHARS,
{
    let p = pinned(ms);
    let f = fill(keep(ms, usable_fact()), total_cost(p) as int);
    lemma_fill(keep(ms, usable_fact()), total_cost(p) as int);
    lemma_total_cost_append(p, f.0);
    if spec_select(ms).len() > 0 {
        lemma_block_len(spec_select(ms));
    }
}

// ---------------------------------------------------------------------
// The block itself.

/// What becomes of the picked memories on the way into the instructions.
#[derive(Debug)]
pub enum Injection {
    /// Nothing is remembered yet: no block at all.
    Nothing,
    /// The block, within the budget as it is.
    Ready { block: String },
    /// The block runs over the budget — only a summary and threads
    /// lengthened by hand can do that — and is to be compressed by the
    /// model, or cut to the budget if compression fails.
    Compress { block: String },
}

/// What the model is asked when the block has to be compressed.
pub const COMPRESS_PROMPT: &'static str = "请把下面的长期记忆压到300字以内，保留最重要的信息，尤其是未完话题。保留「摘要」「未完话题」「事实」这些前缀。直接输出正文，不要解释、不要加引号。";

/// Builds the `[长期记忆]` block from memories already picked by
/// `select_for_injection`, and says whether it still needs compressing.
pub fn build_injection_block(memories: &[Memory]) -> (r: Injection)
    ensures
        memories@.len() == 0 ==> r is Nothing,
        memories@.len() > 0 ==> match r {
            Injection::Ready { block } => block@ == spec_block(memories@) && block@.len()
                <= INJECT_BUDGET_CHARS,
            Injection::Compress { block } => block@ == spec_block(memories@) && block@.len()
                > INJECT_BUDGET_CHARS,
            Injection::Nothing => false,
        },
{
    if memories.len() == 0 {
        return Injection::Nothing;
    }
    let block = concat_memories(memories);
    if block.unicode_len() <= INJECT_BUDGET_CHARS {
        Injection::Ready { block }
    } else {
        Injection::Compress { block }
    }
}

/// The block cut to the budget, for when compressing it fails.
pub fn truncate_block(block: &str) -> (r: String)
    ensures
        r@ == take_chars(block@, INJECT_BUDGET_CHARS as int),
{
    let v = chars_of(block);
    let t = take_chars_exec(&v, INJECT_BUDGET_CHARS);
    string_of(&t)
}

// ---------------------------------------------------------------------
// Putting a conversation to the summarizer.

/// What the summarizer is told to do: fold this conversation into the
/// rolling summary, list what is new, revise what changed, keep what is
/// still open — as strict JSON.
pub const SUMMARY_PROMPT: &'static str = "你是语音陪聊应用的记忆整理助手。基于本轮对话记录（可能附带历史摘要、已知事实和未完话题），输出严格的 JSON，不要有任何其他文字：{\"summary\": \"合并历史摘要与本轮内容后的滚动摘要，不超过200字，保留称呼、相处节奏和对方在意的事\", \"facts\": [\"本轮新出现的稳定事实，如偏好、称呼、约定，每条不超过40字\"], \"revised_facts\": [{\"n\": 已知事实的编号, \"text\": \"更新后的内容，不超过40字\"}], \"open_loops\": [\"下次可以自然提起的未完话题，每条不超过30字\"]}facts 最多 5 条，open_loops 最多 3 条，没有就给空数组。未完话题只写进 open_loops，summary 里不要重复。facts 只写已知事实里没有的；意思相同、只是说法不同的也算已有，不要再写。已知事实被本轮对话推翻或改变了（比如换了称呼、改了偏好），放进 revised_facts，按编号给出新内容，不要再写进 facts；只是换个说法的不要改。没有就给空数组。open_loops 只留现在还没了结的事。附带的旧话题如果本轮没解决，要保留；已经问过或已经解决的不要留。";

/// Who said a line: the user, or the character by name.
pub open spec fn speaker(role: Seq<char>, name: Seq<char>) -> Seq<char> {
    if role == "user"@ {
        "用户"@
    } else {
        name
    }
}

pub open spec fn transcript_line(m: Message, name: Seq<char>) -> Seq<char> {
    speaker(m.role@, name) + ": "@ + m.text@
}

/// The messages as `speaker: text` lines, joined by newlines.
pub open spec fn transcript(ms: Seq<Message>, name: Seq<char>) -> Seq<char>
    decreases ms.len(),
{
    if ms.len() == 0 {
        Seq::<char>::empty()
    } else if ms.len() == 1 {
        transcript_line(ms[0], name)
    } else {
        transcript(ms.drop_last(), name) + "\n"@ + transcript_line(ms.last(), name)
    }
}

fn push_transcript_line(v: &mut Vec<char>, m: &Message, name: &str)
    ensures
        final(v)@ == old(v)@ + transcript_line(*m, name@),
{
    if crate::text::str_eq(m.role.as_str(), "user") {
        extend_str(v, "用户");
    } else {
        extend_str(v, name);
    }
    extend_str(v, ": ");
    extend_str(v, m.text.as_str());
    assert(v@ =~= old(v)@ + transcript_line(*m, name@));
}

fn push_transcript(v: &mut Vec<char>, ms: &[Message], name: &str)
    ensures
        final(v)@ == old(v)@ + transcript(ms@, name@),
{
    let ghost start = v@;
    let mut i: usize = 0;
    assert(ms@.take(0) =~= Seq::<Message>::empty());
    assert(start + transcript(ms@.take(0), name@) =~= start);
    while i < ms.len()
        invariant
            i <= ms@.len(),
            v@ == start + transcript(ms@.take(i as int), name@),
            start == old(v)@,
        decreases ms.len() - i,
    {
        assert(ms@.take(i + 1).drop_last() =~= ms@.take(i as int));
        if i > 0 {
            extend_str(v, "\n");
        }
        push_transcript_line(v, &ms[i], name);
        proof {
            if i == 0 {
                assert(v@ =~= start + transcript(ms@.take(1), name@));
            } else {
                assert(v@ =~= start + transcript(ms@.take(i + 1), name@));
            }
        }
        i += 1;
    }
    assert(ms@.take(ms@.len() as int) =~= ms@);
}

/// `1. fact`, `2. fact`, … one per line: the numbers are what a revision
/// names a fact by.
pub open spec fn numbered(facts: Seq<String>) -> Seq<char>
    decreases facts.len(),
{
    if facts.len() == 0 {
        Seq::<char>::empty()
    } else {
        numbered(facts.drop_last()) + crate::text::decimal(facts.len()) + ". "@ + trim(
            facts.last()@,
        ) + "\n"@
    }
}

/// `- thread` for each thread that isn't blank, one per line.
pub open spec fn pending_lines(loops: Seq<String>) -> Seq<char>
    decreases loops.len(),
{
    if loops.len() == 0 {
        Seq::<char>::empty()
    } else if is_blank(loops.last()@) {
        pending_lines(loops.drop_last())
    } else {
        pending_lines(loops.drop_last()) + "- "@ + trim(loops.last()@) + "\n"@
    }
}

/// What the summarizer is shown: the known facts, numbered; the threads
/// still open; the summary so far; then this conversation. Each part only
/// when there is something in it.
pub open spec fn spec_summary_request(
    name: Seq<char>,
    previous_summary: Option<Seq<char>>,
    known_facts: Seq<String>,
    open_loops: Seq<String>,
    messages: Seq<Message>,
) -> Seq<char> {
    let facts = if known_facts.len() > 0 {
        "已知事实：\n"@ + numbered(known_facts) + "\n"@
    } else {
        Seq::<char>::empty()
    };
    let pending = pending_lines(open_loops);
    let threads = if pending.len() > 0 {
        "仍未了结的话题：\n"@ + pending + "\n"@
    } else {
        Seq::<char>::empty()
    };
    let summary = match previous_summary {
        Some(p) => if is_blank(p) {
            Seq::<char>::empty()
        } else {
            "历史摘要："@ + trim(p) + "\n\n"@
        },
        None => Seq::<char>::empty(),
    };
    facts + threads + summary + "本轮对话：\n"@ + transcript(messages, name)
}

/// Why a conversation can't be summarized or named, or what the model gave
/// back can't be used.
#[derive(Debug)]
pub enum MemoryError {
    NothingToSummarize,
    NothingToName,
    /// The summary isn't the JSON asked for: the parser's account of why,
    /// and what came back.
    Unparsable { detail: String, raw: String },
    /// The title the model gave is empty once cleaned up.
    NoTitle { raw: String },
}

pub open spec fn spec_memory_error_message(e: MemoryError, lang: crate::i18n::Lang) -> Seq<char> {
    match e {
        MemoryError::NothingToSummarize => crate::i18n::tr(
            lang,
            "Nothing in this conversation to summarize"@,
            "没有可摘要的对话内容"@,
        ),
        MemoryError::NothingToName => crate::i18n::tr(
            lang,
            "Nothing in this conversation to name"@,
            "没有可命名的对话内容"@,
        ),
        MemoryError::Unparsable { detail, raw } => crate::i18n::tr(
            lang,
            "Could not parse the summary: "@ + detail@ + "; raw: "@,
            "解析摘要失败: "@ + detail@ + "; 原始: "@,
        ) + crate::dashscope::spec_snippet(raw@, lang),
        MemoryError::NoTitle { raw } => crate::i18n::tr(
            lang,
            "The model returned no usable title; raw: "@,
            "模型没有返回可用的标题; 原始: "@,
        ) + crate::dashscope::spec_snippet(raw@, lang),
    }
}

impl MemoryError {
    pub fn message(&self, lang: crate::i18n::Lang) -> (r: String)
        ensures
            r@ == spec_memory_error_message(*self, lang),
    {
        let en = lang == crate::i18n::Lang::En;
        let mut v: Vec<char> = Vec::new();
        match self {
            MemoryError::NothingToSummarize => extend_str(
                &mut v,
                if en { "Nothing in this conversation to summarize" } else { "没有可摘要的对话内容" },
            ),
            MemoryError::NothingToName => extend_str(
                &mut v,
                if en { "Nothing in this conversation to name" } else { "没有可命名的对话内容" },
            ),
            MemoryError::Unparsable { detail, raw } => {
                extend_str(&mut v, if en { "Could not parse the summary: " } else { "解析摘要失败: " });
                extend_str(&mut v, detail.as_str());
                extend_str(&mut v, if en { "; raw: " } else { "; 原始: " });
                let sn = crate::dashscope::snippet(raw.as_str(), lang);
                extend_str(&mut v, sn.as_str());
            },
            MemoryError::NoTitle { raw } => {
                extend_str(
                    &mut v,
                    if en { "The model returned no usable title; raw: " } else { "模型没有返回可用的标题; 原始: " },
                );
                let sn = crate::dashscope::snippet(raw.as_str(), lang);
                extend_str(&mut v, sn.as_str());
            },
        }
        assert(v@ =~= spec_memory_error_message(*self, lang));
        string_of(&v)
    }
}

fn push_numbered(v: &mut Vec<char>, facts: &[String])
    ensures
        final(v)@ == old(v)@ + numbered(facts@),
{
    let ghost start = v@;
    let mut i: usize = 0;
    assert(facts@.take(0) =~= Seq::<String>::empty());
    assert(start + numbered(facts@.take(0)) =~= start);
    while i < facts.len()
        invariant
            i <= facts@.len(),
            v@ == start + numbered(facts@.take(i as int)),
            start == old(v)@,
        decreases facts.len() - i,
    {
        assert(facts@.take(i + 1).drop_last() =~= facts@.take(i as int));
        assert(facts@.take(i + 1).len() == i + 1);
        crate::text::push_decimal(v, (i as u64) + 1);
        extend_str(v, ". ");
        let t = trim_str(facts[i].as_str());
        extend_str(v, t.as_str());
        extend_str(v, "\n");
        assert(v@ =~= start + numbered(facts@.take(i + 1)));
        i += 1;
    }
    assert(facts@.take(facts@.len() as int) =~= facts@);
}

fn push_pending(v: &mut Vec<char>, loops: &[String])
    ensures
        final(v)@ == old(v)@ + pending_lines(loops@),
{
    let ghost start = v@;
    let mut i: usize = 0;
    assert(loops@.take(0) =~= Seq::<String>::empty());
    assert(start + pending_lines(loops@.take(0)) =~= start);
    while i < loops.len()
        invariant
            i <= loops@.len(),
            v@ == start + pending_lines(loops@.take(i as int)),
            start == old(v)@,
        decreases loops.len() - i,
    {
        assert(loops@.take(i + 1).drop_last() =~= loops@.take(i as int));
        if !is_blank_str(loops[i].as_str()) {
            extend_str(v, "- ");
            let t = trim_str(loops[i].as_str());
            extend_str(v, t.as_str());
            extend_str(v, "\n");
        }
        assert(v@ =~= start + pending_lines(loops@.take(i + 1)));
        i += 1;
    }
    assert(loops@.take(loops@.len() as int) =~= loops@);
}

// ---------------------------------------------------------------------
// What the summarizer is given of what is already stored.

pub open spec fn of_kind(kind: Seq<char>) -> spec_fn(Memory) -> bool {
    |m: Memory| m.kind@ == kind
}

pub open spec fn contents(ms: Seq<Memory>) -> Seq<String> {
    ms.map_values(|m: Memory| m.content)
}

/// A character's stored memories sorted for the summarizer: the rolling
/// summary, the facts it may revise, and the threads still open.
#[derive(Debug)]
pub struct Stored {
    /// The first stored summary's text, if there is one.
    pub previous_summary: Option<String>,
    /// Every fact, in the order stored.
    pub known_facts: Vec<Memory>,
    /// The facts' texts, numbered in this order for the summarizer.
    pub known_texts: Vec<String>,
    /// Every unfinished thread's text, in the order stored.
    pub previous_loops: Vec<String>,
}

pub open spec fn spec_first_summary(ms: Seq<Memory>) -> Option<String> {
    let s = keep(ms, of_kind("summary"@));
    if s.len() > 0 {
        Some(s[0].content)
    } else {
        None
    }
}

/// Sorts `stored` by kind, as the fields of `Stored` say.
pub fn sort_stored(stored: &[Memory]) -> (r: Stored)
    ensures
        r.previous_summary == spec_first_summary(stored@),
        r.known_facts@ == keep(stored@, of_kind("fact"@)),
        r.known_texts@ == contents(keep(stored@, of_kind("fact"@))),
        r.previous_loops@ == contents(keep(stored@, of_kind("open_loop"@))),
{
    let ghost summary = of_kind("summary"@);
    let ghost fact = of_kind("fact"@);
    let ghost open_loop = of_kind("open_loop"@);
    let mut previous_summary: Option<String> = None;
    let mut known_facts: Vec<Memory> = Vec::new();
    let mut known_texts: Vec<String> = Vec::new();
    let mut previous_loops: Vec<String> = Vec::new();
    let mut i: usize = 0;
    while i < stored.len()
        invariant
            i <= stored@.len(),
            summary == of_kind("summary"@),
            fact == of_kind("fact"@),
            open_loop == of_kind("open_loop"@),
            previous_summary == spec_first_summary(stored@.take(i as int)),
            known_facts@ == keep(stored@.take(i as int), fact),
            known_texts@ == contents(keep(stored@.take(i as int), fact)),
            previous_loops@ == contents(keep(stored@.take(i as int), open_loop)),
        decreases stored.len() - i,
    {
        let m = &stored[i];
        proof {
            lemma_keep_step(stored@, summary, i as int);
            lemma_keep_step(stored@, fact, i as int);
            lemma_keep_step(stored@, open_loop, i as int);
            let kf = keep(stored@.take(i as int), fact);
            let kl = keep(stored@.take(i as int), open_loop);
            assert(contents(kf.push(*m)) =~= contents(kf).push(m.content));
            assert(contents(kl.push(*m)) =~= contents(kl).push(m.content));
            let ks = keep(stored@.take(i as int), summary);
            if ks.len() > 0 {
                assert(ks.push(*m)[0] == ks[0]);
            }
        }
        let kind = m.kind.as_str();
        if crate::text::str_eq(kind, "summary") {
            proof {
                reveal_strlit("summary");
                reveal_strlit("fact");
                reveal_strlit("open_loop");
                assert(m.kind@ == "summary"@);
                assert(m.kind@.len() == 7 && "fact"@.len() == 4 && "open_loop"@.len() == 9);
            }
            assert(!fact(stored@[i as int]));
            assert(!open_loop(stored@[i as int]));
            if previous_summary.is_none() {
                previous_summary = Some(m.content.clone());
            }
        } else if crate::text::str_eq(kind, "fact") {
            proof {
                reveal_strlit("fact");
                reveal_strlit("open_loop");
                assert(m.kind@ == "fact"@);
                assert(m.kind@.len() == 4 && "open_loop"@.len() == 9);
            }
            assert(!open_loop(stored@[i as int]));
            known_facts.push(m.copy());
            known_texts.push(m.content.clone());
        } else if crate::text::str_eq(kind, "open_loop") {
            previous_loops.push(m.content.clone());
        }
        i += 1;
    }
    assert(stored@.take(stored@.len() as int) =~= stored@);
    Stored { previous_summary, known_facts, known_texts, previous_loops }
}

/// What the summarizer is shown for this conversation, as
/// `spec_summary_request` lays it out; there is nothing to summarize in a
/// conversation without messages.
pub fn summary_request(
    character_name: &str,
    previous_summary: Option<&str>,
    known_facts: &[String],
    previous_open_loops: &[String],
    messages: &[Message],
) -> (r: Result<String, MemoryError>)
    ensures
        messages@.len() == 0 ==> r matches Err(MemoryError::NothingToSummarize),
        messages@.len() > 0 ==> (r matches Ok(text) && text@ == spec_summary_request(
            character_name@,
            match previous_summary {
                Some(p) => Some(p@),
                None => None,
            },
            known_facts@,
            previous_open_loops@,
            messages@,
        )),
{
    if messages.len() == 0 {
        return Err(MemoryError::NothingToSummarize);
    }
    let mut v: Vec<char> = Vec::new();
    if known_facts.len() > 0 {
        extend_str(&mut v, "已知事实：\n");
        push_numbered(&mut v, known_facts);
        extend_str(&mut v, "\n");
    }
    let ghost after_facts = v@;
    let mut pending: Vec<char> = Vec::new();
    push_pending(&mut pending, previous_open_loops);
    assert(pending@ =~= pending_lines(previous_open_loops@));
    if pending.len() > 0 {
        extend_str(&mut v, "仍未了结的话题：\n");
        extend_chars(&mut v, &pending);
        extend_str(&mut v, "\n");
    }
    let ghost after_threads = v@;
    if let Some(prev) = previous_summary {
        if !is_blank_str(prev) {
            extend_str(&mut v, "历史摘要：");
            let t = trim_str(prev);
            extend_str(&mut v, t.as_str());
            extend_str(&mut v, "\n\n");
        }
    }
    extend_str(&mut v, "本轮对话：\n");
    push_transcript(&mut v, messages, character_name);
    assert(v@ =~= spec_summary_request(
        character_name@,
        match previous_summary {
            Some(p) => Some(p@),
            None => None,
        },
        known_facts@,
        previous_open_loops@,
        messages@,
    ));
    Ok(string_of(&v))
}

// ---------------------------------------------------------------------
// What is kept of the summarizer's answer.

#[derive(Debug)]
pub struct SummaryResult {
    pub summary: String,
    /// Facts this conversation brought up that weren't known yet.
    pub facts: Vec<String>,
    /// Known facts this conversation overturned, reworded in place.
    pub revised_facts: Vec<FactRevision>,
    /// Threads still worth raising next time. Replaces the previous set.
    pub open_loops: Vec<String>,
}

#[derive(Debug, PartialEq, Eq)]
pub struct FactRevision {
    /// Into the known facts the summarizer was shown.
    pub index: usize,
    pub text: String,
}

/// A revision's `n` as the JSON held it: a number (`value` is `None` when
/// it isn't a non-negative integer), a string, or anything else or nothing.
#[derive(Debug)]
pub enum RevisionNumber {
    Number { value: Option<u64> },
    Text { text: String },
    Other,
}

/// One entry of `revised_facts`, kept loose so one malformed revision is
/// dropped on its own instead of failing the whole summary with it.
#[derive(Debug)]
pub struct RevisionEntry {
    pub n: RevisionNumber,
    /// `text`, when it is a string.
    pub text: Option<String>,
}

/// The summarizer's JSON, read into plain values.
#[derive(Debug)]
pub struct ParsedSummary {
    pub summary: String,
    pub facts: Vec<String>,
    pub revised_facts: Vec<RevisionEntry>,
    pub open_loops: Vec<String>,
}

/// The value of a run of decimal digits.
pub open spec fn digits_value(s: Seq<char>) -> nat
    decreases s.len(),
{
    if s.len() == 0 {
        0
    } else {
        digits_value(s.drop_last()) * 10 + ((s.last() as u32) - 48) as nat
    }
}

pub open spec fn all_digits(s: Seq<char>) -> bool {
    forall|i: int| 0 <= i < s.len() ==> crate::text::is_ascii_digit(#[trigger] s[i])
}

/// What `str::parse::<u64>` makes of `s`: decimal digits, optionally after
/// a `+`, whose value fits.
pub open spec fn spec_parse_u64(s: Seq<char>) -> Option<nat> {
    let d = if s.len() > 0 && s[0] == '+' {
        s.skip(1)
    } else {
        s
    };
    if d.len() > 0 && all_digits(d) && digits_value(d) <= u64::MAX {
        Some(digits_value(d))
    } else {
        None
    }
}

proof fn lemma_digits_prefix(s: Seq<char>, j: int)
    requires
        0 <= j <= s.len(),
    ensures
        digits_value(s.take(j)) <= digits_value(s),
    decreases s.len() - j,
{
    if j < s.len() {
        assert(s.take(j + 1).drop_last() =~= s.take(j));
        lemma_digits_prefix(s, j + 1);
    } else {
        assert(s.take(j) =~= s);
    }
}

pub fn parse_u64(s: &[char]) -> (r: Option<u64>)
    ensures
        match r {
            Some(v) => spec_parse_u64(s@) == Some(v as nat),
            None => spec_parse_u64(s@) is None,
        },
{
    let start: usize = if s.len() > 0 && s[0] == '+' {
        1
    } else {
        0
    };
    let ghost d = if s@.len() > 0 && s@[0] == '+' {
        s@.skip(1)
    } else {
        s@
    };
    assert(d =~= s@.skip(start as int));
    if start >= s.len() {
        return None;
    }
    let mut v: u64 = 0;
    let mut i: usize = start;
    while i < s.len()
        invariant
            start <= i <= s@.len(),
            d == s@.skip(start as int),
            d == (if s@.len() > 0 && s@[0] == '+' {
                s@.skip(1)
            } else {
                s@
            }),
            d.len() > 0,
            all_digits(d.take(i - start)),
            v == digits_value(d.take(i - start)),
        decreases s.len() - i,
    {
        let c = s[i];
        let ghost k = i - start;
        assert(d[k] == s@[i as int]);
        if !('0' <= c && c <= '9') {
            assert(!all_digits(d));
            return None;
        }
        assert(d.take(k + 1).drop_last() =~= d.take(k));
        let digit: u64 = (c as u32 - 48) as u64;
        match v.checked_mul(10) {
            Some(t) => match t.checked_add(digit) {
                Some(n) => {
                    v = n;
                },
                None => {
                    proof {
                        lemma_digits_prefix(d, k + 1);
                    }
                    return None;
                },
            },
            None => {
                proof {
                    lemma_digits_prefix(d, k + 1);
                }
                return None;
            },
        }
        i += 1;
    }
    assert(d.take(d.len() as int) =~= d);
    Some(v)
}

/// The revision an entry makes, if it names a fact the summarizer was shown
/// — `n` counts from 1, as a number or a numeric string, models write both
/// — and has something to replace it with.
pub open spec fn spec_revision(e: RevisionEntry, known_count: nat) -> Option<(nat, Seq<char>)> {
    let n: Option<nat> = match e.n {
        RevisionNumber::Number { value } => match value {
            Some(v) => Some(v as nat),
            None => None,
        },
        RevisionNumber::Text { text } => spec_parse_u64(trim(text@)),
        RevisionNumber::Other => None,
    };
    match (n, e.text) {
        (Some(n), Some(t)) => if 1 <= n && n - 1 < known_count && trim(t@).len() > 0 {
            Some(((n - 1) as nat, trim(t@)))
        } else {
            None
        },
        _ => None,
    }
}

pub fn parse_revision(e: &RevisionEntry, known_count: usize) -> (r: Option<FactRevision>)
    ensures
        match r {
            Some(f) => spec_revision(*e, known_count as nat) == Some((f.index as nat, f.text@)),
            None => spec_revision(*e, known_count as nat) is None,
        },
{
    let n: Option<u64> = match &e.n {
        RevisionNumber::Number { value } => *value,
        RevisionNumber::Text { text } => {
            let v = chars_of(text.as_str());
            let t = trim_chars(&v);
            parse_u64(&t)
        },
        RevisionNumber::Other => None,
    };
    match (n, &e.text) {
        (Some(n), Some(t)) => {
            let t = trim_str(t.as_str());
            if 1 <= n && ((n - 1) as u128) < (known_count as u128) && t.unicode_len() > 0 {
                Some(FactRevision { index: (n - 1) as usize, text: t })
            } else {
                None
            }
        },
        _ => None,
    }
}

/// The revisions the entries make, in order, the rest dropped.
pub open spec fn spec_revisions(es: Seq<RevisionEntry>, known_count: nat) -> Seq<(nat, Seq<char>)>
    decreases es.len(),
{
    if es.len() == 0 {
        Seq::<(nat, Seq<char>)>::empty()
    } else {
        match spec_revision(es.last(), known_count) {
            Some(r) => spec_revisions(es.drop_last(), known_count).push(r),
            None => spec_revisions(es.drop_last(), known_count),
        }
    }
}

pub open spec fn revision_views(rs: Seq<FactRevision>) -> Seq<(nat, Seq<char>)> {
    rs.map_values(|f: FactRevision| (f.index as nat, f.text@))
}

/// What is kept of the summarizer's answer, given that it was shown
/// `known_count` facts: everything as it came, but only the revisions that
/// name one of those facts and say something.
pub fn summary_result(parsed: ParsedSummary, known_count: usize) -> (r: SummaryResult)
    ensures
        r.summary == parsed.summary,
        r.facts == parsed.facts,
        r.open_loops == parsed.open_loops,
        revision_views(r.revised_facts@) == spec_revisions(
            parsed.revised_facts@,
            known_count as nat,
        ),
{
    let es = &parsed.revised_facts;
    let mut out: Vec<FactRevision> = Vec::new();
    let mut i: usize = 0;
    while i < es.len()
        invariant
            i <= es@.len(),
            revision_views(out@) == spec_revisions(es@.take(i as int), known_count as nat),
        decreases es.len() - i,
    {
        assert(es@.take(i + 1).drop_last() =~= es@.take(i as int));
        assert(es@.take(i + 1).last() == es@[i as int]);
        let ghost before = out@;
        if let Some(f) = parse_revision(&es[i], known_count) {
            out.push(f);
            assert(revision_views(out@) =~= revision_views(before).push(
                (out@.last().index as nat, out@.last().text@),
            ));
        }
        i += 1;
    }
    assert(es@.take(es@.len() as int) =~= es@);
    SummaryResult {
        summary: parsed.summary,
        facts: parsed.facts,
        revised_facts: out,
        open_loops: parsed.open_loops,
    }
}

/// A revision that is kept always names one of the facts the summarizer
/// was shown, and always has something to replace it with: one that points
/// past them, or says nothing, is dropped rather than allowed to reword
/// some other fact.
pub proof fn law_revisions_name_shown_facts(es: Seq<RevisionEntry>, known_count: nat)
    ensures
        forall|i: int|
            0 <= i < spec_revisions(es, known_count).len() ==> (#[trigger] spec_revisions(
                es,
                known_count,
            )[i]).0 < known_count && spec_revisions(es, known_count)[i].1.len() > 0,
    decreases es.len(),
{
    if es.len() > 0 {
        law_revisions_name_shown_facts(es.drop_last(), known_count);
        let rest = spec_revisions(es.drop_last(), known_count);
        match spec_revision(es.last(), known_count) {
            Some(r) => {
                assert(spec_revisions(es, known_count) == rest.push(r));
                assert forall|i: int| 0 <= i < rest.push(r).len() implies (#[trigger] rest.push(
                    r,
                )[i]).0 < known_count && rest.push(r)[i].1.len() > 0 by {
                    if i < rest.len() {
                        assert(rest.push(r)[i] == rest[i]);
                    }
                }
            },
            None => {},
        }
    }
}

// ---------------------------------------------------------------------
// Naming a conversation.

/// What the title model is told.
pub const TITLE_PROMPT: &'static str = "你是对话标题助手。根据对话记录，起一个概括主题的短标题。要求：中文不超过 12 个字，英文不超过 6 个词；使用与对话内容相同的语言；不要引号、书名号，不要以标点结尾；只输出标题本身，不要任何解释。";

/// The quotes models like to wrap titles in.
pub open spec fn is_wrapper(c: char) -> bool {
    ||| c == '"'
    ||| c == '\''
    ||| c == '“'
    ||| c == '”'
    ||| c == '‘'
    ||| c == '’'
    ||| c == '《'
    ||| c == '》'
    ||| c == '「'
    ||| c == '」'
}

fn is_wrapper_exec(c: char) -> (r: bool)
    ensures
        r == is_wrapper(c),
{
    c == '"' || c == '\'' || c == '“' || c == '”' || c == '‘' || c == '’' || c == '《' || c == '》'
        || c == '「' || c == '」'
}

pub open spec fn strip_start_wrappers(s: Seq<char>) -> Seq<char>
    decreases s.len(),
{
    if s.len() > 0 && is_wrapper(s[0]) {
        strip_start_wrappers(s.drop_first())
    } else {
        s
    }
}

pub open spec fn strip_end_wrappers(s: Seq<char>) -> Seq<char>
    decreases s.len(),
{
    if s.len() > 0 && is_wrapper(s.last()) {
        strip_end_wrappers(s.drop_last())
    } else {
        s
    }
}

/// What comes before the first line break.
pub open spec fn first_line(s: Seq<char>) -> Seq<char>
    decreases s.len(),
{
    if s.len() == 0 || s[0] == '\n' {
        Seq::<char>::empty()
    } else {
        seq![s[0]] + first_line(s.drop_first())
    }
}

/// A model's answer reduced to something that fits one sidebar row: the
/// first line only (an explanation goes below), the quotes it wraps titles
/// in stripped, at most `MAX_TITLE_CHARS` characters, trimmed.
pub open spec fn spec_clean_title(raw: Seq<char>) -> Seq<char> {
    trim(
        take_chars(
            strip_end_wrappers(strip_start_wrappers(trim(first_line(trim(raw))))),
            MAX_TITLE_CHARS as int,
        ),
    )
}

proof fn lemma_strip_start(s: Seq<char>, i: int)
    requires
        0 <= i <= s.len(),
        forall|k: int| 0 <= k < i ==> is_wrapper(#[trigger] s[k]),
        i == s.len() || !is_wrapper(s[i]),
    ensures
        strip_start_wrappers(s) == s.skip(i),
    decreases i,
{
    if i == 0 {
        assert(s.skip(0) =~= s);
    } else {
        assert(s.drop_first().skip(i - 1) =~= s.skip(i));
        assert forall|k: int| 0 <= k < i - 1 implies is_wrapper(#[trigger] s.drop_first()[k]) by {
            assert(s.drop_first()[k] == s[k + 1]);
        }
        lemma_strip_start(s.drop_first(), i - 1);
    }
}

proof fn lemma_strip_end(s: Seq<char>, j: int)
    requires
        0 <= j <= s.len(),
        forall|k: int| j <= k < s.len() ==> is_wrapper(#[trigger] s[k]),
        j == 0 || !is_wrapper(s[j - 1]),
    ensures
        strip_end_wrappers(s) == s.take(j),
    decreases s.len() - j,
{
    if j == s.len() {
        assert(s.take(j) =~= s);
    } else {
        assert(s.drop_last().take(j) =~= s.take(j));
        assert forall|k: int| j <= k < s.len() - 1 implies is_wrapper(#[trigger] s.drop_last()[k]) by {
            assert(s.drop_last()[k] == s[k]);
        }
        lemma_strip_end(s.drop_last(), j);
    }
}

proof fn lemma_first_line(s: Seq<char>, i: int)
    requires
        0 <= i <= s.len(),
        forall|k: int| 0 <= k < i ==> #[trigger] s[k] != '\n',
        i == s.len() || s[i] == '\n',
    ensures
        first_line(s) == s.take(i),
    decreases i,
{
    if i == 0 {
        assert(s.take(0) =~= Seq::<char>::empty());
    } else {
        assert forall|k: int| 0 <= k < i - 1 implies #[trigger] s.drop_first()[k] != '\n' by {
            assert(s.drop_first()[k] == s[k + 1]);
        }
        lemma_first_line(s.drop_first(), i - 1);
        assert(seq![s[0]] + s.drop_first().take(i - 1) =~= s.take(i));
    }
}

pub fn clean_title(raw: &str) -> (r: String)
    ensures
        r@ == spec_clean_title(raw@),
{
    let v = chars_of(raw);
    let t = trim_chars(&v);
    let mut i: usize = 0;
    while i < t.len() && t[i] != '\n'
        invariant
            i <= t@.len(),
            forall|k: int| 0 <= k < i ==> #[trigger] t@[k] != '\n',
        decreases t.len() - i,
    {
        i += 1;
    }
    proof {
        lemma_first_line(t@, i as int);
        if i == t@.len() {
            assert(t@.take(i as int) =~= t@);
        }
    }
    let line = take_chars_exec(&t, i);
    assert(line@ == first_line(trim(raw@)));
    let line = trim_chars(&line);
    let mut a: usize = 0;
    while a < line.len() && is_wrapper_exec(line[a])
        invariant
            a <= line@.len(),
            forall|k: int| 0 <= k < a ==> is_wrapper(#[trigger] line@[k]),
        decreases line.len() - a,
    {
        a += 1;
    }
    proof {
        lemma_strip_start(line@, a as int);
    }
    let mut b: usize = line.len();
    while b > a && is_wrapper_exec(line[b - 1])
        invariant
            a <= b <= line@.len(),
            forall|k: int| b <= k < line@.len() ==> is_wrapper(#[trigger] line@[k]),
        decreases b,
    {
        b -= 1;
    }
    let ghost inner = line@.skip(a as int);
    proof {
        assert forall|k: int| b - a <= k < inner.len() implies is_wrapper(#[trigger] inner[k]) by {
            assert(inner[k] == line@[k + a]);
        }
        if b > a {
            assert(inner[b - a - 1] == line@[b - 1]);
        }
        lemma_strip_end(inner, (b - a) as int);
    }
    let mut kept: Vec<char> = Vec::new();
    let mut k: usize = a;
    while k < b && k - a < MAX_TITLE_CHARS
        invariant
            a <= k <= b,
            b <= line@.len(),
            k - a <= MAX_TITLE_CHARS,
            inner == line@.skip(a as int),
            kept@ == inner.take(k - a),
        decreases b - k,
    {
        kept.push(line[k]);
        assert(inner.take(k - a + 1) =~= inner.take(k - a).push(line@[k as int]));
        k += 1;
    }
    proof {
        let stripped = inner.take(b - a);
        assert(stripped == strip_end_wrappers(strip_start_wrappers(line@)));
        if stripped.len() <= MAX_TITLE_CHARS {
            assert(kept@ =~= stripped);
        } else {
            assert(k - a == MAX_TITLE_CHARS);
            assert(kept@ =~= stripped.take(MAX_TITLE_CHARS as int));
        }
        assert(kept@ == take_chars(stripped, MAX_TITLE_CHARS as int));
    }
    let out = trim_chars(&kept);
    string_of(&out)
}

/// The non-blank messages, the ones a title is worth drawing from.
pub open spec fn said(ms: Seq<Message>) -> Seq<Message>
    decreases ms.len(),
{
    if ms.len() == 0 {
        Seq::<Message>::empty()
    } else if is_blank(ms.last().text@) {
        said(ms.drop_last())
    } else {
        said(ms.drop_last()).push(ms.last())
    }
}

/// The opening of the conversation: its first `TITLE_CONTEXT_MESSAGES`
/// non-blank messages. A title only describes what a conversation opened
/// with.
pub open spec fn title_context(ms: Seq<Message>) -> Seq<Message> {
    let s = said(ms);
    if s.len() <= TITLE_CONTEXT_MESSAGES {
        s
    } else {
        s.take(TITLE_CONTEXT_MESSAGES as int)
    }
}

proof fn lemma_said_step(ms: Seq<Message>, i: int)
    requires
        0 <= i < ms.len(),
    ensures
        said(ms.take(i + 1)) == if is_blank(ms[i].text@) {
            said(ms.take(i))
        } else {
            said(ms.take(i)).push(ms[i])
        },
{
    assert(ms.take(i + 1).drop_last() =~= ms.take(i));
}

proof fn lemma_said_grows(ms: Seq<Message>, i: int)
    requires
        0 <= i <= ms.len(),
    ensures
        said(ms.take(i)).len() <= said(ms).len(),
        said(ms.take(i)) == said(ms).take(said(ms.take(i)).len() as int),
    decreases ms.len() - i,
{
    if i == ms.len() {
        assert(ms.take(i) =~= ms);
        assert(said(ms).take(said(ms).len() as int) =~= said(ms));
    } else {
        lemma_said_step(ms, i);
        lemma_said_grows(ms, i + 1);
        let a = said(ms.take(i));
        let b = said(ms.take(i + 1));
        if !is_blank(ms[i].text@) {
            assert(a =~= b.take(a.len() as int));
            assert(said(ms).take(a.len() as int) =~= said(ms).take(b.len() as int).take(
                a.len() as int,
            ));
        }
    }
}

/// What the title model is shown: the opening of the conversation as a
/// transcript. A conversation with nothing said has nothing to name.
pub fn title_request(character_name: &str, messages: &[Message]) -> (r: Result<
    String,
    MemoryError,
>)
    ensures
        title_context(messages@).len() == 0 ==> r matches Err(MemoryError::NothingToName),
        title_context(messages@).len() > 0 ==> (r matches Ok(t) && t@ == transcript(
            title_context(messages@),
            character_name@,
        )),
{
    let mut picked: Vec<&Message> = Vec::new();
    let ghost mut chosen: Seq<Message> = Seq::empty();
    let mut i: usize = 0;
    while i < messages.len() && picked.len() < TITLE_CONTEXT_MESSAGES
        invariant
            i <= messages@.len(),
            picked@.len() == chosen.len(),
            forall|k: int| 0 <= k < chosen.len() ==> *picked@[k] == #[trigger] chosen[k],
            chosen == said(messages@.take(i as int)),
            chosen.len() <= TITLE_CONTEXT_MESSAGES,
        decreases messages.len() - i,
    {
        proof {
            lemma_said_step(messages@, i as int);
        }
        if !is_blank_str(messages[i].text.as_str()) {
            picked.push(&messages[i]);
            proof {
                chosen = chosen.push(messages@[i as int]);
            }
        }
        i += 1;
    }
    proof {
        lemma_said_grows(messages@, i as int);
        if i < messages@.len() {
            assert(chosen.len() == TITLE_CONTEXT_MESSAGES);
        } else {
            assert(messages@.take(i as int) =~= messages@);
        }
        assert(chosen =~= title_context(messages@));
    }
    if picked.len() == 0 {
        return Err(MemoryError::NothingToName);
    }
    let mut v: Vec<char> = Vec::new();
    let mut j: usize = 0;
    while j < picked.len()
        invariant
            j <= picked@.len(),
            picked@.len() == chosen.len(),
            forall|k: int| 0 <= k < chosen.len() ==> *picked@[k] == #[trigger] chosen[k],
            v@ == transcript(chosen.take(j as int), character_name@),
        decreases picked.len() - j,
    {
        assert(chosen.take(j + 1).drop_last() =~= chosen.take(j as int));
        assert(*picked@[j as int] == chosen[j as int]);
        if j > 0 {
            extend_str(&mut v, "\n");
        }
        push_transcript_line(&mut v, picked[j], character_name);
        proof {
            if j == 0 {
                assert(v@ =~= transcript(chosen.take(1), character_name@));
            } else {
                assert(v@ =~= transcript(chosen.take(j + 1), character_name@));
            }
        }
        j += 1;
    }
    assert(chosen.take(chosen.len() as int) =~= chosen);
    Ok(string_of(&v))
}

/// The title a model's answer gives, or why it gives none.
pub fn title_from_response(raw: &str) -> (r: Result<String, MemoryError>)
    ensures
        spec_clean_title(raw@).len() == 0 ==> (r matches Err(MemoryError::NoTitle { raw: x })
            && x@ == raw@),
        spec_clean_title(raw@).len() > 0 ==> (r matches Ok(t) && t@ == spec_clean_title(raw@)),
{
    let title = clean_title(raw);
    if title.unicode_len() == 0 {
        return Err(MemoryError::NoTitle { raw: copy_str(raw) });
    }
    Ok(title)
}

// ---------------------------------------------------------------------
// Storing a summary: what to write, and which facts repeat.

/// What two facts must share to count as the same fact: their letters and
/// digits, case-folded. Catches "喜欢乌龙茶" against "喜欢乌龙茶。"; a real
/// paraphrase is the summarizer's to catch.
pub open spec fn fact_key(s: Seq<char>) -> Seq<char>
    decreases s.len(),
{
    if s.len() == 0 {
        Seq::<char>::empty()
    } else if crate::text::unicode_alphanumeric(s.last()) {
        fact_key(s.drop_last()) + crate::text::unicode_lowercase(s.last())
    } else {
        fact_key(s.drop_last())
    }
}

pub fn fact_key_exec(content: &str) -> (r: Vec<char>)
    ensures
        r@ == fact_key(content@),
{
    let v = chars_of(content);
    let mut out: Vec<char> = Vec::new();
    let mut i: usize = 0;
    while i < v.len()
        invariant
            i <= v@.len(),
            v@ == content@,
            out@ == fact_key(content@.take(i as int)),
        decreases v.len() - i,
    {
        assert(content@.take(i + 1).drop_last() =~= content@.take(i as int));
        if crate::text::is_alphanumeric(v[i]) {
            let low = crate::text::to_lowercase(v[i]);
            extend_chars(&mut out, &low);
        }
        i += 1;
    }
    assert(content@.take(v.len() as int) =~= content@);
    out
}

/// Whether `m` is a fact that says what one of the newer facts `newer`
/// already says.
pub open spec fn repeats(newer: Seq<Memory>, m: Memory) -> bool {
    is_fact(m) && exists|j: int|
        0 <= j < newer.len() && is_fact(#[trigger] newer[j]) && fact_key(newer[j].content@)
            == fact_key(m.content@)
}

/// The ids of the facts to delete from a character's memories, newest
/// first: each that repeats a newer one, so the newest copy is what stays
/// — a fact that comes up again counts as recently confirmed.
pub open spec fn spec_repeated_facts(ms: Seq<Memory>) -> Seq<Seq<char>>
    decreases ms.len(),
{
    if ms.len() == 0 {
        Seq::<Seq<char>>::empty()
    } else if repeats(ms.drop_last(), ms.last()) {
        spec_repeated_facts(ms.drop_last()).push(ms.last().id@)
    } else {
        spec_repeated_facts(ms.drop_last())
    }
}

fn contains_key(keys: &Vec<Vec<char>>, key: &Vec<char>) -> (r: bool)
    ensures
        r == exists|k: int| 0 <= k < keys@.len() && (#[trigger] keys@[k])@ == key@,
{
    let mut i: usize = 0;
    while i < keys.len()
        invariant
            i <= keys@.len(),
            forall|k: int| 0 <= k < i ==> (#[trigger] keys@[k])@ != key@,
        decreases keys.len() - i,
    {
        if crate::text::chars_eq(keys[i].as_slice(), key.as_slice()) {
            return true;
        }
        i += 1;
    }
    false
}

/// The facts `repeated_facts` deletes, as `spec_repeated_facts` describes.
#[verifier::spinoff_prover]
#[verifier::rlimit(40)]
pub fn repeated_facts(memories: &[Memory]) -> (r: Vec<String>)
    ensures
        crate::backup::texts(r@) == spec_repeated_facts(memories@),
{
    let mut keys: Vec<Vec<char>> = Vec::new();
    let mut out: Vec<String> = Vec::new();
    let mut i: usize = 0;
    while i < memories.len()
        invariant
            i <= memories@.len(),
            crate::backup::texts(out@) == spec_repeated_facts(memories@.take(i as int)),
            forall|k: int|
                0 <= k < keys@.len() ==> exists|j: int|
                    0 <= j < i && is_fact(#[trigger] memories@[j]) && fact_key(
                        memories@[j].content@,
                    ) == (#[trigger] keys@[k])@,
            forall|j: int|
                0 <= j < i && is_fact(#[trigger] memories@[j]) ==> exists|k: int|
                    0 <= k < keys@.len() && (#[trigger] keys@[k])@ == fact_key(
                        memories@[j].content@,
                    ),
        decreases memories.len() - i,
    {
        let m = &memories[i];
        let ghost prefix = memories@.take(i as int);
        assert(memories@.take(i + 1).drop_last() =~= prefix);
        assert(memories@.take(i + 1).last() == memories@[i as int]);
        if crate::text::str_eq(m.kind.as_str(), "fact") {
            let key = fact_key_exec(m.content.as_str());
            let seen = contains_key(&keys, &key);
            proof {
                if seen {
                    let k = choose|k: int| 0 <= k < keys@.len() && (#[trigger] keys@[k])@ == key@;
                    let j = choose|j: int|
                        0 <= j < i && is_fact(#[trigger] memories@[j]) && fact_key(
                            memories@[j].content@,
                        ) == keys@[k]@;
                    assert(prefix[j] == memories@[j]);
                    assert(repeats(prefix, memories@[i as int]));
                } else {
                    assert forall|j: int|
                        0 <= j < prefix.len() && is_fact(#[trigger] prefix[j]) implies fact_key(
                        prefix[j].content@,
                    ) != fact_key(memories@[i as int].content@) by {
                        assert(prefix[j] == memories@[j]);
                        let k = choose|k: int|
                            0 <= k < keys@.len() && (#[trigger] keys@[k])@ == fact_key(
                                memories@[j].content@,
                            );
                    }
                    assert(!repeats(prefix, memories@[i as int]));
                }
            }
            if seen {
                let ghost before = out@;
                out.push(m.id.clone());
                assert(crate::backup::texts(out@) =~= crate::backup::texts(before).push(
                    memories@[i as int].id@,
                ));
            } else {
                let ghost old_keys = keys@;
                keys.push(key);
                proof {
                    assert forall|k: int| 0 <= k < keys@.len() implies exists|j: int|
                        0 <= j < i + 1 && is_fact(#[trigger] memories@[j]) && fact_key(
                            memories@[j].content@,
                        ) == (#[trigger] keys@[k])@ by {
                        if k < old_keys.len() {
                            assert(keys@[k] == old_keys[k]);
                        } else {
                            assert(is_fact(memories@[i as int]));
                        }
                    }
                    assert forall|j: int|
                        0 <= j < i + 1 && is_fact(#[trigger] memories@[j]) implies exists|k: int|
                        0 <= k < keys@.len() && (#[trigger] keys@[k])@ == fact_key(
                            memories@[j].content@,
                        ) by {
                        if j < i {
                            let k = choose|k: int|
                                0 <= k < old_keys.len() && (#[trigger] old_keys[k])@ == fact_key(
                                    memories@[j].content@,
                                );
                            assert(keys@[k] == old_keys[k]);
                        } else {
                            assert(keys@[old_keys.len() as int]@ == fact_key(
                                memories@[j].content@,
                            ));
                        }
                    }
                }
            }
        } else {
            assert(!repeats(prefix, memories@[i as int]));
        }
        i += 1;
    }
    assert(memories@.take(memories@.len() as int) =~= memories@);
    out
}

proof fn lemma_repeated_contains(ms: Seq<Memory>, x: Seq<char>)
    ensures
        spec_repeated_facts(ms).contains(x) <==> exists|i: int|
            0 <= i < ms.len() && repeats(ms.take(i), #[trigger] ms[i]) && ms[i].id@ == x,
    decreases ms.len(),
{
    if ms.len() > 0 {
        let d = ms.drop_last();
        lemma_repeated_contains(d, x);
        let n = ms.len() - 1;
        assert(ms.take(n) =~= d);
        if exists|i: int| 0 <= i < d.len() && repeats(d.take(i), #[trigger] d[i]) && d[i].id@ == x {
            let i = choose|i: int| 0 <= i < d.len() && repeats(d.take(i), #[trigger] d[i]) && d[i].id@ == x;
            assert(d.take(i) =~= ms.take(i));
            assert(d[i] == ms[i]);
        }
        if exists|i: int| 0 <= i < ms.len() && repeats(ms.take(i), #[trigger] ms[i]) && ms[i].id@ == x {
            let i = choose|i: int| 0 <= i < ms.len() && repeats(ms.take(i), #[trigger] ms[i]) && ms[i].id@ == x;
            if i < n {
                assert(d.take(i) =~= ms.take(i));
                assert(d[i] == ms[i]);
            }
        }
        let prev = spec_repeated_facts(d);
        assert(ms.last() == ms[n]);
        if repeats(d, ms.last()) {
            let all = prev.push(ms.last().id@);
            assert(spec_repeated_facts(ms) == all);
            if prev.contains(x) {
                let k = choose|k: int| 0 <= k < prev.len() && prev[k] == x;
                assert(all[k] == x);
            }
            if x == ms.last().id@ {
                assert(all[prev.len() as int] == x);
            }
            if all.contains(x) {
                let k = choose|k: int| 0 <= k < all.len() && all[k] == x;
                if k < prev.len() {
                    assert(prev[k] == x);
                }
            }
        } else {
            assert(spec_repeated_facts(ms) == prev);
        }
    }
}

/// The newest fact holding the same key as fact `j`.
proof fn lemma_newest_copy(ms: Seq<Memory>, j: int) -> (i: int)
    requires
        0 <= j < ms.len(),
        is_fact(ms[j]),
    ensures
        0 <= i <= j,
        is_fact(ms[i]),
        !repeats(ms.take(i), ms[i]),
        fact_key(ms[i].content@) == fact_key(ms[j].content@),
    decreases j,
{
    if repeats(ms.take(j), ms[j]) {
        let k = choose|k: int|
            0 <= k < ms.take(j).len() && is_fact(#[trigger] ms.take(j)[k]) && fact_key(
                ms.take(j)[k].content@,
            ) == fact_key(ms[j].content@);
        assert(ms.take(j)[k] == ms[k]);
        lemma_newest_copy(ms, k)
    } else {
        j
    }
}

/// Storing a summary keeps exactly one copy of each fact, the newest: a
/// fact is deleted precisely when a newer fact says the same, no two facts
/// that stay say the same, and whatever any fact said, one that stays
/// still says it.
pub proof fn law_dedupe_keeps_newest(ms: Seq<Memory>)
    requires
        forall|i: int, k: int|
            0 <= i < ms.len() && 0 <= k < ms.len() && i != k ==> (#[trigger] ms[i]).id@
                != (#[trigger] ms[k]).id@,
    ensures
        forall|i: int|
            0 <= i < ms.len() ==> (spec_repeated_facts(ms).contains((#[trigger] ms[i]).id@)
                <==> repeats(ms.take(i), ms[i])),
        forall|i: int, k: int|
            0 <= i < k < ms.len() && is_fact(#[trigger] ms[i]) && is_fact(#[trigger] ms[k])
                && !repeats(ms.take(i), ms[i]) && !repeats(ms.take(k), ms[k]) ==> fact_key(
                ms[i].content@,
            ) != fact_key(ms[k].content@),
        forall|j: int|
            0 <= j < ms.len() && is_fact(#[trigger] ms[j]) ==> exists|i: int|
                0 <= i <= j && is_fact(#[trigger] ms[i]) && !repeats(ms.take(i), ms[i])
                    && fact_key(ms[i].content@) == fact_key(ms[j].content@),
{
    assert forall|i: int| 0 <= i < ms.len() implies (spec_repeated_facts(ms).contains(
        (#[trigger] ms[i]).id@,
    ) <==> repeats(ms.take(i), ms[i])) by {
        lemma_repeated_contains(ms, ms[i].id@);
    }
    assert forall|i: int, k: int|
        0 <= i < k < ms.len() && is_fact(#[trigger] ms[i]) && is_fact(#[trigger] ms[k])
            && !repeats(ms.take(i), ms[i]) && !repeats(ms.take(k), ms[k]) implies fact_key(
        ms[i].content@,
    ) != fact_key(ms[k].content@) by {
        assert(ms.take(k)[i] == ms[i]);
    }
    assert forall|j: int| 0 <= j < ms.len() && is_fact(#[trigger] ms[j]) implies exists|i: int|
        0 <= i <= j && is_fact(#[trigger] ms[i]) && !repeats(ms.take(i), ms[i]) && fact_key(
            ms[i].content@,
        ) == fact_key(ms[j].content@) by {
        let i = lemma_newest_copy(ms, j);
    }
}

/// The new facts a summary brings, trimmed, blank ones dropped.
pub open spec fn spec_new_facts(facts: Seq<String>) -> Seq<Seq<char>>
    decreases facts.len(),
{
    if facts.len() == 0 {
        Seq::<Seq<char>>::empty()
    } else if is_blank(facts.last()@) {
        spec_new_facts(facts.drop_last())
    } else {
        spec_new_facts(facts.drop_last()).push(trim(facts.last()@))
    }
}

pub fn new_facts(facts: &[String]) -> (r: Vec<String>)
    ensures
        crate::backup::texts(r@) == spec_new_facts(facts@),
{
    let mut out: Vec<String> = Vec::new();
    let mut i: usize = 0;
    while i < facts.len()
        invariant
            i <= facts@.len(),
            crate::backup::texts(out@) == spec_new_facts(facts@.take(i as int)),
        decreases facts.len() - i,
    {
        assert(facts@.take(i + 1).drop_last() =~= facts@.take(i as int));
        if !is_blank_str(facts[i].as_str()) {
            let ghost before = out@;
            out.push(trim_str(facts[i].as_str()));
            assert(crate::backup::texts(out@) =~= crate::backup::texts(before).push(
                trim(facts@[i as int]@),
            ));
        }
        i += 1;
    }
    assert(facts@.take(facts@.len() as int) =~= facts@);
    out
}

/// The rewordings a summary makes: the id of each revised fact among the
/// facts the summarizer was shown, with its new text. A revision of a fact
/// that has gone in the meantime is nothing.
pub open spec fn spec_rewordings(known: Seq<Memory>, rs: Seq<FactRevision>) -> Seq<(Seq<char>, Seq<char>)>
    decreases rs.len(),
{
    if rs.len() == 0 {
        Seq::<(Seq<char>, Seq<char>)>::empty()
    } else {
        let r = rs.last();
        if r.index < known.len() {
            spec_rewordings(known, rs.drop_last()).push((known[r.index as int].id@, r.text@))
        } else {
            spec_rewordings(known, rs.drop_last())
        }
    }
}

pub open spec fn pair_views(ps: Seq<(String, String)>) -> Seq<(Seq<char>, Seq<char>)> {
    ps.map_values(|p: (String, String)| (p.0@, p.1@))
}

pub fn rewordings(known: &[Memory], revisions: &[FactRevision]) -> (r: Vec<(String, String)>)
    ensures
        pair_views(r@) == spec_rewordings(known@, revisions@),
{
    let mut out: Vec<(String, String)> = Vec::new();
    let mut i: usize = 0;
    while i < revisions.len()
        invariant
            i <= revisions@.len(),
            pair_views(out@) == spec_rewordings(known@, revisions@.take(i as int)),
        decreases revisions.len() - i,
    {
        assert(revisions@.take(i + 1).drop_last() =~= revisions@.take(i as int));
        assert(revisions@.take(i + 1).last() == revisions@[i as int]);
        let r = &revisions[i];
        if r.index < known.len() {
            let ghost before = out@;
            out.push((known[r.index].id.clone(), r.text.clone()));
            assert(pair_views(out@) =~= pair_views(before).push(
                (known@[r.index as int].id@, r.text@),
            ));
        }
        i += 1;
    }
    assert(revisions@.take(revisions@.len() as int) =~= revisions@);
    out
}

} // verus!
