//! The logic behind the desktop subtitle: where a streaming line can be cut
//! into segments for translation, which segment goes next, and whether a
//! translation is wanted at all. The window and the translation request
//! itself live in the app.

use vstd::prelude::*;

use crate::i18n::Lang;
use crate::text::{
    chars_of, byte_offsets, extend_chars, extend_str, is_ascii_char, is_whitespace, is_ws,
    starts_with, starts_with_chars, str_eq, string_of, take_chars_exec, trim, trim_chars, trim_str,
    utf8_len,
};

verus! {

/// Shorter than this, a finished sentence waits to go along with the next
/// one: a lone "嗯。" or "Okay." isn't worth a request of its own.
pub const MIN_SEGMENT_CHARS: usize = 4;

/// A run this long with no sentence end yet gets cut at a comma instead.
pub const SOFT_CUT_CHARS: usize = 40;

#[derive(Clone, Copy, Debug)]
pub struct SubtitleSettings {
    pub enabled: bool,
    pub translate: bool,
}

/// Sentence-ending punctuation: a segment can end right after one of these.
pub open spec fn spec_is_sentence_end(c: char) -> bool {
    c == '。' || c == '！' || c == '？' || c == '；' || c == '…' || c == '.' || c == '!' || c == '?'
}

/// Clause-level punctuation, only cut at once a run has gone on for
/// `SOFT_CUT_CHARS` without a sentence end.
pub open spec fn spec_is_clause_end(c: char) -> bool {
    c == '，' || c == '、' || c == '：' || c == ',' || c == ':'
}

/// Closing quotes and brackets, kept with the sentence they close.
pub open spec fn spec_is_closer(c: char) -> bool {
    c == '"' || c == '\'' || c == '”' || c == '’' || c == '」' || c == '』' || c == '）' || c == ')'
        || c == '】' || c == '》'
}

pub fn is_sentence_end(c: char) -> (r: bool)
    ensures
        r == spec_is_sentence_end(c),
{
    c == '。' || c == '！' || c == '？' || c == '；' || c == '…' || c == '.' || c == '!' || c == '?'
}

pub fn is_clause_end(c: char) -> (r: bool)
    ensures
        r == spec_is_clause_end(c),
{
    c == '，' || c == '、' || c == '：' || c == ',' || c == ':'
}

pub fn is_closer(c: char) -> (r: bool)
    ensures
        r == spec_is_closer(c),
{
    c == '"' || c == '\'' || c == '”' || c == '’' || c == '」' || c == '』' || c == '）' || c == ')'
        || c == '】' || c == '》'
}

/// The first index from `j` on that is neither sentence-ending punctuation
/// nor a closer: where the run of punctuation after a sentence ends.
pub open spec fn after_punctuation(s: Seq<char>, j: int) -> int
    decreases s.len() - j,
{
    if j < s.len() && (spec_is_sentence_end(s[j]) || spec_is_closer(s[j])) {
        after_punctuation(s, j + 1)
    } else {
        j
    }
}

/// Whether `c`, at a point where a run has reached `run` characters, is
/// somewhere a segment may end.
pub open spec fn is_cut_point(c: char, run: int) -> bool {
    spec_is_sentence_end(c) || (run >= SOFT_CUT_CHARS && spec_is_clause_end(c))
}

/// Reads `s` from index `i`, with `run` characters since the last cut and
/// `end` the last cut found so far, and gives the last place a segment can
/// end. A cut needs something after the punctuation (and its closers) to
/// have arrived, and after ASCII punctuation that something must be
/// whitespace: mid-word it is as likely a decimal point or an abbreviation.
pub open spec fn scan(s: Seq<char>, i: int, run: int, end: Option<int>) -> Option<int>
    decreases s.len() - i,
{
    if i < 0 || i >= s.len() {
        end
    } else {
        let c = s[i];
        let run1 = run + 1;
        if !is_cut_point(c, run1) {
            scan(s, i + 1, run1, end)
        } else {
            let j = after_punctuation(s, i + 1);
            proof {
                lemma_after_punctuation(s, i + 1);
            }
            if j >= s.len() {
                end
            } else if !is_ascii_char(c) || is_ws(s[j]) {
                scan(s, j, 0, Some(j))
            } else {
                scan(s, j, run1 + (j - i - 1), end)
            }
        }
    }
}

/// The last place `s` can be cut, counted in characters.
pub open spec fn last_cut(s: Seq<char>) -> Option<int> {
    scan(s, 0, 0, None)
}

pub proof fn lemma_after_punctuation(s: Seq<char>, j: int)
    requires
        0 <= j,
    ensures
        j <= after_punctuation(s, j),
        after_punctuation(s, j) <= s.len() || after_punctuation(s, j) == j,
        forall|k: int|
            j <= k < after_punctuation(s, j) ==> spec_is_sentence_end(#[trigger] s[k])
                || spec_is_closer(s[k]),
        after_punctuation(s, j) < s.len() ==> !spec_is_sentence_end(s[after_punctuation(s, j)])
            && !spec_is_closer(s[after_punctuation(s, j)]),
    decreases s.len() - j,
{
    if j < s.len() && (spec_is_sentence_end(s[j]) || spec_is_closer(s[j])) {
        lemma_after_punctuation(s, j + 1);
    }
}

/// Every cut `scan` reports lies strictly inside the text, right after
/// punctuation or a closing quote.
pub proof fn lemma_scan_cut(s: Seq<char>, i: int, run: int, end: Option<int>)
    requires
        0 <= i,
        end matches Some(k) ==> 0 < k < s.len() && (spec_is_sentence_end(s[k - 1])
            || spec_is_closer(s[k - 1]) || spec_is_clause_end(s[k - 1])),
    ensures
        scan(s, i, run, end) matches Some(k) ==> 0 < k < s.len() && (spec_is_sentence_end(
            s[k - 1],
        ) || spec_is_closer(s[k - 1]) || spec_is_clause_end(s[k - 1])),
    decreases s.len() - i,
{
    if i < s.len() {
        let c = s[i];
        let run1 = run + 1;
        if !is_cut_point(c, run1) {
            lemma_scan_cut(s, i + 1, run1, end);
        } else {
            let j = after_punctuation(s, i + 1);
            lemma_after_punctuation(s, i + 1);
            if j < s.len() {
                if j > i + 1 {
                    assert(spec_is_sentence_end(s[j - 1]) || spec_is_closer(s[j - 1]));
                }
                if !is_ascii_char(c) || is_ws(s[j]) {
                    lemma_scan_cut(s, j, 0, Some(j));
                } else {
                    lemma_scan_cut(s, j, run1 + (j - i - 1), end);
                }
            }
        }
    }
}

/// A line is only ever cut right after sentence-ending punctuation, a
/// closing quote or (in a long run) a comma, and only once something has
/// arrived after it: a cut never falls at the end of what has come so far.
pub proof fn law_cut_waits_for_what_follows(s: Seq<char>)
    ensures
        last_cut(s) matches Some(k) ==> 0 < k < s.len() && (spec_is_sentence_end(s[k - 1])
            || spec_is_closer(s[k - 1]) || spec_is_clause_end(s[k - 1])),
{
    lemma_scan_cut(s, 0, 0, None);
}

/// `k` is a cut made by the punctuation at `i`: sentence-ending (or, in a
/// long run, clause) punctuation, then only more punctuation and closers up
/// to `k`, something other than those at `k`, and — after ASCII
/// punctuation — whitespace there.
pub open spec fn cut_after(s: Seq<char>, i: int, k: int) -> bool {
    &&& 0 <= i < k < s.len()
    &&& spec_is_sentence_end(s[i]) || spec_is_clause_end(s[i])
    &&& after_punctuation(s, i + 1) == k
    &&& !is_ascii_char(s[i]) || is_ws(s[k])
}

/// Sentence-ending punctuation at `m`, starting its run, with something
/// after the run that lets it be cut: a place where a cut is always made.
pub open spec fn sentence_cut_at(s: Seq<char>, m: int) -> bool {
    &&& 0 <= m < s.len()
    &&& spec_is_sentence_end(s[m])
    &&& m == 0 || !(spec_is_sentence_end(s[m - 1]) || spec_is_closer(s[m - 1])
        || spec_is_clause_end(s[m - 1]))
    &&& after_punctuation(s, m + 1) < s.len()
    &&& !is_ascii_char(s[m]) || is_ws(s[after_punctuation(s, m + 1)])
}

proof fn lemma_scan_last(s: Seq<char>, i: int, run: int, end: Option<int>)
    requires
        0 <= i,
        end matches Some(e) ==> e <= i && exists|i0: int| #[trigger] cut_after(s, i0, e),
    ensures
        scan(s, i, run, end) matches Some(k) ==> exists|i0: int| #[trigger] cut_after(s, i0, k),
        end matches Some(e) ==> scan(s, i, run, end) matches Some(k) && e <= k,
        forall|m: int|
            i <= m && #[trigger] sentence_cut_at(s, m) ==> (scan(s, i, run, end) matches Some(k)
                && after_punctuation(s, m + 1) <= k),
    decreases s.len() - i,
{
    if i < s.len() {
        let c = s[i];
        let run1 = run + 1;
        if !is_cut_point(c, run1) {
            lemma_scan_last(s, i + 1, run1, end);
        } else {
            let j = after_punctuation(s, i + 1);
            lemma_after_punctuation(s, i + 1);
            assert forall|m: int| i < m < j implies !#[trigger] sentence_cut_at(s, m) by {
                if m > i + 1 {
                    assert(spec_is_sentence_end(s[m - 1]) || spec_is_closer(s[m - 1]));
                }
            }
            if j < s.len() {
                if !is_ascii_char(c) || is_ws(s[j]) {
                    assert(cut_after(s, i, j));
                    lemma_scan_last(s, j, 0, Some(j));
                } else {
                    lemma_scan_last(s, j, run1 + (j - i - 1), end);
                }
            }
        }
    } else {
        assert forall|m: int| i <= m implies !#[trigger] sentence_cut_at(s, m) by {}
    }
}

/// The cut is the last one the text allows: every sentence-ending
/// punctuation that starts its run, with something after the run that
/// lets it be cut, lies before it; and the cut is made by punctuation whose
/// run ends exactly there, with whitespace after it when that punctuation
/// is ASCII.
pub proof fn law_cut_is_the_last(s: Seq<char>)
    ensures
        forall|m: int| #[trigger] sentence_cut_at(s, m) ==> (last_cut(s) matches Some(k)
            && after_punctuation(s, m + 1) <= k),
        last_cut(s) matches Some(k) ==> exists|i: int| #[trigger] cut_after(s, i, k),
{
    lemma_scan_last(s, 0, 0, None);
}

/// The index, counted in characters, just past the last place `tail` can be
/// cut, if any.
pub fn segment_end_chars(tail: &[char]) -> (r: Option<usize>)
    ensures
        r matches Some(k) ==> last_cut(tail@) == Some(k as int),
        r is None ==> last_cut(tail@) is None,
{
    let n = tail.len();
    let mut end: Option<usize> = None;
    let mut run: usize = 0;
    let mut i: usize = 0;
    while i < n
        invariant
            n == tail.len(),
            i <= n,
            run <= i,
            scan(tail@, i as int, run as int, match end {
                Some(k) => Some(k as int),
                None => None,
            }) == last_cut(tail@),
        ensures
            last_cut(tail@) == match end {
                Some(k) => Some(k as int),
                None => None,
            },
        decreases n - i,
    {
        let c = tail[i];
        let run1 = run + 1;
        if !is_sentence_end(c) && !(run1 >= SOFT_CUT_CHARS && is_clause_end(c)) {
            run = run1;
            i += 1;
            continue;
        }
        proof {
            lemma_after_punctuation(tail@, i + 1);
        }
        let mut j = i + 1;
        while j < n && (is_sentence_end(tail[j]) || is_closer(tail[j]))
            invariant
                n == tail.len(),
                i < j <= n,
                after_punctuation(tail@, j as int) == after_punctuation(tail@, i + 1),
            decreases n - j,
        {
            j += 1;
        }
        if j >= n {
            assert(scan(tail@, i as int, run as int, match end {
                Some(k) => Some(k as int),
                None => None,
            }) == match end {
                Some(k) => Some(k as int),
                None => None,
            });
            break;
        }
        let next = tail[j];
        if !((c as u32) < 0x80) || is_whitespace(next) {
            end = Some(j);
            run = 0;
        } else {
            run = run1 + (j - i - 1);
        }
        i = j;
    }
    end
}

/// Byte offset into `tail` just past the last place it can be cut, if any.
///
/// Only cuts once something has already come after the punctuation — until
/// then there's no telling "好。" from "好。」", or "3." from "3.14". ASCII
/// punctuation additionally needs whitespace after it.
pub fn segment_end(tail: &str) -> (r: Option<usize>)
    requires
        utf8_len(tail@) <= usize::MAX,
    ensures
        r matches Some(b) ==> exists|k: int|
            last_cut(tail@) == Some(k) && 0 <= k <= tail@.len() && b == utf8_len(tail@.take(k)),
        r is None ==> last_cut(tail@) is None,
{
    let chars = chars_of(tail);
    match segment_end_chars(&chars) {
        Some(k) => {
            proof {
                lemma_scan_cut(tail@, 0, 0, None);
            }
            let offs = byte_offsets(&chars);
            assert(last_cut(tail@) == Some(k as int) && 0 <= k <= tail@.len() && offs@[k as int]
                == utf8_len(tail@.take(k as int)));
            Some(offs[k])
        },
        None => None,
    }
}

/// The character is already speaking the display language, so a
/// translation would just repeat it. `auto` still asks for one.
pub open spec fn spec_should_translate(character_language: Seq<char>, target: Lang) -> bool {
    !((character_language == "zh"@ && target == Lang::Zh) || (character_language == "en"@
        && target == Lang::En))
}

/// The character language code that speaks display language `t`.
pub open spec fn code_of(t: Lang) -> Seq<char> {
    match t {
        Lang::Zh => "zh"@,
        Lang::En => "en"@,
    }
}

/// A line is translated exactly when the character does not already speak
/// the display language: an English character on an English display, or a
/// Chinese one on a Chinese display, is shown as it speaks; any other
/// pairing, `auto` and Japanese included, is translated.
pub proof fn law_no_translation_into_the_same_language(character_language: Seq<char>, target: Lang)
    ensures
        spec_should_translate(character_language, target) == (character_language != code_of(target)),
        !spec_should_translate("en"@, Lang::En),
        !spec_should_translate("zh"@, Lang::Zh),
        spec_should_translate("en"@, Lang::Zh),
        spec_should_translate("zh"@, Lang::En),
{
    reveal_strlit("zh");
    reveal_strlit("en");
    assert("zh"@ != "en"@) by {
        assert("zh"@[0] != "en"@[0]);
    }
}

pub fn should_translate(character_language: &str, target: Lang) -> (r: bool)
    ensures
        r == spec_should_translate(character_language@, target),
{
    let zh = str_eq(character_language, "zh");
    let en = str_eq(character_language, "en");
    !((zh && target == Lang::Zh) || (en && target == Lang::En))
}

pub open spec fn spec_target_language_name(lang: Lang) -> Seq<char> {
    match lang {
        Lang::En => "English"@,
        Lang::Zh => "Simplified Chinese"@,
    }
}

pub fn target_language_name(lang: Lang) -> (r: &'static str)
    ensures
        r@ == spec_target_language_name(lang),
{
    match lang {
        Lang::En => "English",
        Lang::Zh => "Simplified Chinese",
    }
}

/// The id of the subtitle line on screen. Bumped once per assistant turn,
/// so a translation that resolves after its line has been replaced can be
/// told apart from one that still matters.
pub struct LineCounter {
    pub id: u64,
}

impl LineCounter {
    pub fn new() -> (r: LineCounter)
        ensures
            r.id == 0,
    {
        LineCounter { id: 0 }
    }
}

/// Starts a new line and returns its id. Wraps around like the atomic
/// counter it stands for.
pub fn begin_line(lines: &mut LineCounter) -> (r: u64)
    ensures
        r == (if old(lines).id == u64::MAX { 0 } else { old(lines).id + 1 }),
        final(lines).id == r,
{
    lines.id = if lines.id == u64::MAX {
        0
    } else {
        lines.id + 1
    };
    lines.id
}

/// The id of the line currently on screen (or most recently was).
pub fn current_line(lines: &LineCounter) -> (r: u64)
    ensures
        r == lines.id,
{
    lines.id
}

/// How far `translate_line` has got through the current line.
pub struct Progress {
    pub line: u64,
    /// The leading part of the line already sent off, as sent.
    pub sent: String,
    /// How many segments that was, i.e. the next segment's index.
    pub segments: u32,
}

/// One segment to send off for translation.
pub struct SegmentRequest {
    pub index: u32,
    /// The part of the line before this segment, for the model to resolve
    /// references against.
    pub earlier: String,
    pub segment: String,
}

impl Progress {
    pub fn new() -> (r: Progress)
        ensures
            r.line == 0,
            r.sent@ == Seq::<char>::empty(),
            r.segments == 0,
    {
        Progress { line: 0, sent: String::new(), segments: 0 }
    }
}

/// Where a new delta for line `id` finds the progress: carried on for the
/// same line, reset for a new one.
pub open spec fn progress_base(p: Progress, id: u64) -> (u64, Seq<char>, u32) {
    if p.line != id {
        (id, Seq::<char>::empty(), 0)
    } else {
        (p.line, p.sent@, p.segments)
    }
}

/// How many characters of `tail` the next segment takes: all of it once the
/// line is done, otherwise up to the last cut.
pub open spec fn segment_take(tail: Seq<char>, done: bool) -> Option<int> {
    if done {
        Some(tail.len() as int)
    } else {
        last_cut(tail)
    }
}

/// Called with the line so far on every transcript delta (`done: false`),
/// and once more with the final text (`done: true`). Hands back each
/// complete sentence to be translated as soon as it is there, and on `done`
/// whatever is left; `None` when there is nothing to send yet.
pub fn translate_line(progress: &mut Progress, id: u64, text: &str, done: bool) -> (r: Option<
    SegmentRequest,
>)
    requires
        old(progress).segments < u32::MAX,
    ensures
        ({
            let (line0, sent0, segs0) = progress_base(*old(progress), id);
            let tail = text@.skip(sent0.len() as int);
            let ok_prefix = starts_with(text@, sent0);
            let k = segment_take(tail, done);
            let seg = match k {
                Some(k) => trim(tail.take(k)),
                None => Seq::<char>::empty(),
            };
            let sends = ok_prefix && k is Some && seg.len() > 0 && (done || seg.len()
                >= MIN_SEGMENT_CHARS);
            &&& final(progress).line == id
            &&& sends ==> (r matches Some(req) && req.index == segs0 && req.earlier@ == trim(sent0)
                && req.segment@ == seg && final(progress).sent@ == sent0 + tail.take(k->0)
                && final(progress).segments == segs0 + 1)
            &&& !sends ==> r is None && final(progress).sent@ == sent0 && final(progress).segments
                == segs0
        }),
{
    if progress.line != id {
        progress.line = id;
        progress.sent = String::new();
        progress.segments = 0;
    }
    let t = chars_of(text);
    let sent = chars_of(progress.sent.as_str());
    if !starts_with_chars(&t, &sent) {
        return None;
    }
    let mut tail: Vec<char> = Vec::new();
    let mut i = sent.len();
    while i < t.len()
        invariant
            sent.len() <= i <= t.len(),
            tail@ == t@.subrange(sent.len() as int, i as int),
        decreases t.len() - i,
    {
        tail.push(t[i]);
        assert(t@.subrange(sent.len() as int, i + 1) =~= t@.subrange(sent.len() as int, i as int).push(t@[i as int]));
        i += 1;
    }
    assert(tail@ =~= text@.skip(sent@.len() as int));
    let end = if done {
        tail.len()
    } else {
        match segment_end_chars(&tail) {
            Some(e) => e,
            None => return None,
        }
    };
    proof {
        if !done {
            lemma_scan_cut(tail@, 0, 0, None);
        }
    }
    let piece = take_chars_exec(&tail, end);
    assert(piece@ == tail@.take(end as int));
    let segment = trim_chars(&piece);
    if segment.len() == 0 || (!done && segment.len() < MIN_SEGMENT_CHARS) {
        return None;
    }
    let earlier = trim_chars(&sent);
    let index = progress.segments;
    let mut new_sent = sent.clone();
    extend_chars(&mut new_sent, &piece);
    progress.sent = string_of(&new_sent);
    progress.segments = progress.segments + 1;
    Some(SegmentRequest { index, earlier: string_of(&earlier), segment: string_of(&segment) })
}

/// What the model is told for one segment: the target language, and, past
/// the first segment, the part of the line already sent, to resolve
/// references against without translating it again.
pub open spec fn spec_translation_prompt(target: Lang, earlier: Seq<char>) -> Seq<char> {
    let head = "Translate the subtitle line the user sends into "@ + spec_target_language_name(target)
        + ". Output only the translation itself, with no quotes, labels, or explanation."@;
    if earlier.len() == 0 {
        head
    } else {
        head + "\n\nThe line continues this earlier part of the same reply, which has already been translated separately. Use it only to resolve references; do not translate or repeat it.\n<earlier>"@
            + earlier + "</earlier>"@
    }
}

pub fn translation_prompt(target: Lang, earlier: &str) -> (r: String)
    ensures
        r@ == spec_translation_prompt(target, earlier@),
{
    let mut v: Vec<char> = Vec::new();
    extend_str(&mut v, "Translate the subtitle line the user sends into ");
    extend_str(&mut v, target_language_name(target));
    extend_str(&mut v, ". Output only the translation itself, with no quotes, labels, or explanation.");
    if earlier.unicode_len() > 0 {
        extend_str(
            &mut v,
            "\n\nThe line continues this earlier part of the same reply, which has already been translated separately. Use it only to resolve references; do not translate or repeat it.\n<earlier>",
        );
        extend_str(&mut v, earlier);
        extend_str(&mut v, "</earlier>");
    }
    string_of(&v)
}

/// What goes on screen for a translated segment: trimmed, and after the
/// first segment of an English line, with the sentence gap put back that
/// concatenating the segments would otherwise lose. Chinese runs on
/// without one.
pub open spec fn spec_translated_segment(index: u32, target: Lang, translated: Seq<char>) -> Seq<
    char,
> {
    if index > 0 && target == Lang::En {
        seq![' '] + trim(translated)
    } else {
        trim(translated)
    }
}

pub fn translated_segment(index: u32, target: Lang, translated: &str) -> (r: String)
    ensures
        r@ == spec_translated_segment(index, target, translated@),
{
    let t = trim_str(translated);
    if index > 0 && target == Lang::En {
        let mut v: Vec<char> = Vec::new();
        v.push(' ');
        extend_str(&mut v, t.as_str());
        string_of(&v)
    } else {
        t
    }
}

} // verus!
