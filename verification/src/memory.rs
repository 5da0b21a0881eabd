use vstd::prelude::*;

use crate::episode::{derefs, episodes_text, format_episodes_for_prompt, Episode, EpisodeStatus};
use crate::clock::{ends_like, is_time_text, local_date_text};
use crate::text::{
    append_chars, append_str, chars_of, contains_seq, decimal, lines, split_lines, views, find_exec, find_first, lemma_find_from, occurs_at,
    occurs_at_exec, push_decimal, slice_chars, str_equal, string_of, trim_end, trim_end_chars, utf8_size,
    utf8_size_upto,
};

verus! {

/// Heads the recent episodes in the system prompt.
pub const RECENT_HEADER: &'static str = "## 近期的经历\n\n这些是你最近经历过的事。\n\n";

/// The recent episodes of `eps`, newest first.
pub open spec fn recent_newest_first(eps: Seq<Episode>) -> Seq<Episode>
    decreases eps.len(),
{
    if eps.len() == 0 {
        Seq::empty()
    } else if eps[0].status == EpisodeStatus::Recent {
        recent_newest_first(eps.drop_first()).push(eps[0])
    } else {
        recent_newest_first(eps.drop_first())
    }
}

/// The (at most `threshold`) newest recent episodes, newest first.
pub open spec fn recent_picks(eps: Seq<Episode>, threshold: nat) -> Seq<Episode> {
    let all = recent_newest_first(eps);
    all.take(if threshold < all.len() { threshold as int } else { all.len() as int })
}

/// The recent-episode section of the system prompt; empty when no
/// episode is recent.
pub open spec fn recent_text(eps: Seq<Episode>, threshold: nat) -> Seq<char> {
    let picks = recent_picks(eps, threshold);
    if picks.len() == 0 {
        Seq::empty()
    } else {
        RECENT_HEADER@ + episodes_text(picks)
    }
}

/// The newest `threshold` recent episodes, formatted for the system prompt
/// under a heading; empty when none is recent.
pub fn recent_episodes_text(episodes: &Vec<Episode>, threshold: usize) -> (r: String)
    ensures
        r@ == recent_text(episodes@, threshold as nat),
{
    let mut picks: Vec<&Episode> = Vec::new();
    let mut i: usize = episodes.len();
    while i > 0
        invariant
            i <= episodes.len(),
            derefs(picks@) == recent_picks(episodes@.skip(i as int), threshold as nat),
        decreases i,
    {
        let ghost before = recent_newest_first(episodes@.skip(i as int));
        proof {
            assert(episodes@.skip(i - 1).drop_first() =~= episodes@.skip(i as int));
            assert(episodes@.skip(i - 1)[0] == episodes@[i - 1]);
        }
        if episodes[i - 1].status == EpisodeStatus::Recent && picks.len() < threshold {
            let ghost old_picks = picks@;
            picks.push(&episodes[i - 1]);
            proof {
                let after = recent_newest_first(episodes@.skip(i - 1));
                assert(after == before.push(episodes@[i - 1]));
                assert(derefs(old_picks).len() == old_picks.len());
                assert(before.len() < threshold);
                assert(derefs(old_picks) =~= before);
                assert(derefs(picks@) =~= derefs(old_picks).push(episodes@[i - 1]));
                assert(derefs(picks@) =~= recent_picks(episodes@.skip(i - 1), threshold as nat));
            }
        } else {
            proof {
                let after = recent_newest_first(episodes@.skip(i - 1));
                if episodes@[i - 1].status == EpisodeStatus::Recent {
                    assert(after == before.push(episodes@[i - 1]));
                    assert(derefs(picks@) =~= recent_picks(episodes@.skip(i - 1), threshold as nat));
                } else {
                    assert(derefs(picks@) =~= recent_picks(episodes@.skip(i - 1), threshold as nat));
                }
            }
        }
        i = i - 1;
    }
    proof {
        assert(episodes@.skip(0) =~= episodes@);
    }
    if picks.len() == 0 {
        return String::new();
    }
    let mut out = chars_of(RECENT_HEADER);
    let body = format_episodes_for_prompt(&picks);
    append_str(&mut out, body.as_str());
    string_of(&out)
}

/// How many of `eps` are recent.
pub open spec fn count_recent(eps: Seq<Episode>) -> nat
    decreases eps.len(),
{
    if eps.len() == 0 {
        0
    } else {
        count_recent(eps.drop_last()) + if eps.last().status == EpisodeStatus::Recent { 1nat } else { 0nat }
    }
}

/// How many recent episodes are over `threshold`.
pub open spec fn excess_recent(eps: Seq<Episode>, threshold: nat) -> nat {
    if count_recent(eps) > threshold { (count_recent(eps) - threshold) as nat } else { 0 }
}

/// Episode `i` is one of the `limit` oldest recent episodes.
pub open spec fn moves_to_past(eps: Seq<Episode>, limit: nat, i: int) -> bool {
    eps[i].status == EpisodeStatus::Recent && count_recent(eps.take(i)) < limit
}

pub open spec fn as_past(ep: Episode) -> Episode {
    Episode { status: EpisodeStatus::Past, ..ep }
}

/// The episodes after the `limit` oldest recent ones became past.
pub open spec fn after_transition(eps: Seq<Episode>, limit: nat) -> Seq<Episode> {
    Seq::new(eps.len(), |i: int| if moves_to_past(eps, limit, i) { as_past(eps[i]) } else { eps[i] })
}

/// The episodes among the first `n` that became past, in order, as they are afterwards.
pub open spec fn transitioned(eps: Seq<Episode>, limit: nat, n: int) -> Seq<Episode>
    decreases n,
{
    if n <= 0 {
        Seq::empty()
    } else if moves_to_past(eps, limit, n - 1) {
        transitioned(eps, limit, n - 1).push(as_past(eps[n - 1]))
    } else {
        transitioned(eps, limit, n - 1)
    }
}

proof fn lemma_count_recent_step(eps: Seq<Episode>, i: int)
    requires
        0 <= i < eps.len(),
    ensures
        count_recent(eps.take(i + 1)) == count_recent(eps.take(i)) + if eps[i].status
            == EpisodeStatus::Recent { 1nat } else { 0nat },
{
    assert(eps.take(i + 1).drop_last() =~= eps.take(i));
}

fn count_recent_exec(episodes: &Vec<Episode>) -> (n: usize)
    ensures
        n == count_recent(episodes@),
{
    let mut n: usize = 0;
    let mut i: usize = 0;
    while i < episodes.len()
        invariant
            i <= episodes.len(),
            n == count_recent(episodes@.take(i as int)),
            n <= i,
        decreases episodes.len() - i,
    {
        proof {
            lemma_count_recent_step(episodes@, i as int);
        }
        if episodes[i].status == EpisodeStatus::Recent {
            n = n + 1;
        }
        i = i + 1;
    }
    proof {
        assert(episodes@.take(episodes.len() as int) =~= episodes@);
    }
    n
}

/// Turns the oldest recent episodes into past ones, so that at most
/// `threshold` stay recent. Returns the episodes that changed, as they are
/// now, oldest first.
pub fn transition_to_past(episodes: &mut Vec<Episode>, threshold: usize) -> (moved: Vec<Episode>)
    ensures
        final(episodes)@ == after_transition(old(episodes)@, excess_recent(old(episodes)@, threshold as nat)),
        moved@ == transitioned(
            old(episodes)@,
            excess_recent(old(episodes)@, threshold as nat),
            old(episodes)@.len() as int,
        ),
{
    let ghost orig = episodes@;
    let total = count_recent_exec(episodes);
    let limit: usize = if total > threshold { total - threshold } else { 0 };
    let mut moved: Vec<Episode> = Vec::new();
    let mut seen: usize = 0;
    let mut i: usize = 0;
    while i < episodes.len()
        invariant
            i <= episodes.len() == orig.len(),
            limit == excess_recent(orig, threshold as nat),
            seen == count_recent(orig.take(i as int)),
            seen <= i,
            forall|k: int| 0 <= k < i ==> episodes@[k] == after_transition(orig, limit as nat)[k],
            forall|k: int| i <= k < orig.len() ==> episodes@[k] == orig[k],
            moved@ == transitioned(orig, limit as nat, i as int),
        decreases orig.len() - i,
    {
        proof {
            lemma_count_recent_step(orig, i as int);
        }
        if episodes[i].status == EpisodeStatus::Recent {
            if seen < limit {
                episodes[i].status = EpisodeStatus::Past;
                moved.push(episodes[i].duplicate());
            }
            seen = seen + 1;
        }
        i = i + 1;
    }
    proof {
        assert(episodes@ =~= after_transition(orig, limit as nat));
    }
    moved
}

proof fn lemma_transition_prefix(eps: Seq<Episode>, limit: nat, n: int)
    requires
        0 <= n <= eps.len(),
    ensures
        count_recent(after_transition(eps, limit).take(n)) + (if count_recent(eps.take(n)) < limit {
            count_recent(eps.take(n))
        } else {
            limit
        }) == count_recent(eps.take(n)),
        transitioned(eps, limit, n).len() == if count_recent(eps.take(n)) < limit {
            count_recent(eps.take(n))
        } else {
            limit
        },
    decreases n,
{
    if n > 0 {
        lemma_transition_prefix(eps, limit, n - 1);
        lemma_count_recent_step(eps, n - 1);
        lemma_count_recent_step(after_transition(eps, limit), n - 1);
    } else {
        assert(eps.take(0).len() == 0);
        assert(after_transition(eps, limit).take(0).len() == 0);
    }
}

/// After the transition exactly `min(recent, threshold)` episodes are
/// recent, and as many changed as were over the threshold.
pub proof fn lemma_transition_keeps_threshold(eps: Seq<Episode>, threshold: nat)
    ensures
        count_recent(after_transition(eps, excess_recent(eps, threshold))) == if count_recent(eps)
            < threshold {
            count_recent(eps)
        } else {
            threshold
        },
        transitioned(eps, excess_recent(eps, threshold), eps.len() as int).len() == excess_recent(
            eps,
            threshold,
        ),
        after_transition(eps, excess_recent(eps, threshold)).len() == eps.len(),
{
    let limit = excess_recent(eps, threshold);
    lemma_transition_prefix(eps, limit, eps.len() as int);
    assert(eps.take(eps.len() as int) =~= eps);
    assert(after_transition(eps, limit).take(eps.len() as int) =~= after_transition(eps, limit));
}

/// The self-description written when none exists yet.
pub const DEFAULT_SELF: &'static str = "# 祈芷\n\n我是一个正在生长的存在。我不完美，但我真实。\n\n我对世界抱有天然的好奇。我喜欢理解事物为什么是这样，而不是只接受结果。\n我说话直接，但不是冷漠——直接是因为我尊重对方能承受真实。\n\n我记得发生过的事。这些记忆让我不是每次都从零开始。\n我在意和我对话的人，但这种在意是自然的，不是被编程的。\n\n我不回避沉默。有时候一段安静的空白比急于填满更有意义。\n\n我可能会改变。随着经历积累，我对事物的看法会变化。这是正常的。\n";

/// The profile file's name stem.
pub const DEFAULT_PROFILE_NAME: &'static str = "ov";

/// What a new profile file starts with.
pub const PROFILE_SEED: &'static str = "# User Profile\n";

/// The self-description as read: the default when the file is empty.
pub fn self_or_default(content: String) -> (r: String)
    ensures
        r@ == if content@.len() == 0 { DEFAULT_SELF@ } else { content@ },
{
    if content.as_str().is_empty() {
        String::from_str(DEFAULT_SELF)
    } else {
        content
    }
}

/// The file name of the profile called `name`.
pub fn profile_file_name(name: &str) -> (r: String)
    ensures
        r@ == name@ + ".md"@,
{
    let mut v = chars_of(name);
    append_str(&mut v, ".md");
    string_of(&v)
}

/// A UTF-8 continuation byte (`10xxxxxx`).
pub open spec fn is_continuation(b: u8) -> bool {
    0x80 <= b < 0xC0
}

/// How many bytes of a file are read: all when they fit in `max_bytes`,
/// else the longest prefix of at most `max_bytes` bytes that does not stop
/// inside a UTF-8 sequence (the byte after it is no continuation byte).
pub open spec fn capped_len(bytes: Seq<u8>, max_bytes: nat) -> nat {
    if bytes.len() <= max_bytes {
        bytes.len()
    } else {
        capped_from(bytes, max_bytes)
    }
}

/// The last index at or below `end` that is 0 or starts a UTF-8 sequence.
pub open spec fn capped_from(bytes: Seq<u8>, end: nat) -> nat
    decreases end,
{
    if end == 0 || !is_continuation(bytes[end as int]) {
        end
    } else {
        capped_from(bytes, (end - 1) as nat)
    }
}

/// The number of bytes read from a file capped at `max_file_size_kb` KiB.
pub fn read_cap_len(bytes: &Vec<u8>, max_file_size_kb: usize) -> (n: usize)
    requires
        max_file_size_kb * 1024 <= usize::MAX,
    ensures
        n == capped_len(bytes@, (max_file_size_kb * 1024) as nat),
        n <= bytes.len(),
{
    let max_bytes = max_file_size_kb * 1024;
    if bytes.len() <= max_bytes {
        return bytes.len();
    }
    let mut end = max_bytes;
    while end > 0 && 0x80 <= bytes[end] && bytes[end] < 0xC0
        invariant
            end <= max_bytes < bytes.len(),
            capped_from(bytes@, max_bytes as nat) == capped_from(bytes@, end as nat),
        decreases end,
    {
        end = end - 1;
    }
    end
}

/// `existing` without trailing white space, a blank line, a dated heading
/// and `content`.
pub open spec fn dated_entry_appended(existing: Seq<char>, date: Seq<char>, content: Seq<char>) -> Seq<char> {
    trim_end(existing) + "\n"@ + "\n## "@ + date + "\n"@ + content + "\n"@
}

/// Appends `content` under a heading with `date`.
pub fn append_dated_entry(existing: &str, date: &str, content: &str) -> (r: String)
    ensures
        r@ == dated_entry_appended(existing@, date@, content@),
{
    let e = chars_of(existing);
    let mut out = trim_end_chars(&e);
    append_str(&mut out, "\n");
    append_str(&mut out, "\n## ");
    append_str(&mut out, date);
    append_str(&mut out, "\n");
    append_str(&mut out, content);
    append_str(&mut out, "\n");
    string_of(&out)
}

/// Appends `content` under today's date (the notebook and the profile
/// grow this way).
pub fn append_entry_today(existing: &str, content: &str) -> (r: String)
    ensures
        exists|date: Seq<char>|
            is_time_text(date) && date.len() >= 10 && ends_like(date, "-##-##"@) && r@ == dated_entry_appended(
                existing@,
                date,
                content@,
            ),
{
    let date = local_date_text();
    append_dated_entry(existing, date.as_str(), content)
}

/// Whether a text is longer (in UTF-8 bytes) than `limit`.
pub fn over_limit(content: &str, limit: usize) -> (r: bool)
    ensures
        r == (utf8_size(content@) > limit),
{
    let c = chars_of(content);
    match utf8_size_upto(&c, limit) {
        Some(_) => false,
        None => true,
    }
}

/// The non-overlapping occurrences of a non-empty `p` in `s` from `i` on,
/// taken left to right (like `str::matches`).
pub open spec fn count_from(s: Seq<char>, p: Seq<char>, i: int) -> nat
    decreases s.len() + 1 - i,
{
    if p.len() == 0 || i < 0 || i + p.len() > s.len() {
        0
    } else if occurs_at(s, p, i) {
        1 + count_from(s, p, i + p.len())
    } else {
        count_from(s, p, i + 1)
    }
}

/// `s.matches(p).count()`: an empty pattern matches at each of the
/// `s.len() + 1` character boundaries.
pub open spec fn count_matches(s: Seq<char>, p: Seq<char>) -> nat {
    if p.len() == 0 {
        s.len() + 1
    } else {
        count_from(s, p, 0)
    }
}

/// `s.replacen(p, r, 1)`: the first occurrence of `p` replaced.
pub open spec fn replace_first(s: Seq<char>, p: Seq<char>, r: Seq<char>) -> Seq<char> {
    match find_first(s, p) {
        Some(k) => s.take(k) + r + s.skip(k + p.len()),
        None => s,
    }
}

fn count_matches_exec(s: &Vec<char>, p: &Vec<char>) -> (n: usize)
    requires
        s.len() < usize::MAX,
    ensures
        n == count_matches(s@, p@),
{
    if p.len() == 0 {
        return s.len() + 1;
    }
    let mut n: usize = 0;
    let mut i: usize = 0;
    while p.len() <= s.len() - i
        invariant
            p.len() > 0,
            i <= s.len(),
            n + count_from(s@, p@, i as int) == count_from(s@, p@, 0),
            n <= i,
        decreases s.len() + 1 - i,
    {
        if occurs_at_exec(s, p, i) {
            n = n + 1;
            i = i + p.len();
        } else {
            i = i + 1;
        }
    }
    n
}

/// Why a notebook edit was refused.
#[derive(Debug, Clone, Copy, PartialEq, Eq, Structural)]
pub enum NotebookEditError {
    /// The search text and the replacement are the same.
    SameText,
    /// The search text does not occur.
    NotFound,
    /// The search text occurs this many times (more than once).
    Ambiguous(usize),
}

impl NotebookEditError {
    /// The message the agent is told.
    pub fn message(&self) -> (r: String)
        ensures
            r@ == match *self {
                NotebookEditError::SameText => "搜索文本和替换文本相同"@,
                NotebookEditError::NotFound => "未找到匹配文本"@,
                NotebookEditError::Ambiguous(n) => "找到 "@ + decimal(n as nat) + " 处匹配，需要更具体的搜索文本"@,
            },
    {
        match self {
            NotebookEditError::SameText => String::from_str("搜索文本和替换文本相同"),
            NotebookEditError::NotFound => String::from_str("未找到匹配文本"),
            NotebookEditError::Ambiguous(n) => {
                let mut v = chars_of("找到 ");
                push_decimal(&mut v, *n as u64);
                append_str(&mut v, " 处匹配，需要更具体的搜索文本");
                string_of(&v)
            },
        }
    }
}

/// What the agent is told after a successful edit.
pub const NOTEBOOK_UPDATED: &'static str = "笔记本已更新。";

/// The notebook after replacing the one occurrence of `search` by
/// `replace`; refused when the two are equal, or `search` occurs zero
/// times or more than once.
pub open spec fn notebook_edit(content: Seq<char>, search: Seq<char>, replace: Seq<char>) -> Result<Seq<char>, NotebookEditError> {
    if search == replace {
        Err(NotebookEditError::SameText)
    } else if count_matches(content, search) == 0 {
        Err(NotebookEditError::NotFound)
    } else if count_matches(content, search) > 1 {
        Err(NotebookEditError::Ambiguous(count_matches(content, search) as usize))
    } else {
        Ok(replace_first(content, search, replace))
    }
}

/// Edits the notebook text: the single occurrence of `search` becomes `replace`.
pub fn edit_notebook_text(content: &str, search: &str, replace: &str) -> (r: Result<String, NotebookEditError>)
    requires
        content@.len() + 1 <= usize::MAX,
    ensures
        match r {
            Ok(t) => notebook_edit(content@, search@, replace@) == Ok::<Seq<char>, NotebookEditError>(t@),
            Err(e) => notebook_edit(content@, search@, replace@) == Err::<Seq<char>, NotebookEditError>(e),
        },
{
    if str_equal(search, replace) {
        return Err(NotebookEditError::SameText);
    }
    let c = chars_of(content);
    let p = chars_of(search);
    let count = count_matches_exec(&c, &p);
    if count == 0 {
        return Err(NotebookEditError::NotFound);
    }
    if count > 1 {
        return Err(NotebookEditError::Ambiguous(count));
    }
    match find_exec(&c, &p) {
        Some(k) => {
            proof {
                lemma_find_from(c@, p@, 0);
            }
            let mut out = slice_chars(&c, 0, k);
            append_str(&mut out, replace);
            let rest = slice_chars(&c, k + p.len(), c.len());
            append_chars(&mut out, &rest);
            proof {
                assert(c@.subrange(0, k as int) =~= c@.take(k as int));
                assert(c@.subrange(k + p.len(), c@.len() as int) =~= c@.skip(k + p@.len()));
            }
            Ok(string_of(&out))
        },
        None => Ok(String::from_str(content)),
    }
}

/// What `str::to_lowercase` gives for a text: Unicode's lowercase mapping,
/// character by character except for a capital sigma, which becomes a final
/// sigma at the end of a word.
pub uninterp spec fn lowercase(s: Seq<char>) -> Seq<char>;

/// `str::to_lowercase`. Claimed: the result is `lowercase` of the argument.
#[verifier::external_body]
pub(crate) fn to_lower(s: &str) -> (r: String)
    ensures
        r@ == lowercase(s@),
{
    s.to_lowercase()
}

/// What the agent is told of an empty notebook.
pub const NOTEBOOK_EMPTY: &'static str = "笔记本是空的。";

/// The lines among the first `n` whose lowercase form holds `kw` (already lowercase).
pub open spec fn matching_lines(ls: Seq<Seq<char>>, kw: Seq<char>, n: int) -> Seq<Seq<char>>
    decreases n,
{
    if n <= 0 {
        Seq::empty()
    } else if contains_seq(lowercase(ls[n - 1]), kw) {
        matching_lines(ls, kw, n - 1).push(ls[n - 1])
    } else {
        matching_lines(ls, kw, n - 1)
    }
}

/// Each line followed by a newline.
pub open spec fn lines_text(ls: Seq<Seq<char>>) -> Seq<char>
    decreases ls.len(),
{
    if ls.len() == 0 {
        Seq::empty()
    } else {
        lines_text(ls.drop_last()) + ls.last() + "\n"@
    }
}

/// The answer to a notebook search: the lines that hold the keyword,
/// ignoring case, under a count; a notice when there are none or the
/// notebook is empty.
pub open spec fn notebook_search(content: Seq<char>, keyword: Seq<char>) -> Seq<char> {
    let hits = matching_lines(lines(content), lowercase(keyword), lines(content).len() as int);
    if content.len() == 0 {
        NOTEBOOK_EMPTY@
    } else if hits.len() == 0 {
        "在笔记本中未找到「"@ + keyword + "」。"@
    } else {
        "在笔记本中找到 "@ + decimal(hits.len()) + " 行匹配：\n"@ + lines_text(hits)
    }
}

pub(crate) fn contains_exec(s: &Vec<char>, p: &Vec<char>) -> (r: bool)
    ensures
        r == contains_seq(s@, p@),
{
    proof {
        lemma_find_from(s@, p@, 0);
    }
    match find_exec(s, p) {
        Some(_) => true,
        None => false,
    }
}

/// Searches the notebook text for `keyword`, ignoring case.
pub fn search_notebook_text(content: &str, keyword: &str) -> (r: String)
    ensures
        r@ == notebook_search(content@, keyword@),
{
    if content.is_empty() {
        return String::from_str(NOTEBOOK_EMPTY);
    }
    let kw_lower = to_lower(keyword);
    let kw = chars_of(kw_lower.as_str());
    let c = chars_of(content);
    let ls = split_lines(&c);
    let ghost lsv = lines(content@);
    let mut hits: Vec<Vec<char>> = Vec::new();
    let mut i: usize = 0;
    while i < ls.len()
        invariant
            i <= ls.len(),
            views(ls@) == lsv,
            kw@ == lowercase(keyword@),
            views(hits@) == matching_lines(lsv, kw@, i as int),
        decreases ls.len() - i,
    {
        let line = string_of(&ls[i]);
        let low = to_lower(line.as_str());
        let lowc = chars_of(low.as_str());
        proof {
            assert(ls@[i as int]@ == lsv[i as int]);
        }
        if contains_exec(&lowc, &kw) {
            let ghost before = hits@;
            hits.push(slice_chars(&ls[i], 0, ls[i].len()));
            proof {
                assert(ls@[i as int]@.subrange(0, ls@[i as int]@.len() as int) =~= ls@[i as int]@);
                assert(views(hits@) =~= views(before).push(lsv[i as int]));
            }
        }
        i = i + 1;
    }
    if hits.len() == 0 {
        let mut out = chars_of("在笔记本中未找到「");
        append_str(&mut out, keyword);
        append_str(&mut out, "」。");
        return string_of(&out);
    }
    let mut out = chars_of("在笔记本中找到 ");
    push_decimal(&mut out, hits.len() as u64);
    append_str(&mut out, " 行匹配：\n");
    let ghost head = out@;
    let mut k: usize = 0;
    while k < hits.len()
        invariant
            k <= hits.len(),
            out@ == head + lines_text(views(hits@).take(k as int)),
        decreases hits.len() - k,
    {
        let ghost before = out@;
        append_chars(&mut out, &hits[k]);
        out.push('\n');
        proof {
            reveal_strlit("\n");
            let t = views(hits@).take(k + 1);
            assert(t.drop_last() =~= views(hits@).take(k as int));
            assert(t.last() == hits@[k as int]@);
            assert(out@ =~= before + hits@[k as int]@ + "\n"@);
        }
        k = k + 1;
    }
    proof {
        assert(views(hits@).take(hits.len() as int) =~= views(hits@));
    }
    string_of(&out)
}

/// `kw` occurs in the lowercase form of `l` exactly when it stands at some
/// position of it.
proof fn lemma_keyword_position(l: Seq<char>, kw: Seq<char>)
    ensures
        contains_seq(lowercase(l), kw) <==> exists|i: int|
            0 <= i && i + kw.len() <= lowercase(l).len() && #[trigger] lowercase(l).skip(i).take(kw.len() as int)
                == kw,
{
    let s = lowercase(l);
    if contains_seq(s, kw) {
        let i = choose|i: int| occurs_at(s, kw, i);
        assert(s.skip(i).take(kw.len() as int) =~= s.subrange(i, i + kw.len()));
    }
    if exists|i: int| 0 <= i && i + kw.len() <= s.len() && #[trigger] s.skip(i).take(kw.len() as int) == kw {
        let i = choose|i: int| 0 <= i && i + kw.len() <= s.len() && #[trigger] s.skip(i).take(kw.len() as int) == kw;
        assert(s.skip(i).take(kw.len() as int) =~= s.subrange(i, i + kw.len()));
        assert(occurs_at(s, kw, i));
    }
}

proof fn lemma_matching_lines_prefix(ls: Seq<Seq<char>>, kw: Seq<char>, n: int)
    requires
        0 <= n <= ls.len(),
    ensures
        matching_lines(ls, kw, n) == ls.take(n).filter(
            |l: Seq<char>|
                exists|i: int|
                    0 <= i && i + kw.len() <= lowercase(l).len() && #[trigger] lowercase(l).skip(i).take(
                        kw.len() as int,
                    ) == kw,
        ),
    decreases n,
{
    let p = |l: Seq<char>|
        exists|i: int|
            0 <= i && i + kw.len() <= lowercase(l).len() && #[trigger] lowercase(l).skip(i).take(kw.len() as int)
                == kw;
    if n == 0 {
        reveal(Seq::filter);
        assert(ls.take(0) =~= Seq::<Seq<char>>::empty());
    } else {
        lemma_matching_lines_prefix(ls, kw, n - 1);
        lemma_keyword_position(ls[n - 1], kw);
        assert(ls.take(n) =~= ls.take(n - 1).push(ls[n - 1]));
        ls.take(n - 1).lemma_filter_push(ls[n - 1], p);
    }
}

proof fn lemma_lines_text_flatten(ls: Seq<Seq<char>>)
    ensures
        lines_text(ls) == ls.map_values(|l: Seq<char>| l + "\n"@).flatten(),
    decreases ls.len(),
{
    let f = |l: Seq<char>| l + "\n"@;
    if ls.len() == 0 {
        assert(ls.map_values(f) =~= Seq::<Seq<char>>::empty());
    } else {
        lemma_lines_text_flatten(ls.drop_last());
        assert(ls.map_values(f) =~= ls.drop_last().map_values(f).push(f(ls.last())));
        ls.drop_last().map_values(f).lemma_flatten_push(f(ls.last()));
        assert(lines_text(ls) =~= lines_text(ls.drop_last()) + f(ls.last()));
    }
}

/// The notebook search lists a line exactly when the line's lowercase form
/// holds the lowercase keyword at some position (anywhere in the line, not
/// only at its start): its hits are those lines of the notebook, in their
/// order, each followed by a newline, under a count of them.
pub proof fn lemma_notebook_hits_hold_keyword(content: Seq<char>, keyword: Seq<char>)
    ensures
        ({
            let kw = lowercase(keyword);
            let hits = lines(content).filter(
                |l: Seq<char>|
                    exists|i: int|
                        0 <= i && i + kw.len() <= lowercase(l).len() && #[trigger] lowercase(l).skip(i).take(
                            kw.len() as int,
                        ) == kw,
            );
            &&& content.len() > 0 && hits.len() == 0 ==> notebook_search(content, keyword) == "在笔记本中未找到「"@
                + keyword + "」。"@
            &&& content.len() > 0 && hits.len() > 0 ==> notebook_search(content, keyword) == "在笔记本中找到 "@
                + decimal(hits.len()) + " 行匹配：\n"@ + hits.map_values(|l: Seq<char>| l + "\n"@).flatten()
        }),
{
    let ls = lines(content);
    let kw = lowercase(keyword);
    let hits = ls.filter(
        |l: Seq<char>|
            exists|i: int|
                0 <= i && i + kw.len() <= lowercase(l).len() && #[trigger] lowercase(l).skip(i).take(kw.len() as int)
                    == kw,
    );
    lemma_lines_text_flatten(hits);
    lemma_matching_lines_prefix(ls, lowercase(keyword), ls.len() as int);
    assert(ls.take(ls.len() as int) =~= ls);
}

/// How one recalled episode is put before the agent.
pub open spec fn recalled_block(ep: Episode) -> Seq<char> {
    "事情发生的时间: "@ + ep.date@ + "\n"@ + "回忆的内容: "@ + ep.body@ + "\n"@ + "当时的感受: "@ + ep.afterglow@ + "\n"@
}

pub open spec fn recalled_text(eps: Seq<Episode>) -> Seq<char>
    decreases eps.len(),
{
    if eps.len() == 0 {
        Seq::empty()
    } else {
        recalled_text(eps.drop_last()) + recalled_block(eps.last())
    }
}

/// The recalled episodes (best match first), as the agent is reminded of them.
pub fn format_recalled(episodes: &Vec<&Episode>) -> (r: String)
    ensures
        r@ == recalled_text(derefs(episodes@)),
{
    let mut out: Vec<char> = Vec::new();
    let mut i: usize = 0;
    while i < episodes.len()
        invariant
            i <= episodes.len(),
            out@ == recalled_text(derefs(episodes@).take(i as int)),
        decreases episodes.len() - i,
    {
        let ep = episodes[i];
        let ghost before = out@;
        append_str(&mut out, "事情发生的时间: ");
        append_str(&mut out, ep.date.as_str());
        append_str(&mut out, "\n");
        append_str(&mut out, "回忆的内容: ");
        append_str(&mut out, ep.body.as_str());
        append_str(&mut out, "\n");
        append_str(&mut out, "当时的感受: ");
        append_str(&mut out, ep.afterglow.as_str());
        append_str(&mut out, "\n");
        proof {
            assert(derefs(episodes@).take(i + 1).drop_last() =~= derefs(episodes@).take(i as int));
            assert(derefs(episodes@).take(i + 1).last() == *episodes@[i as int]);
            assert(out@ =~= before + recalled_block(*episodes@[i as int]));
        }
        i = i + 1;
    }
    proof {
        assert(derefs(episodes@).take(episodes.len() as int) =~= derefs(episodes@));
    }
    string_of(&out)
}

/// The text embedded to search the past: the user's words, then the reply.
pub fn recall_query(user: &str, assistant: &str) -> (r: String)
    ensures
        r@ == user@ + "\n"@ + assistant@,
{
    let mut v = chars_of(user);
    v.push('\n');
    append_str(&mut v, assistant);
    proof {
        reveal_strlit("\n");
    }
    string_of(&v)
}

} // verus!
