use vstd::prelude::*;

use crate::clock::{ends_like, is_time_text, local_session_stamp};
use crate::llm::types::{ChatMessage, Role};
use crate::memory::{contains_exec, lowercase, to_lower};
use crate::text::{append_str, chars_of, contains_seq, occurs_at, slice_chars, string_of};

verus! {

/// Keeps the conversations of past sessions, each in a directory named
/// by the time the session started.
pub struct SessionManager {
    sessions_dir: String,
    current_session_id: String,
}

impl SessionManager {
    /// A manager for the sessions under `directory`; the current session
    /// is named by the local time now.
    pub fn new(directory: &str) -> (r: Self)
        ensures
            r.dir() == directory@,
            is_time_text(r.id()),
            r.id().len() >= 19,
            ends_like(r.id(), "-##-##_##-##-##"@),
    {
        SessionManager { sessions_dir: String::from_str(directory), current_session_id: local_session_stamp() }
    }

    /// A manager whose current session has the given id.
    pub fn with_session_id(directory: &str, session_id: &str) -> (r: Self)
        ensures
            r.dir() == directory@,
            r.id() == session_id@,
    {
        SessionManager { sessions_dir: String::from_str(directory), current_session_id: String::from_str(session_id) }
    }

    pub closed spec fn dir(&self) -> Seq<char> {
        self.sessions_dir@
    }

    pub closed spec fn id(&self) -> Seq<char> {
        self.current_session_id@
    }

    pub fn sessions_dir(&self) -> (r: &str)
        ensures
            r@ == self.dir(),
    {
        self.sessions_dir.as_str()
    }

    pub fn session_id(&self) -> (r: &str)
        ensures
            r@ == self.id(),
    {
        self.current_session_id.as_str()
    }
}

/// A past session found by a search.
#[derive(Debug)]
pub struct SessionEntry {
    pub session_id: String,
    pub path: String,
    pub preview: String,
}

impl SessionEntry {
    /// `[id] preview`.
    pub fn to_text(&self) -> (r: String)
        ensures
            r@ == "["@ + self.session_id@ + "] "@ + self.preview@,
    {
        let mut v = chars_of("[");
        append_str(&mut v, self.session_id.as_str());
        append_str(&mut v, "] ");
        append_str(&mut v, self.preview.as_str());
        string_of(&v)
    }
}

/// Shown when a session has no user message to preview.
pub const NO_PREVIEW: &'static str = "(no preview)";

/// The content of the first user message among the first `n`, if that
/// message has content.
pub open spec fn first_user_content(msgs: Seq<ChatMessage>, n: int) -> Option<Option<Seq<char>>>
    decreases n,
{
    if n <= 0 {
        None
    } else {
        match first_user_content(msgs, n - 1) {
            Some(c) => Some(c),
            None => if msgs[n - 1].role == Role::User {
                Some(
                    match msgs[n - 1].content {
                        Some(s) => Some(s@),
                        None => None,
                    },
                )
            } else {
                None
            },
        }
    }
}

/// The preview of a session: the first 100 characters of its first user
/// message, or a notice when the session could not be read (`None`) or
/// that message is missing or empty of content.
pub open spec fn session_preview(msgs: Option<Seq<ChatMessage>>) -> Seq<char> {
    let text = match msgs {
        Some(m) => match first_user_content(m, m.len() as int) {
            Some(Some(c)) => c,
            _ => NO_PREVIEW@,
        },
        None => NO_PREVIEW@,
    };
    if text.len() <= 100 { text } else { text.take(100) }
}

/// The preview of a session from its messages (`None` when they could not be read).
pub fn extract_preview(messages: Option<&Vec<ChatMessage>>) -> (r: String)
    ensures
        r@ == session_preview(
            match messages {
                Some(m) => Some(m@),
                None => None,
            },
        ),
{
    let mut found: Option<&str> = None;
    match messages {
        Some(msgs) => {
            let mut i: usize = 0;
            let mut done = false;
            while i < msgs.len()
                invariant
                    i <= msgs.len(),
                    done == first_user_content(msgs@, i as int) is Some,
                    match first_user_content(msgs@, i as int) {
                        Some(Some(c)) => found matches Some(f) && f@ == c,
                        _ => found is None,
                    },
                decreases msgs.len() - i,
            {
                if !done && msgs[i].role == Role::User {
                    done = true;
                    found = match &msgs[i].content {
                        Some(c) => Some(c.as_str()),
                        None => None,
                    };
                }
                i = i + 1;
            }
        },
        None => {},
    }
    let text = match found {
        Some(c) => chars_of(c),
        None => chars_of(NO_PREVIEW),
    };
    if text.len() <= 100 {
        string_of(&text)
    } else {
        let t = slice_chars(&text, 0, 100);
        proof {
            assert(text@.subrange(0, 100) =~= text@.take(100));
        }
        string_of(&t)
    }
}

/// Whether a session's saved text matches a search: every session
/// matches an empty keyword; otherwise the keyword occurs, ignoring case.
pub open spec fn session_matches_spec(content: Seq<char>, keyword: Seq<char>) -> bool {
    keyword.len() == 0 || contains_seq(lowercase(content), lowercase(keyword))
}

pub fn session_matches(content: &str, keyword: &str) -> (r: bool)
    ensures
        r == session_matches_spec(content@, keyword@),
{
    if keyword.is_empty() {
        return true;
    }
    let c = to_lower(content);
    let k = to_lower(keyword);
    let cc = chars_of(c.as_str());
    let kc = chars_of(k.as_str());
    contains_exec(&cc, &kc)
}

/// Session search, stated by positions: a session matches exactly when the
/// keyword is empty or the keyword's lowercase form stands at some position
/// of the session text's lowercase form. So case makes no difference: texts
/// with the same lowercase form match alike, and so do keywords.
pub proof fn lemma_session_search_ignores_case(c1: Seq<char>, c2: Seq<char>, k1: Seq<char>, k2: Seq<char>)
    ensures
        session_matches_spec(c1, k1) == (k1.len() == 0 || exists|i: int|
            0 <= i && i + lowercase(k1).len() <= lowercase(c1).len() && #[trigger] lowercase(c1).skip(i).take(
                lowercase(k1).len() as int,
            ) == lowercase(k1)),
        lowercase(c1) == lowercase(c2) ==> session_matches_spec(c1, k1) == session_matches_spec(c2, k1),
        lowercase(k1) == lowercase(k2) && (k1.len() == 0) == (k2.len() == 0) ==> session_matches_spec(c1, k1)
            == session_matches_spec(c1, k2),
{
    let s = lowercase(c1);
    let p = lowercase(k1);
    if contains_seq(s, p) {
        let i = choose|i: int| occurs_at(s, p, i);
        assert(s.skip(i).take(p.len() as int) =~= s.subrange(i, i + p.len()));
    }
    if exists|i: int| 0 <= i && i + p.len() <= s.len() && #[trigger] s.skip(i).take(p.len() as int) == p {
        let i = choose|i: int| 0 <= i && i + p.len() <= s.len() && #[trigger] s.skip(i).take(p.len() as int) == p;
        assert(s.skip(i).take(p.len() as int) =~= s.subrange(i, i + p.len()));
        assert(occurs_at(s, p, i));
    }
}

/// `a` sorts before `b`, character by character (for UTF-8 text this is
/// the byte order that `String`'s `Ord` uses).
pub open spec fn lex_less(a: Seq<char>, b: Seq<char>) -> bool
    decreases a.len(),
{
    if a.len() == 0 {
        b.len() > 0
    } else if b.len() == 0 {
        false
    } else if a[0] != b[0] {
        a[0] < b[0]
    } else {
        lex_less(a.drop_first(), b.drop_first())
    }
}

proof fn lemma_lex_asym(a: Seq<char>, b: Seq<char>)
    ensures
        lex_less(a, b) ==> !lex_less(b, a),
    decreases a.len(),
{
    if a.len() > 0 && b.len() > 0 && a[0] == b[0] {
        lemma_lex_asym(a.drop_first(), b.drop_first());
    }
}

proof fn lemma_lex_trans(a: Seq<char>, b: Seq<char>, c: Seq<char>)
    ensures
        lex_less(a, b) && lex_less(b, c) ==> lex_less(a, c),
    decreases a.len(),
{
    if a.len() > 0 && b.len() > 0 && c.len() > 0 && a[0] == b[0] && b[0] == c[0] {
        lemma_lex_trans(a.drop_first(), b.drop_first(), c.drop_first());
    }
}

/// Newest first: no entry's id sorts before a later one's.
pub open spec fn sorted_desc(s: Seq<SessionEntry>) -> bool {
    forall|i: int, j: int| 0 <= i < j < s.len() ==> !lex_less(#[trigger] s[i].session_id@, #[trigger] s[j].session_id@)
}

fn lex_less_exec(a: &str, b: &str) -> (r: bool)
    ensures
        r == lex_less(a@, b@),
{
    let ac = chars_of(a);
    let bc = chars_of(b);
    let mut i: usize = 0;
    proof {
        assert(ac@.skip(0) =~= ac@);
        assert(bc@.skip(0) =~= bc@);
    }
    while i < ac.len() && i < bc.len() && ac[i] == bc[i]
        invariant
            i <= ac.len(),
            i <= bc.len(),
            lex_less(ac@, bc@) == lex_less(ac@.skip(i as int), bc@.skip(i as int)),
        decreases ac.len() - i,
    {
        proof {
            assert(ac@.skip(i as int).drop_first() =~= ac@.skip(i + 1));
            assert(bc@.skip(i as int).drop_first() =~= bc@.skip(i + 1));
        }
        i = i + 1;
    }
    if i == ac.len() {
        i < bc.len()
    } else if i == bc.len() {
        false
    } else {
        ac[i] < bc[i]
    }
}

/// The entries of `s` with id `k`, in order.
pub open spec fn with_id(s: Seq<SessionEntry>, k: Seq<char>) -> Seq<SessionEntry>
    decreases s.len(),
{
    if s.len() == 0 {
        Seq::empty()
    } else {
        with_id(s.drop_last(), k) + if s.last().session_id@ == k { seq![s.last()] } else { Seq::empty() }
    }
}

proof fn lemma_with_id_concat(a: Seq<SessionEntry>, b: Seq<SessionEntry>, k: Seq<char>)
    ensures
        with_id(a + b, k) == with_id(a, k) + with_id(b, k),
    decreases b.len(),
{
    if b.len() == 0 {
        assert(a + b =~= a);
        assert(with_id(a, k) + with_id(b, k) =~= with_id(a, k));
    } else {
        lemma_with_id_concat(a, b.drop_last(), k);
        assert((a + b).drop_last() =~= a + b.drop_last());
        assert((a + b).last() == b.last());
        assert(with_id(a + b, k) =~= with_id(a, k) + with_id(b, k));
    }
}

proof fn lemma_with_id_none(s: Seq<SessionEntry>, k: Seq<char>)
    requires
        forall|m: int| 0 <= m < s.len() ==> (#[trigger] s[m]).session_id@ != k,
    ensures
        with_id(s, k) == Seq::<SessionEntry>::empty(),
    decreases s.len(),
{
    if s.len() > 0 {
        lemma_with_id_none(s.drop_last(), k);
        assert(s.last() == s[s.len() - 1]);
        assert(with_id(s, k) =~= Seq::<SessionEntry>::empty());
    }
}

/// The sessions newest first (by id), at most `limit` of them; sessions
/// with the same id keep their order.
pub fn order_sessions(entries: Vec<SessionEntry>, limit: usize) -> (r: Vec<SessionEntry>)
    ensures
        sorted_desc(r@),
        r@.len() == if limit < entries@.len() { limit as int } else { entries@.len() as int },
        exists|all: Seq<SessionEntry>|
            #![auto]
            all.to_multiset() == entries@.to_multiset() && sorted_desc(all) && r@ == all.take(r@.len() as int)
                && forall|k: Seq<char>| #[trigger] with_id(all, k) == with_id(entries@, k),
{
    let ghost input = entries@;
    let mut sorted: Vec<SessionEntry> = Vec::new();
    let mut rest = entries;
    proof {
        broadcast use vstd::multiset::group_multiset_axioms;
        vstd::seq_lib::to_multiset_len(sorted@);
        vstd::multiset::lemma_multiset_empty_len(sorted@.to_multiset());
        assert(sorted@.to_multiset().add(rest@.to_multiset()) =~= input.to_multiset());
        assert(input.skip(0) =~= input);
        assert forall|k: Seq<char>| #[trigger] with_id(sorted@, k) == with_id(input.take(0), k) by {
            assert(input.take(0) =~= Seq::<SessionEntry>::empty());
            assert(sorted@ =~= Seq::<SessionEntry>::empty());
        }
    }
    let ghost mut t: int = 0;
    while rest.len() > 0
        invariant
            sorted_desc(sorted@),
            sorted@.to_multiset().add(rest@.to_multiset()) == input.to_multiset(),
            0 <= t <= input.len(),
            rest@ == input.skip(t),
            forall|k: Seq<char>| #[trigger] with_id(sorted@, k) == with_id(input.take(t), k),
        decreases rest.len(),
    {
        let ghost before_rest = rest@;
        let x = rest.remove(0);
        proof {
            assert(before_rest =~= rest@.insert(0, x));
            vstd::seq_lib::to_multiset_insert(rest@, 0, x);
            assert(x == input[t]);
            assert(rest@ =~= input.skip(t + 1));
        }
        let mut j: usize = 0;
        while j < sorted.len() && !lex_less_exec(sorted[j].session_id.as_str(), x.session_id.as_str())
            invariant
                j <= sorted.len(),
                forall|k: int| 0 <= k < j ==> !lex_less(#[trigger] sorted@[k].session_id@, x.session_id@),
            decreases sorted.len() - j,
        {
            j = j + 1;
        }
        let ghost before = sorted@;
        sorted.insert(j, x);
        proof {
            broadcast use vstd::multiset::group_multiset_axioms;
            vstd::seq_lib::to_multiset_insert(before, j as int, x);
            assert(sorted@ == before.insert(j as int, x));
            assert(sorted@.to_multiset().add(rest@.to_multiset()) =~= before.to_multiset().add(before_rest.to_multiset()));
            assert forall|a: int, b: int| 0 <= a < b < sorted@.len() implies !lex_less(
                #[trigger] sorted@[a].session_id@,
                #[trigger] sorted@[b].session_id@,
            ) by {
                let xs = x.session_id@;
                if b < j {
                    assert(sorted@[a] == before[a]);
                    assert(sorted@[b] == before[b]);
                    assert(!lex_less(before[a].session_id@, before[b].session_id@));
                } else if b == j {
                    assert(sorted@[a] == before[a]);
                    assert(sorted@[b] == x);
                } else if a < j {
                    assert(sorted@[a] == before[a]);
                    assert(sorted@[b] == before[b - 1]);
                    assert(!lex_less(before[a].session_id@, before[b - 1].session_id@));
                } else if a == j {
                    assert(sorted@[a] == x);
                    assert(sorted@[b] == before[b - 1]);
                    let sj = before[j as int].session_id@;
                    let sb = before[b - 1].session_id@;
                    assert(lex_less(sj, xs));
                    if b - 1 == j {
                        lemma_lex_asym(sj, xs);
                    } else {
                        assert(!lex_less(before[j as int].session_id@, before[b - 1].session_id@));
                        lemma_lex_trans(sj, xs, sb);
                    }
                } else {
                    assert(sorted@[a] == before[a - 1]);
                    assert(sorted@[b] == before[b - 1]);
                    assert(!lex_less(before[a - 1].session_id@, before[b - 1].session_id@));
                }
            }
            let xs = x.session_id@;
            assert(sorted@ =~= before.take(j as int) + seq![x] + before.skip(j as int));
            assert(before =~= before.take(j as int) + before.skip(j as int));
            assert(input.take(t + 1) =~= input.take(t).push(x));
            assert forall|m: int| 0 <= m < before.skip(j as int).len() implies (#[trigger] before.skip(
                j as int,
            )[m]).session_id@ != xs by {
                assert(before.skip(j as int)[m] == before[j + m]);
                lemma_lex_asym(before[j as int].session_id@, xs);
                if m > 0 {
                    assert(!lex_less(before[j as int].session_id@, before[j + m].session_id@));
                }
            }
            assert forall|k: Seq<char>| #[trigger] with_id(sorted@, k) == with_id(input.take(t + 1), k) by {
                lemma_with_id_concat(before.take(j as int) + seq![x], before.skip(j as int), k);
                lemma_with_id_concat(before.take(j as int), seq![x], k);
                lemma_with_id_concat(before.take(j as int), before.skip(j as int), k);
                assert(seq![x].drop_last() =~= Seq::<SessionEntry>::empty());
                assert(seq![x].last() == x);
                assert(with_id(Seq::<SessionEntry>::empty(), k) =~= Seq::<SessionEntry>::empty());
                assert(with_id(seq![x], k) =~= if xs == k { seq![x] } else { Seq::<SessionEntry>::empty() });
                assert(input.take(t + 1).drop_last() =~= input.take(t));
                assert(input.take(t + 1).last() == x);
                assert(with_id(input.take(t + 1), k) =~= with_id(input.take(t), k) + if xs == k {
                    seq![x]
                } else {
                    Seq::<SessionEntry>::empty()
                });
                if xs == k {
                    lemma_with_id_none(before.skip(j as int), k);
                    assert(with_id(sorted@, k) =~= with_id(before, k) + seq![x]);
                } else {
                    assert(with_id(sorted@, k) =~= with_id(before, k));
                }
            }
            t = t + 1;
        }
    }
    proof {
        broadcast use vstd::multiset::group_multiset_axioms;
        vstd::seq_lib::to_multiset_len(rest@);
        vstd::multiset::lemma_multiset_empty_len(rest@.to_multiset());
        assert(sorted@.to_multiset() =~= input.to_multiset());
        vstd::seq_lib::to_multiset_len(sorted@);
        vstd::seq_lib::to_multiset_len(input);
        assert(input.take(t) =~= input) by {
            assert(input.skip(t).len() == 0);
        }
    }
    let ghost all = sorted@;
    let n = if limit < sorted.len() { limit } else { sorted.len() };
    sorted.truncate(n);
    proof {
        assert(sorted@ =~= all.take(n as int));
        assert forall|i: int, j: int| 0 <= i < j < sorted@.len() implies !lex_less(
            #[trigger] sorted@[i].session_id@,
            #[trigger] sorted@[j].session_id@,
        ) by {
            assert(sorted@[i] == all[i]);
            assert(sorted@[j] == all[j]);
        }
    }
    sorted
}

} // verus!
