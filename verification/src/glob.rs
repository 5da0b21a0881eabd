use vstd::prelude::*;

use crate::text::chars_of;

verus! {

/// Whether pattern character `pc` accepts text character `tc` on its own
/// (`?` accepts any character; any other non-`*` character accepts itself).
pub open spec fn char_accepts(pc: char, tc: char) -> bool {
    pc == '?' || pc == tc
}

/// Glob matching: `*` matches any (possibly empty) run of characters,
/// `?` matches exactly one character, every other character matches itself.
/// The whole text must be matched.
pub open spec fn glob(p: Seq<char>, t: Seq<char>) -> bool
    decreases p.len() + t.len(),
{
    if p.len() == 0 {
        t.len() == 0
    } else if p[0] == '*' {
        glob(p.drop_first(), t) || (t.len() > 0 && glob(p, t.drop_first()))
    } else {
        t.len() > 0 && char_accepts(p[0], t[0]) && glob(p.drop_first(), t.drop_first())
    }
}

/// One step on a non-star pattern character.
proof fn lemma_glob_plain_step(p: Seq<char>, t: Seq<char>, i: int, j: int)
    requires
        0 <= i < p.len(),
        0 <= j <= t.len(),
        p[i] != '*',
    ensures
        glob(p.skip(i), t.skip(j)) <==> (j < t.len() && char_accepts(p[i], t[j]) && glob(
            p.skip(i + 1),
            t.skip(j + 1),
        )),
{
    assert(p.skip(i).drop_first() =~= p.skip(i + 1));
    assert(p.skip(i)[0] == p[i]);
    if j < t.len() {
        assert(t.skip(j).drop_first() =~= t.skip(j + 1));
        assert(t.skip(j)[0] == t[j]);
    }
}

/// A star absorbs any run of characters starting at `j`.
proof fn lemma_glob_star_step(p: Seq<char>, t: Seq<char>, i: int, j: int)
    requires
        0 <= i < p.len(),
        0 <= j <= t.len(),
        p[i] == '*',
    ensures
        glob(p.skip(i), t.skip(j)) <==> (exists|k: int|
            j <= k <= t.len() && #[trigger] glob(p.skip(i + 1), t.skip(k))),
    decreases t.len() - j,
{
    assert(p.skip(i).drop_first() =~= p.skip(i + 1));
    assert(p.skip(i)[0] == p[i]);
    assert(p.skip(i).len() > 0);
    assert(glob(p.skip(i), t.skip(j)) == (glob(p.skip(i + 1), t.skip(j)) || (t.skip(j).len() > 0
        && glob(p.skip(i), t.skip(j).drop_first()))));
    if j < t.len() {
        assert(t.skip(j).drop_first() =~= t.skip(j + 1));
        lemma_glob_star_step(p, t, i, j + 1);
        if glob(p.skip(i), t.skip(j)) {
            if glob(p.skip(i + 1), t.skip(j)) {
                assert(j <= j <= t.len() && glob(p.skip(i + 1), t.skip(j)));
            } else {
                let k = choose|k: int| j + 1 <= k <= t.len() && #[trigger] glob(p.skip(i + 1), t.skip(k));
                assert(j <= k <= t.len() && glob(p.skip(i + 1), t.skip(k)));
            }
        }
        if exists|k: int| j <= k <= t.len() && #[trigger] glob(p.skip(i + 1), t.skip(k)) {
            let k = choose|k: int| j <= k <= t.len() && #[trigger] glob(p.skip(i + 1), t.skip(k));
            if k > j {
                assert(j + 1 <= k <= t.len() && glob(p.skip(i + 1), t.skip(k)));
            }
        }
    } else {
        if exists|k: int| j <= k <= t.len() && #[trigger] glob(p.skip(i + 1), t.skip(k)) {
            let k = choose|k: int| j <= k <= t.len() && #[trigger] glob(p.skip(i + 1), t.skip(k));
            assert(k == j);
        }
        if glob(p.skip(i), t.skip(j)) {
            assert(j <= j <= t.len() && glob(p.skip(i + 1), t.skip(j)));
        }
    }
}

/// Against the empty text, only an all-star pattern matches.
proof fn lemma_glob_empty_text(p: Seq<char>, t: Seq<char>, i: int)
    requires
        0 <= i <= p.len(),
        t.len() == 0,
    ensures
        glob(p.skip(i), t) <==> (forall|k: int| i <= k < p.len() ==> p[k] == '*'),
    decreases p.len() - i,
{
    if i < p.len() {
        assert(p.skip(i).drop_first() =~= p.skip(i + 1));
        assert(p.skip(i)[0] == p[i]);
        lemma_glob_empty_text(p, t, i + 1);
    } else {
        assert(p.skip(i).len() == 0);
    }
}

/// A star-free stretch of `len` pattern characters from `i` consumes exactly
/// `len` text characters from `j`, each accepted by its pattern character.
proof fn lemma_glob_plain_run(p: Seq<char>, t: Seq<char>, i: int, j: int, len: int)
    requires
        0 <= i,
        0 <= len,
        i + len <= p.len(),
        0 <= j <= t.len(),
        forall|k: int| i <= k < i + len ==> p[k] != '*',
    ensures
        glob(p.skip(i), t.skip(j)) <==> (j + len <= t.len() && (forall|k: int|
            0 <= k < len ==> char_accepts(p[i + k], #[trigger] t[j + k])) && glob(
            p.skip(i + len),
            t.skip(j + len),
        )),
    decreases len,
{
    if len > 0 {
        lemma_glob_plain_step(p, t, i, j);
        if j < t.len() {
            lemma_glob_plain_run(p, t, i + 1, j + 1, len - 1);
            if j + len <= t.len() && (forall|k: int|
                0 <= k < len ==> char_accepts(p[i + k], #[trigger] t[j + k])) {
                assert(char_accepts(p[i + 0], t[j + 0]));
                assert forall|k: int| 0 <= k < len - 1 implies char_accepts(
                    p[i + 1 + k],
                    #[trigger] t[j + 1 + k],
                ) by {
                    assert(char_accepts(p[i + (k + 1)], t[j + (k + 1)]));
                }
            }
            if glob(p.skip(i), t.skip(j)) {
                assert forall|k: int| 0 <= k < len implies char_accepts(
                    p[i + k],
                    #[trigger] t[j + k],
                ) by {
                    if k > 0 {
                        assert(char_accepts(p[i + 1 + (k - 1)], t[j + 1 + (k - 1)]));
                    }
                }
            }
        }
    } else {
        assert(p.skip(i + len) == p.skip(i));
        assert(t.skip(j + len) == t.skip(j));
    }
}

/// Every pattern matches its own text: `*` and `?` each accept themselves.
pub proof fn lemma_glob_reflexive(p: Seq<char>)
    ensures
        glob(p, p),
{
    lemma_glob_reflexive_from(p, 0);
    assert(p.skip(0) =~= p);
}

proof fn lemma_glob_reflexive_from(p: Seq<char>, i: int)
    requires
        0 <= i <= p.len(),
    ensures
        glob(p.skip(i), p.skip(i)),
    decreases p.len() - i,
{
    if i < p.len() {
        lemma_glob_reflexive_from(p, i + 1);
        if p[i] == '*' {
            // the star takes the text's own star, then the rest matches itself
            lemma_glob_star_step(p, p, i, i);
            assert(glob(p.skip(i + 1), p.skip(i + 1)));
        } else {
            lemma_glob_plain_step(p, p, i, i);
        }
    } else {
        assert(p.skip(i).len() == 0);
    }
}

/// A pattern without `*` or `?` matches exactly its own text.
pub proof fn lemma_literal_pattern(p: Seq<char>, t: Seq<char>)
    requires
        forall|i: int| 0 <= i < p.len() ==> #[trigger] p[i] != '*' && p[i] != '?',
    ensures
        glob(p, t) <==> p == t,
    decreases p.len(),
{
    if p.len() == 0 {
        if t.len() == 0 {
            assert(p =~= t);
        }
    } else {
        assert forall|i: int| 0 <= i < p.drop_first().len() implies #[trigger] p.drop_first()[i] != '*'
            && p.drop_first()[i] != '?' by {
            assert(p.drop_first()[i] == p[i + 1]);
        }
        if t.len() > 0 {
            lemma_literal_pattern(p.drop_first(), t.drop_first());
            if p == t {
                assert(p.drop_first() == t.drop_first());
            }
            if p[0] == t[0] && p.drop_first() == t.drop_first() {
                assert forall|i: int| 0 <= i < p.len() implies p[i] == t[i] by {
                    if i > 0 {
                        assert(p[i] == p.drop_first()[i - 1]);
                        assert(t[i] == t.drop_first()[i - 1]);
                    }
                }
                assert(p =~= t);
            }
        }
    }
}

/// A lone `*` matches every text.
pub proof fn lemma_star_matches_all(t: Seq<char>)
    ensures
        glob(seq!['*'], t),
    decreases t.len(),
{
    let star = seq!['*'];
    assert(star[0] == '*');
    assert(star.drop_first() =~= Seq::<char>::empty());
    if t.len() > 0 {
        lemma_star_matches_all(t.drop_first());
        assert(glob(star, t.drop_first()));
    } else {
        assert(glob(star.drop_first(), t));
    }
}

/// The alternatives left open after the last star: the remainder of the
/// pattern after that star must match some suffix of the text from `from`.
pub open spec fn rest_after_star(p: Seq<char>, t: Seq<char>, sp: int, from: int) -> bool {
    exists|j: int| from <= j <= t.len() && #[trigger] glob(p.skip(sp), t.skip(j))
}

/// The pattern stretch `p[sp..pi]` is star-free and accepts the text stretch
/// that starts at `st` and has the same length.
pub open spec fn run_accepted(p: Seq<char>, t: Seq<char>, sp: int, st: int, pi: int) -> bool {
    &&& 0 <= sp <= pi <= p.len()
    &&& 0 <= st
    &&& st + (pi - sp) <= t.len()
    &&& forall|k: int| sp <= k < pi ==> #[trigger] p[k] != '*'
    &&& forall|k: int| sp <= k < pi ==> char_accepts(p[k], #[trigger] t[st + (k - sp)])
}

proof fn lemma_run_equiv(p: Seq<char>, t: Seq<char>, sp: int, st: int, pi: int)
    requires
        run_accepted(p, t, sp, st, pi),
    ensures
        glob(p.skip(sp), t.skip(st)) <==> glob(p.skip(pi), t.skip(st + (pi - sp))),
{
    let len = pi - sp;
    lemma_glob_plain_run(p, t, sp, st, len);
    assert forall|k: int| 0 <= k < len implies char_accepts(p[sp + k], #[trigger] t[st + k]) by {
        assert(char_accepts(p[sp + k], t[st + ((sp + k) - sp)]));
    }
}

/// Entering a star with no earlier star: everything before it matched literally.
proof fn lemma_enter_first_star(p: Seq<char>, t: Seq<char>, pi: int)
    requires
        run_accepted(p, t, 0, 0, pi),
        pi < p.len(),
        p[pi] == '*',
    ensures
        glob(p, t) <==> rest_after_star(p, t, pi + 1, pi),
{
    lemma_run_equiv(p, t, 0, 0, pi);
    assert(p.skip(0) =~= p);
    assert(t.skip(0) =~= t);
    lemma_glob_star_step(p, t, pi, pi);
}

/// Entering a later star: the alternatives after the earlier star collapse
/// to those after the new star, starting where the stretch between them ends.
proof fn lemma_enter_next_star(p: Seq<char>, t: Seq<char>, sp: int, st: int, pi: int)
    requires
        run_accepted(p, t, sp, st, pi),
        pi < p.len(),
        p[pi] == '*',
    ensures
        rest_after_star(p, t, sp, st) <==> rest_after_star(p, t, pi + 1, st + (pi - sp)),
{
    let len = pi - sp;
    let ti = st + len;
    lemma_run_equiv(p, t, sp, st, pi);
    lemma_glob_star_step(p, t, pi, ti);
    if rest_after_star(p, t, sp, st) {
        let j = choose|j: int| st <= j <= t.len() && #[trigger] glob(p.skip(sp), t.skip(j));
        lemma_glob_plain_run(p, t, sp, j, len);
        lemma_glob_star_step(p, t, pi, j + len);
        let k = choose|k: int| j + len <= k <= t.len() && #[trigger] glob(p.skip(pi + 1), t.skip(k));
        assert(ti <= k <= t.len() && glob(p.skip(pi + 1), t.skip(k)));
    }
    if rest_after_star(p, t, pi + 1, ti) {
        assert(st <= st <= t.len() && glob(p.skip(sp), t.skip(st)));
    }
}

/// After a star-free stretch, a character that cannot be accepted (or the
/// end of the pattern before the end of the text) rules out that alignment.
proof fn lemma_mismatch(p: Seq<char>, t: Seq<char>, sp: int, st: int, pi: int)
    requires
        run_accepted(p, t, sp, st, pi),
        st + (pi - sp) < t.len(),
        pi == p.len() || (p[pi] != '*' && !char_accepts(p[pi], t[st + (pi - sp)])),
    ensures
        !glob(p.skip(sp), t.skip(st)),
{
    lemma_run_equiv(p, t, sp, st, pi);
    if pi < p.len() {
        lemma_glob_plain_step(p, t, pi, st + (pi - sp));
    } else {
        assert(p.skip(pi).len() == 0);
    }
}

proof fn lemma_backtrack(p: Seq<char>, t: Seq<char>, sp: int, st: int)
    requires
        0 <= st < t.len(),
        !glob(p.skip(sp), t.skip(st)),
    ensures
        rest_after_star(p, t, sp, st) <==> rest_after_star(p, t, sp, st + 1),
{
    if rest_after_star(p, t, sp, st) {
        let j = choose|j: int| st <= j <= t.len() && #[trigger] glob(p.skip(sp), t.skip(j));
        assert(st + 1 <= j);
    }
    if rest_after_star(p, t, sp, st + 1) {
        let j = choose|j: int| st + 1 <= j <= t.len() && #[trigger] glob(p.skip(sp), t.skip(j));
        assert(st <= j);
    }
}

/// The text is used up with no star seen: the rest of the pattern must be all stars.
proof fn lemma_finish_plain(p: Seq<char>, t: Seq<char>, pi: int)
    requires
        run_accepted(p, t, 0, 0, pi),
        pi == t.len(),
    ensures
        glob(p, t) <==> (forall|k: int| pi <= k < p.len() ==> p[k] == '*'),
{
    lemma_run_equiv(p, t, 0, 0, pi);
    assert(p.skip(0) =~= p);
    assert(t.skip(0) =~= t);
    lemma_glob_empty_text(p, t.skip(pi), pi);
}

/// The text is used up after a star: only the alignment at `st` can still
/// match, and it does exactly when the rest of the pattern is all stars.
proof fn lemma_finish_star(p: Seq<char>, t: Seq<char>, sp: int, st: int, pi: int)
    requires
        run_accepted(p, t, sp, st, pi),
        st + (pi - sp) == t.len(),
    ensures
        rest_after_star(p, t, sp, st) <==> (forall|k: int| pi <= k < p.len() ==> p[k] == '*'),
{
    let len = pi - sp;
    lemma_run_equiv(p, t, sp, st, pi);
    lemma_glob_empty_text(p, t.skip(t.len() as int), pi);
    if rest_after_star(p, t, sp, st) {
        let j = choose|j: int| st <= j <= t.len() && #[trigger] glob(p.skip(sp), t.skip(j));
        lemma_glob_plain_run(p, t, sp, j, len);
        assert(j == st);
    }
    if forall|k: int| pi <= k < p.len() ==> p[k] == '*' {
        assert(st <= st <= t.len() && glob(p.skip(sp), t.skip(st)));
    }
}

/// Glob match of `text` against `pattern` (see `glob`). Greedy scan that
/// remembers only the most recent star and backtracks to it on a mismatch.
pub fn matches_pattern(pattern: &str, text: &str) -> (r: bool)
    ensures
        r == glob(pattern@, text@),
{
    let p = chars_of(pattern);
    let t = chars_of(text);
    let pl = p.len();
    let tl = t.len();
    let ghost ps = p@;
    let ghost ts = t@;
    let mut pi: usize = 0;
    let mut ti: usize = 0;
    let mut star_pi: Option<usize> = None;
    let mut star_ti: usize = 0;
    while ti < tl
        invariant
            pl == p.len(),
            tl == t.len(),
            ps == p@,
            ts == t@,
            ps == pattern@,
            ts == text@,
            pi <= pl,
            ti <= tl,
            star_ti <= ti,
            match star_pi {
                None => {
                    &&& pi == ti
                    &&& star_ti == 0
                    &&& run_accepted(ps, ts, 0, 0, pi as int)
                },
                Some(sp) => {
                    &&& 1 <= sp <= pi
                    &&& pi - sp == ti - star_ti
                    &&& run_accepted(ps, ts, sp as int, star_ti as int, pi as int)
                    &&& (glob(ps, ts) <==> rest_after_star(ps, ts, sp as int, star_ti as int))
                },
            },
        decreases tl - star_ti, tl - ti, pl - pi,
    {
        if pi < pl && p[pi] == '*' {
            proof {
                match star_pi {
                    None => lemma_enter_first_star(ps, ts, pi as int),
                    Some(sp) => lemma_enter_next_star(ps, ts, sp as int, star_ti as int, pi as int),
                }
            }
            star_pi = Some(pi + 1);
            star_ti = ti;
            pi = pi + 1;
        } else if pi < pl && (p[pi] == '?' || p[pi] == t[ti]) {
            pi = pi + 1;
            ti = ti + 1;
        } else {
            match star_pi {
                None => {
                    proof {
                        lemma_mismatch(ps, ts, 0, 0, pi as int);
                        assert(ps.skip(0) =~= ps);
                        assert(ts.skip(0) =~= ts);
                    }
                    return false;
                },
                Some(sp) => {
                    proof {
                        lemma_mismatch(ps, ts, sp as int, star_ti as int, pi as int);
                        lemma_backtrack(ps, ts, sp as int, star_ti as int);
                    }
                    pi = sp;
                    star_ti = star_ti + 1;
                    ti = star_ti;
                },
            }
        }
    }
    let pi_end = pi;
    while pi < pl && p[pi] == '*'
        invariant
            pl == p.len(),
            ps == p@,
            pi_end <= pi <= pl,
            forall|k: int| pi_end <= k < pi ==> ps[k] == '*',
        decreases pl - pi,
    {
        pi = pi + 1;
    }
    proof {
        match star_pi {
            None => lemma_finish_plain(ps, ts, pi_end as int),
            Some(sp) => lemma_finish_star(ps, ts, sp as int, star_ti as int, pi_end as int),
        }
        if pi < pl {
            assert(ps[pi as int] != '*');
        }
    }
    pi == pl
}

} // verus!
