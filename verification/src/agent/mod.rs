pub mod dispatch;
pub mod group;
pub mod history;
pub mod process;
pub mod turn;
pub mod user_turn;
pub mod events;

use vstd::prelude::*;

use crate::text::{chars_of, char_utf8_len, string_of, utf8_len, utf8_size, utf8_size_upto, slice_chars};

verus! {

/// The number of leading characters of `s` whose UTF-8 encoding fits in `max` bytes.
pub open spec fn fitting_prefix_len(s: Seq<char>, max: int) -> nat
    decreases s.len(),
{
    if s.len() == 0 || utf8_len(s[0]) > max {
        0
    } else {
        1 + fitting_prefix_len(s.drop_first(), max - utf8_len(s[0]))
    }
}

/// `s` unchanged when it fits in `max_len` bytes; otherwise the longest
/// prefix that fits, followed by `…`.
pub open spec fn truncate_spec(s: Seq<char>, max_len: nat) -> Seq<char> {
    if utf8_size(s) <= max_len {
        s
    } else {
        s.take(fitting_prefix_len(s, max_len as int) as int) + seq!['\u{2026}']
    }
}

pub proof fn lemma_fitting_prefix(s: Seq<char>, max: int)
    ensures
        fitting_prefix_len(s, max) <= s.len(),
    decreases s.len(),
{
    if s.len() > 0 && utf8_len(s[0]) <= max {
        lemma_fitting_prefix(s.drop_first(), max - utf8_len(s[0]));
    }
}

pub fn truncate_str(s: &str, max_len: usize) -> (r: String)
    ensures
        r@ == truncate_spec(s@, max_len as nat),
{
    let v = chars_of(s);
    match utf8_size_upto(&v, max_len) {
        Some(_) => {
            return String::from_str(s);
        },
        None => {},
    }
    let mut i: usize = 0;
    let mut room: usize = max_len;
    proof {
        assert(v@.skip(0) =~= v@);
    }
    while i < v.len() && char_utf8_len(v[i]) <= room
        invariant
            i <= v.len(),
            room <= max_len,
            fitting_prefix_len(v@, max_len as int) == i + fitting_prefix_len(v@.skip(i as int), room as int),
        decreases v.len() - i,
    {
        proof {
            assert(v@.skip(i as int).drop_first() =~= v@.skip(i + 1));
            assert(v@.skip(i as int)[0] == v@[i as int]);
        }
        room = room - char_utf8_len(v[i]);
        i = i + 1;
    }
    proof {
        if i < v.len() {
            assert(v@.skip(i as int)[0] == v@[i as int]);
        }
        lemma_fitting_prefix(v@.skip(i as int), room as int);
    }
    let mut out = slice_chars(&v, 0, i);
    out.push('\u{2026}');
    proof {
        assert(v@.subrange(0, i as int) =~= v@.take(i as int));
    }
    string_of(&out)
}

} // verus!
