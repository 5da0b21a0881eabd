use vstd::prelude::*;

use crate::clock::{ends_like, local_rfc3339};
use crate::text::{append_str, chars_of, decimal, push_decimal, string_of};

verus! {

/// Where an episode is in its life: recent ones go into the system prompt,
/// past ones are only recalled.
#[derive(Debug, Clone, Copy, PartialEq, Eq, Structural)]
pub enum EpisodeStatus {
    Recent,
    Past,
}

/// One episodic memory (its embedding, a float vector, is kept beside it
/// by the program, not here).
#[derive(Debug)]
pub struct Episode {
    pub id: String,
    pub date: String,
    pub body: String,
    pub emotional_weight: u8,
    pub unresolved: bool,
    pub afterglow: String,
    pub status: EpisodeStatus,
    pub created_at: String,
}

/// The weight of a new episode.
pub const DEFAULT_WEIGHT: u8 = 3;

/// A lowercase hexadecimal digit.
pub open spec fn is_lower_hex(c: char) -> bool {
    ('0' <= c && c <= '9') || ('a' <= c && c <= 'f')
}

/// The hyphenated text of a version-4 UUID: 32 lowercase hex digits in
/// groups of 8, 4, 4, 4 and 12, the version digit `4` and a variant digit
/// of `8` to `b`.
pub open spec fn is_v4_uuid_text(s: Seq<char>) -> bool {
    &&& s.len() == 36
    &&& forall|i: int|
        0 <= i < 36 ==> if i == 8 || i == 13 || i == 18 || i == 23 {
            #[trigger] s[i] == '-'
        } else {
            is_lower_hex(s[i])
        }
    &&& s[14] == '4'
    &&& (s[19] == '8' || s[19] == '9' || s[19] == 'a' || s[19] == 'b')
}

/// `uuid::Uuid::new_v4().to_string()`: a random UUID in its hyphenated
/// lowercase form. Claimed: the shape of a version-4 UUID; which one is
/// left open.
#[verifier::external_body]
fn new_uuid_v4() -> (r: String)
    ensures
        is_v4_uuid_text(r@),
{
    uuid::Uuid::new_v4().to_string()
}

impl Episode {
    /// A new recent episode with a fresh random id, the default weight and
    /// the current time as its creation time.
    pub fn new(date: String, body: String) -> (r: Self)
        ensures
            r.date == date,
            r.body == body,
            is_v4_uuid_text(r.id@),
            r.created_at@.len() >= 25,
            ends_like(r.created_at@, "~##:##"@),
            r.emotional_weight == DEFAULT_WEIGHT,
            !r.unresolved,
            r.afterglow@.len() == 0,
            r.status == EpisodeStatus::Recent,
    {
        Episode {
            id: new_uuid_v4(),
            date,
            body,
            emotional_weight: DEFAULT_WEIGHT,
            unresolved: false,
            afterglow: String::new(),
            status: EpisodeStatus::Recent,
            created_at: local_rfc3339(),
        }
    }

    /// The weight, held to 1..=5.
    pub fn with_weight(self, w: u8) -> (r: Self)
        ensures
            r.emotional_weight == (if w < 1 { 1 } else if w > 5 { 5 } else { w }),
            r == (Episode { emotional_weight: r.emotional_weight, ..self }),
    {
        let w: u8 = if w < 1 { 1 } else if w > 5 { 5 } else { w };
        Episode { emotional_weight: w, ..self }
    }

    pub fn with_afterglow(self, a: String) -> (r: Self)
        ensures
            r == (Episode { afterglow: a, ..self }),
    {
        Episode { afterglow: a, ..self }
    }

    pub fn with_unresolved(self, u: bool) -> (r: Self)
        ensures
            r == (Episode { unresolved: u, ..self }),
    {
        Episode { unresolved: u, ..self }
    }

    pub fn duplicate(&self) -> (r: Self)
        ensures
            r == *self,
    {
        Episode {
            id: self.id.clone(),
            date: self.date.clone(),
            body: self.body.clone(),
            emotional_weight: self.emotional_weight,
            unresolved: self.unresolved,
            afterglow: self.afterglow.clone(),
            status: self.status,
            created_at: self.created_at.clone(),
        }
    }
}

/// How one episode reads in the system prompt: a date heading, the weight
/// and afterglow when either differs from a plain episode, then the body.
pub open spec fn episode_block(ep: Episode) -> Seq<char> {
    let head = "### "@ + ep.date@ + "\n"@;
    let marks = if ep.emotional_weight != DEFAULT_WEIGHT || ep.afterglow@.len() > 0 {
        "> 情感权重："@ + decimal(ep.emotional_weight as nat) + "/5\n"@ + if ep.afterglow@.len() > 0 {
            "> 余韵："@ + ep.afterglow@ + "\n"@
        } else {
            Seq::empty()
        }
    } else {
        Seq::empty()
    };
    head + marks + "\n"@ + ep.body@ + "\n\n"@
}

/// The blocks of the episodes, in order.
pub open spec fn episodes_text(eps: Seq<Episode>) -> Seq<char>
    decreases eps.len(),
{
    if eps.len() == 0 {
        Seq::empty()
    } else {
        episodes_text(eps.drop_last()) + episode_block(eps.last())
    }
}

/// The episodes behind a sequence of references.
pub open spec fn derefs(v: Seq<&Episode>) -> Seq<Episode> {
    v.map_values(|e: &Episode| *e)
}

fn push_episode_block(out: &mut Vec<char>, ep: &Episode)
    ensures
        final(out)@ == old(out)@ + episode_block(*ep),
{
    let ghost start = out@;
    append_str(out, "### ");
    append_str(out, ep.date.as_str());
    append_str(out, "\n");
    let has_afterglow = !ep.afterglow.as_str().is_empty();
    if ep.emotional_weight != DEFAULT_WEIGHT || has_afterglow {
        append_str(out, "> 情感权重：");
        push_decimal(out, ep.emotional_weight as u64);
        append_str(out, "/5\n");
        if has_afterglow {
            append_str(out, "> 余韵：");
            append_str(out, ep.afterglow.as_str());
            append_str(out, "\n");
        }
    }
    append_str(out, "\n");
    append_str(out, ep.body.as_str());
    append_str(out, "\n\n");
    proof {
        assert(out@ =~= start + episode_block(*ep));
    }
}

/// Formats episodes as markdown for the system prompt.
pub fn format_episodes_for_prompt(episodes: &Vec<&Episode>) -> (r: String)
    ensures
        r@ == episodes_text(derefs(episodes@)),
{
    let mut out: Vec<char> = Vec::new();
    let mut i: usize = 0;
    while i < episodes.len()
        invariant
            i <= episodes.len(),
            out@ == episodes_text(derefs(episodes@).take(i as int)),
        decreases episodes.len() - i,
    {
        push_episode_block(&mut out, episodes[i]);
        proof {
            assert(derefs(episodes@).take(i + 1).drop_last() =~= derefs(episodes@).take(i as int));
            assert(derefs(episodes@).take(i + 1).last() == *episodes@[i as int]);
        }
        i = i + 1;
    }
    proof {
        assert(derefs(episodes@).take(episodes.len() as int) =~= derefs(episodes@));
    }
    string_of(&out)
}

} // verus!
