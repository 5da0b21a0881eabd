use vstd::prelude::*;

use crate::text::{chars_of, is_whitespace, is_ws, occurs_at, occurs_at_exec, slice_chars, string_of, starts_with};

verus! {

/// The length of the run of white space in `t` that starts at `i`.
pub open spec fn ws_run(t: Seq<char>, i: int) -> nat
    decreases t.len() - i,
{
    if i < 0 || i >= t.len() || !is_ws(t[i]) {
        0
    } else {
        1 + ws_run(t, i + 1)
    }
}

/// The largest `s <= k` with a newline at `t[i + s]`: how far a greedy `\s*`
/// that must be followed by `\n` reaches from `i`.
pub open spec fn last_newline(t: Seq<char>, i: int, k: int) -> Option<int>
    decreases k + 1,
{
    if k < 0 {
        None
    } else if 0 <= i + k < t.len() && t[i + k] == '\n' {
        Some(k)
    } else {
        last_newline(t, i, k - 1)
    }
}

/// When the closing `\n---\s*\n` starts at `j`: where the text after it begins.
pub open spec fn closing_rest(t: Seq<char>, j: int) -> Option<int> {
    if occurs_at(t, seq!['\n', '-', '-', '-'], j) {
        match last_newline(t, j + 4, ws_run(t, j + 4) as int) {
            Some(s) => Some(j + 4 + s + 1),
            None => None,
        }
    } else {
        None
    }
}

/// The first closing line at or after `j` (the lazy `(.*?)`): where it
/// starts and where the text after it begins.
pub open spec fn body_end_from(t: Seq<char>, j: int) -> Option<(int, int)>
    decreases t.len() + 1 - j,
{
    if j < 0 || j + 4 > t.len() {
        None
    } else {
        match closing_rest(t, j) {
            Some(r) => Some((j, r)),
            None => body_end_from(t, j + 1),
        }
    }
}

/// The opening `---\s*\n`, its `\s*` tried from `s` white-space characters
/// down: the first that leads to a closing line gives the start of the
/// metadata, its end and the start of the body.
pub open spec fn opening_try(t: Seq<char>, s: int) -> Option<(int, int, int)>
    decreases s + 1,
{
    if s < 0 {
        None
    } else if 3 + s < t.len() && t[3 + s] == '\n' {
        match body_end_from(t, 3 + s + 1) {
            Some((j, r)) => Some((3 + s + 1, j, r)),
            None => opening_try(t, s - 1),
        }
    } else {
        opening_try(t, s - 1)
    }
}

/// What the pattern `(?s)^---\s*\n(.*?)\n---\s*\n(.*)` captures in `t`:
/// the metadata and the body, or `None` when it does not match.
pub open spec fn frontmatter_split(t: Seq<char>) -> Option<(Seq<char>, Seq<char>)> {
    if starts_with(t, seq!['-', '-', '-']) {
        match opening_try(t, ws_run(t, 3) as int) {
            Some((b, j, r)) => Some((t.subrange(b, j), t.skip(r))),
            None => None,
        }
    } else {
        None
    }
}

fn ws_run_exec(t: &Vec<char>, i: usize) -> (n: usize)
    requires
        i <= t.len(),
    ensures
        n == ws_run(t@, i as int),
        i + n <= t.len(),
{
    let mut j: usize = i;
    while j < t.len() && is_whitespace(t[j])
        invariant
            i <= j <= t.len(),
            ws_run(t@, i as int) == (j - i) + ws_run(t@, j as int),
        decreases t.len() - j,
    {
        j = j + 1;
    }
    j - i
}

fn last_newline_exec(t: &Vec<char>, i: usize, k: usize) -> (r: Option<usize>)
    requires
        i + k <= t.len(),
    ensures
        match r {
            Some(s) => last_newline(t@, i as int, k as int) == Some(s as int),
            None => last_newline(t@, i as int, k as int) is None,
        },
{
    let mut s: usize = k;
    loop
        invariant
            s <= k,
            i + k <= t.len(),
            last_newline(t@, i as int, k as int) == last_newline(t@, i as int, s as int),
        decreases s,
    {
        if i + s < t.len() && t[i + s] == '\n' {
            return Some(s);
        }
        if s == 0 {
            return None;
        }
        s = s - 1;
    }
}

fn closing_rest_exec(t: &Vec<char>, j: usize) -> (r: Option<usize>)
    requires
        j + 4 <= t.len(),
    ensures
        match r {
            Some(x) => closing_rest(t@, j as int) == Some(x as int),
            None => closing_rest(t@, j as int) is None,
        },
{
    let mut close: Vec<char> = Vec::new();
    close.push('\n');
    close.push('-');
    close.push('-');
    close.push('-');
    proof {
        assert(close@ =~= seq!['\n', '-', '-', '-']);
    }
    if !occurs_at_exec(t, &close, j) {
        return None;
    }
    let w = ws_run_exec(t, j + 4);
    proof {
        lemma_last_newline_bounds(t@, j + 4, w as int);
    }
    match last_newline_exec(t, j + 4, w) {
        Some(s) => Some(j + 4 + s + 1),
        None => None,
    }
}

fn body_end_exec(t: &Vec<char>, from: usize) -> (r: Option<(usize, usize)>)
    ensures
        match r {
            Some((j, x)) => body_end_from(t@, from as int) == Some((j as int, x as int)),
            None => body_end_from(t@, from as int) is None,
        },
{
    let mut j: usize = from;
    while j <= t.len() && 4 <= t.len() - j
        invariant
            from <= j,
            body_end_from(t@, from as int) == body_end_from(t@, j as int),
        decreases t.len() + 1 - j,
    {
        match closing_rest_exec(t, j) {
            Some(x) => {
                return Some((j, x));
            },
            None => {},
        }
        j = j + 1;
    }
    None
}

/// Splits `text` into its front matter and its body, as the pattern
/// `(?s)^---\s*\n(.*?)\n---\s*\n(.*)` captures them; `None` when the text
/// has no front matter.
pub fn split_frontmatter(text: &str) -> (r: Option<(String, String)>)
    ensures
        match r {
            Some((meta, body)) => frontmatter_split(text@) == Some((meta@, body@)),
            None => frontmatter_split(text@) is None,
        },
{
    let t = chars_of(text);
    if t.len() < 3 || t[0] != '-' || t[1] != '-' || t[2] != '-' {
        proof {
            if t@.len() >= 3 {
                assert(t@.take(3) != seq!['-', '-', '-']) by {
                    if t@.take(3) == seq!['-', '-', '-'] {
                        assert(t@.take(3)[0] == t@[0]);
                        assert(t@.take(3)[1] == t@[1]);
                        assert(t@.take(3)[2] == t@[2]);
                    }
                }
            }
        }
        return None;
    }
    proof {
        assert(t@.take(3) =~= seq!['-', '-', '-']);
    }
    let w = ws_run_exec(&t, 3);
    let mut s: usize = w + 1;
    while s > 0
        invariant
            s <= w + 1,
            3 + w <= t.len(),
            w == ws_run(t@, 3),
            t@ == text@,
            starts_with(t@, seq!['-', '-', '-']),
            opening_try(t@, w as int) == opening_try(t@, s - 1),
        decreases s,
    {
        let k = s - 1;
        if 3 + k < t.len() && t[3 + k] == '\n' {
            match body_end_exec(&t, 3 + k + 1) {
                Some((j, x)) => {
                    proof {
                        lemma_body_end_bounds(t@, 3 + k + 1);
                        assert(opening_try(t@, k as int) == Some(((3 + k + 1) as int, j as int, x as int)));
                    }
                    let meta = slice_chars(&t, 3 + k + 1, j);
                    let body = slice_chars(&t, x, t.len());
                    proof {
                        assert(t@.subrange(x as int, t@.len() as int) =~= t@.skip(x as int));
                    }
                    let ms = string_of(&meta);
                    let bs = string_of(&body);
                    proof {
                        assert(ms@ == t@.subrange((3 + k + 1) as int, j as int));
                        assert(bs@ == t@.skip(x as int));
                        assert(ws_run(t@, 3) == w);
                        assert(starts_with(t@, seq!['-', '-', '-']));
                        assert(frontmatter_split(t@) == Some((ms@, bs@)));
                    }
                    return Some((ms, bs));
                },
                None => {},
            }
        }
        s = s - 1;
    }
    None
}

proof fn lemma_body_end_bounds(t: Seq<char>, from: int)
    requires
        0 <= from,
    ensures
        body_end_from(t, from) matches Some((j, x)) ==> from <= j && j + 4 < x <= t.len(),
    decreases t.len() + 1 - from,
{
    if from + 4 <= t.len() {
        lemma_body_end_bounds(t, from + 1);
        lemma_closing_rest_bounds(t, from);
    }
}

proof fn lemma_last_newline_bounds(t: Seq<char>, i: int, k: int)
    ensures
        last_newline(t, i, k) matches Some(s) ==> 0 <= s <= k && 0 <= i + s < t.len(),
    decreases k + 1,
{
    if k >= 0 {
        lemma_last_newline_bounds(t, i, k - 1);
    }
}

proof fn lemma_closing_rest_bounds(t: Seq<char>, j: int)
    ensures
        closing_rest(t, j) matches Some(x) ==> j + 4 < x <= t.len(),
{
    lemma_last_newline_bounds(t, j + 4, ws_run(t, j + 4) as int);
}

/// The string under `key` at the top of the YAML mapping in `yaml`; `None`
/// when the text is not YAML, not a mapping, lacks the key, or the value
/// is not a string.
pub uninterp spec fn yaml_str_field(yaml: Seq<char>, key: Seq<char>) -> Option<Seq<char>>;

/// The boolean under `outer`, then `inner`, in the YAML mapping in `yaml`;
/// `None` in every other case.
pub uninterp spec fn yaml_nested_bool(yaml: Seq<char>, outer: Seq<char>, inner: Seq<char>) -> Option<bool>;

/// Whether `yaml` fails to parse as YAML or parses to null.
pub uninterp spec fn yaml_null(yaml: Seq<char>) -> bool;

/// `serde_yaml::from_str::<serde_json::Value>(yaml)`, then `Value::get(key)`
/// and `Value::as_str`. Claimed: the result is `yaml_str_field` of the arguments.
#[verifier::external_body]
fn yaml_string_field(yaml: &str, key: &str) -> (r: Option<String>)
    ensures
        match r {
            Some(v) => yaml_str_field(yaml@, key@) == Some(v@),
            None => yaml_str_field(yaml@, key@) is None,
        },
{
    match serde_yaml::from_str::<serde_json::Value>(yaml) {
        Ok(v) => v.get(key).and_then(|x| x.as_str()).map(|x| x.to_string()),
        Err(_) => None,
    }
}

/// `serde_yaml::from_str::<serde_json::Value>(yaml)`, then `Value::get`
/// twice and `Value::as_bool`. Claimed: the result is `yaml_nested_bool` of
/// the arguments.
#[verifier::external_body]
fn yaml_nested_bool_field(yaml: &str, outer: &str, inner: &str) -> (r: Option<bool>)
    ensures
        r == yaml_nested_bool(yaml@, outer@, inner@),
{
    match serde_yaml::from_str::<serde_json::Value>(yaml) {
        Ok(v) => v.get(outer).and_then(|m| m.get(inner)).and_then(|x| x.as_bool()),
        Err(_) => None,
    }
}

/// `serde_yaml::from_str::<serde_json::Value>(yaml)`, then `Value::is_null`
/// (an error counts as null). Claimed: the result is `yaml_null` of `yaml`.
#[verifier::external_body]
fn yaml_is_null(yaml: &str) -> (r: bool)
    ensures
        r == yaml_null(yaml@),
{
    match serde_yaml::from_str::<serde_json::Value>(yaml) {
        Ok(v) => v.is_null(),
        Err(_) => true,
    }
}

/// The metadata of a document: its front matter's YAML text, if it has
/// front matter. Without front matter, the metadata is null.
pub struct FrontMatter {
    pub yaml: Option<String>,
}

impl FrontMatter {
    /// Whether the metadata is null: no front matter, or YAML that is not
    /// valid or holds nothing.
    pub fn is_null(&self) -> (r: bool)
        ensures
            r == match self.yaml {
                Some(y) => yaml_null(y@),
                None => true,
            },
    {
        match &self.yaml {
            Some(y) => yaml_is_null(y.as_str()),
            None => true,
        }
    }

    /// The string field `key` of the metadata.
    pub fn str_field(&self, key: &str) -> (r: Option<String>)
        ensures
            match self.yaml {
                Some(y) => match r {
                    Some(v) => yaml_str_field(y@, key@) == Some(v@),
                    None => yaml_str_field(y@, key@) is None,
                },
                None => r is None,
            },
    {
        match &self.yaml {
            Some(y) => yaml_string_field(y.as_str(), key),
            None => None,
        }
    }

    /// The boolean field `inner` of the mapping under `outer`.
    pub fn nested_bool(&self, outer: &str, inner: &str) -> (r: Option<bool>)
        ensures
            r == match self.yaml {
                Some(y) => yaml_nested_bool(y@, outer@, inner@),
                None => None,
            },
    {
        match &self.yaml {
            Some(y) => yaml_nested_bool_field(y.as_str(), outer, inner),
            None => None,
        }
    }
}

/// Splits a document into its metadata and its body: the body is what
/// follows the front matter, or the whole text when it has none.
pub fn parse_frontmatter(text: &str) -> (r: (FrontMatter, String))
    ensures
        match frontmatter_split(text@) {
            Some((meta, body)) => r.0.yaml matches Some(y) && y@ == meta && r.1@ == body,
            None => r.0.yaml is None && r.1@ == text@,
        },
{
    match split_frontmatter(text) {
        Some((meta, body)) => (FrontMatter { yaml: Some(meta) }, body),
        None => (FrontMatter { yaml: None }, String::from_str(text)),
    }
}

} // verus!
