use vstd::prelude::*;

use crate::text::{
    append_chars, append_str, chars_of, decimal, join_chars, find_exec, find_first, lemma_find_from, lines, push_decimal, slice_chars,
    split_lines, string_of, trim, trim_chars, views,
};

verus! {

/// A version of a file from the history of the data directory.
#[derive(Debug)]
pub struct FileVersion {
    pub commit_hash: String,
    pub timestamp: i64,
    pub content: String,
}

pub open spec fn is_digit(c: char) -> bool {
    '0' <= c && c <= '9'
}

/// The value of a run of decimal digits.
pub open spec fn digits_value(s: Seq<char>) -> nat
    decreases s.len(),
{
    if s.len() == 0 {
        0
    } else {
        digits_value(s.drop_last()) * 10 + ((s.last() as u32 - '0' as u32) as nat)
    }
}

pub open spec fn all_digits(s: Seq<char>) -> bool {
    forall|i: int| 0 <= i < s.len() ==> is_digit(#[trigger] s[i])
}

/// `s` without its leading sign, if it has one.
pub open spec fn unsigned_part(s: Seq<char>) -> Seq<char> {
    if s.len() > 0 && (s[0] == '-' || s[0] == '+') { s.drop_first() } else { s }
}

/// `str::parse::<i64>`: an optional sign, then at least one decimal digit
/// and nothing else, with a value that fits.
pub open spec fn parse_i64(s: Seq<char>) -> Option<i64> {
    let ds = unsigned_part(s);
    if ds.len() == 0 || !all_digits(ds) {
        None
    } else {
        let v: int = if s[0] == '-' { -digits_value(ds) } else { digits_value(ds) as int };
        if i64::MIN <= v <= i64::MAX { Some(v as i64) } else { None }
    }
}

proof fn lemma_digits_prefix(s: Seq<char>, k: int)
    requires
        0 <= k <= s.len(),
        forall|i: int| 0 <= i < s.len() ==> is_digit(#[trigger] s[i]),
    ensures
        digits_value(s.take(k)) <= digits_value(s),
    decreases s.len() - k,
{
    if k < s.len() {
        lemma_digits_prefix(s, k + 1);
        assert(s.take(k + 1).drop_last() =~= s.take(k));
    } else {
        assert(s.take(k) =~= s);
    }
}

proof fn lemma_over_limit(acc: int, d: int)
    requires
        0 <= d <= 9,
        acc > (9223372036854775808 - d) / 10,
    ensures
        acc * 10 + d > 9223372036854775808,
{
}

/// Parses a decimal integer as `str::parse::<i64>` does.
pub fn parse_i64_exec(s: &Vec<char>) -> (r: Option<i64>)
    ensures
        r == parse_i64(s@),
{
    let signed = s.len() > 0 && (s[0] == '-' || s[0] == '+');
    let neg = s.len() > 0 && s[0] == '-';
    let start: usize = if signed { 1 } else { 0 };
    let ghost ds = unsigned_part(s@);
    if start >= s.len() {
        return None;
    }
    let limit: u64 = 9223372036854775808;
    let mut acc: u64 = 0;
    let mut i: usize = start;
    while i < s.len()
        invariant
            start <= i <= s.len(),
            start == 0 || start == 1,
            ds == s@.skip(start as int),
            acc == digits_value(ds.take(i - start)),
            acc <= limit,
            limit == 9223372036854775808u64,
            signed == (s@.len() > 0 && (s@[0] == '-' || s@[0] == '+')),
            neg == (s@.len() > 0 && s@[0] == '-'),
            ds == unsigned_part(s@),
            forall|k: int| 0 <= k < i - start ==> is_digit(#[trigger] ds[k]),
        decreases s.len() - i,
    {
        let c = s[i];
        proof {
            assert(ds[i - start] == c);
            assert(ds.take(i - start + 1).drop_last() =~= ds.take(i - start));
        }
        if !('0' <= c && c <= '9') {
            proof {
                assert(ds[i - start] == s@[i as int]);
                assert(!is_digit(ds[i - start]));
                assert(0 <= i - start < ds.len());
            }
            return None;
        }
        proof {
            assert('0' as u32 <= c as u32 <= '9' as u32);
        }
        let d: u64 = (c as u32 - '0' as u32) as u64;
        assert(d <= 9);
        if acc > (limit - d) / 10 {
            proof {
                assert(forall|k: int| 0 <= k < i - start + 1 ==> is_digit(#[trigger] ds[k]));
                assert(digits_value(ds.take(i - start + 1)) == acc * 10 + d);
                lemma_over_limit(acc as int, d as int);
                if all_digits(ds) {
                    lemma_digits_prefix(ds, i - start + 1);
                }
            }
            return None;
        }
        acc = acc * 10 + d;
        i = i + 1;
    }
    proof {
        assert(ds.take(i - start) =~= ds);
    }
    if neg {
        if acc == limit {
            Some(-9223372036854775807i64 - 1)
        } else {
            Some(-(acc as i64))
        }
    } else if acc == limit {
        None
    } else {
        Some(acc as i64)
    }
}

/// One line of `git log --format="%H %ct"`: the commit hash and its time,
/// or `None` for a blank or malformed line.
pub open spec fn parse_log_line(line: Seq<char>) -> Option<(Seq<char>, i64)> {
    let t = trim(line);
    match find_first(t, " "@) {
        Some(k) => match parse_i64(t.skip(k + 1)) {
            Some(ts) => Some((t.take(k), ts)),
            None => None,
        },
        None => None,
    }
}

/// The well-formed entries among the first `n` lines, in order.
pub open spec fn log_entries_upto(ls: Seq<Seq<char>>, n: int) -> Seq<(Seq<char>, i64)>
    decreases n,
{
    if n <= 0 {
        Seq::empty()
    } else {
        match parse_log_line(ls[n - 1]) {
            Some(e) => log_entries_upto(ls, n - 1).push(e),
            None => log_entries_upto(ls, n - 1),
        }
    }
}

/// The entries of the output of `git log`, newest first.
pub open spec fn log_entries(stdout: Seq<char>) -> Seq<(Seq<char>, i64)> {
    log_entries_upto(lines(stdout), lines(stdout).len() as int)
}

fn parse_log_line_exec(line: &Vec<char>) -> (r: Option<(String, i64)>)
    ensures
        match r {
            Some((h, ts)) => parse_log_line(line@) == Some((h@, ts)),
            None => parse_log_line(line@) is None,
        },
{
    let t = trim_chars(line);
    let mut sp: Vec<char> = Vec::new();
    sp.push(' ');
    proof {
        reveal_strlit(" ");
        assert(sp@ =~= " "@);
    }
    match find_exec(&t, &sp) {
        Some(k) => {
            proof {
                lemma_find_from(t@, sp@, 0);
                assert(crate::text::occurs_at(t@, sp@, k as int));
                assert(k + 1 <= t@.len());
            }
            let rest = slice_chars(&t, k + 1, t.len());
            proof {
                assert(t@.subrange(k + 1, t@.len() as int) =~= t@.skip(k + 1));
            }
            match parse_i64_exec(&rest) {
                Some(ts) => {
                    let h = slice_chars(&t, 0, k);
                    proof {
                        assert(t@.subrange(0, k as int) =~= t@.take(k as int));
                    }
                    Some((string_of(&h), ts))
                },
                None => None,
            }
        },
        None => None,
    }
}

/// The views of a list of strings.
pub open spec fn texts(v: Seq<String>) -> Seq<Seq<char>> {
    v.map_values(|x: String| x@)
}

/// The arguments of `git status --porcelain`.
pub fn status_args() -> (r: Vec<String>)
    ensures
        texts(r@) == seq!["status"@, "--porcelain"@],
{
    let mut r: Vec<String> = Vec::new();
    r.push(String::from_str("status"));
    r.push(String::from_str("--porcelain"));
    proof {
        assert(texts(r@) =~= seq!["status"@, "--porcelain"@]);
    }
    r
}

/// The git commands that commit everything, given what `git status
/// --porcelain` printed: none when nothing changed, else staging all
/// and committing with `message`.
pub fn commit_all(status_stdout: &str, message: &str) -> (r: Vec<Vec<String>>)
    ensures
        trim(status_stdout@).len() == 0 ==> r@.len() == 0,
        trim(status_stdout@).len() > 0 ==> r@.len() == 2 && texts(r@[0]@) == seq!["add"@, "-A"@] && texts(
            r@[1]@,
        ) == seq!["commit"@, "-m"@, message@],
{
    let c = chars_of(status_stdout);
    let mut r: Vec<Vec<String>> = Vec::new();
    if trim_chars(&c).len() == 0 {
        return r;
    }
    let mut add: Vec<String> = Vec::new();
    add.push(String::from_str("add"));
    add.push(String::from_str("-A"));
    let mut commit: Vec<String> = Vec::new();
    commit.push(String::from_str("commit"));
    commit.push(String::from_str("-m"));
    commit.push(String::from_str(message));
    proof {
        assert(texts(add@) =~= seq!["add"@, "-A"@]);
        assert(texts(commit@) =~= seq!["commit"@, "-m"@, message@]);
    }
    r.push(add);
    r.push(commit);
    r
}

/// The message of a failed git command: the command and what it printed
/// on standard error, trimmed.
pub open spec fn git_error_text(args: Seq<Seq<char>>, stderr: Seq<char>) -> Seq<char> {
    "git "@ + crate::text::join(args, " "@) + ": "@ + trim(stderr)
}

/// The message of a failed git command.
pub fn git_error_message(args: &Vec<String>, stderr: &str) -> (r: String)
    ensures
        r@ == git_error_text(texts(args@), stderr@),
{
    let mut pieces: Vec<Vec<char>> = Vec::new();
    let mut i: usize = 0;
    while i < args.len()
        invariant
            i <= args.len(),
            views(pieces@) == texts(args@).take(i as int),
        decreases args.len() - i,
    {
        let ghost before = pieces@;
        let piece = chars_of(args[i].as_str());
        pieces.push(piece);
        proof {
            assert(pieces@ =~= before.push(piece));
            assert(views(pieces@) =~= views(before).push(piece@));
            assert(views(pieces@) =~= texts(args@).take(i + 1));
        }
        i = i + 1;
    }
    proof {
        assert(views(pieces@).take(pieces.len() as int) =~= texts(args@));
    }
    let sep = chars_of(" ");
    let joined = join_chars(&pieces, pieces.len(), &sep);
    let mut out = chars_of("git ");
    append_chars(&mut out, &joined);
    append_str(&mut out, ": ");
    let e = chars_of(stderr);
    let t = trim_chars(&e);
    append_chars(&mut out, &t);
    string_of(&out)
}

/// Reads the versions of a file from `git log` and `git show` output, one
/// commit at a time: the caller runs each `show` command it is given and
/// hands back the output, or `None` where the command failed.
pub struct FileHistoryReader {
    file_path: String,
    entries: Vec<(String, i64)>,
    next: usize,
    versions: Vec<FileVersion>,
}

pub struct FileHistoryView {
    pub file_path: Seq<char>,
    pub entries: Seq<(Seq<char>, i64)>,
    pub next: nat,
    pub versions: Seq<(Seq<char>, i64, Seq<char>)>,
}

pub open spec fn version_view(v: FileVersion) -> (Seq<char>, i64, Seq<char>) {
    (v.commit_hash@, v.timestamp, v.content@)
}

pub open spec fn entry_view(e: (String, i64)) -> (Seq<char>, i64) {
    (e.0@, e.1)
}

impl View for FileHistoryReader {
    type V = FileHistoryView;

    closed spec fn view(&self) -> FileHistoryView {
        FileHistoryView {
            file_path: self.file_path@,
            entries: self.entries@.map_values(|e: (String, i64)| entry_view(e)),
            next: self.next as nat,
            versions: self.versions@.map_values(|v: FileVersion| version_view(v)),
        }
    }
}

impl FileHistoryReader {
    pub closed spec fn wf(&self) -> bool {
        self.next <= self.entries.len()
    }

    /// The arguments of the `git log` that lists the commits of
    /// `file_path`, at most `limit` of them.
    pub fn log_args(file_path: &str, limit: usize) -> (r: Vec<String>)
        ensures
            texts(r@) == seq!["log"@, "--format=%H %ct"@, "-n "@ + decimal(limit as nat), "--"@, file_path@],
    {
        let mut r: Vec<String> = Vec::new();
        r.push(String::from_str("log"));
        r.push(String::from_str("--format=%H %ct"));
        let mut n = chars_of("-n ");
        push_decimal(&mut n, limit as u64);
        r.push(string_of(&n));
        r.push(String::from_str("--"));
        r.push(String::from_str(file_path));
        proof {
            assert(texts(r@) =~= seq!["log"@, "--format=%H %ct"@, "-n "@ + decimal(limit as nat), "--"@, file_path@]);
        }
        r
    }

    /// The command that shows the file at the next commit, if any is left.
    pub fn next_show_args(&self) -> (r: Option<Vec<String>>)
        requires
            self.wf(),
        ensures
            self@.next < self@.entries.len() ==> (r matches Some(a) && texts(a@) == seq![
                "show"@,
                self@.entries[self@.next as int].0 + ":"@ + self@.file_path,
            ]),
            self@.next >= self@.entries.len() ==> r is None,
    {
        if self.next >= self.entries.len() {
            return None;
        }
        let mut spec_arg = chars_of(self.entries[self.next].0.as_str());
        append_str(&mut spec_arg, ":");
        append_str(&mut spec_arg, self.file_path.as_str());
        let mut r: Vec<String> = Vec::new();
        r.push(String::from_str("show"));
        r.push(string_of(&spec_arg));
        proof {
            assert(texts(r@) =~= seq!["show"@, self@.entries[self@.next as int].0 + ":"@ + self@.file_path]);
        }
        Some(r)
    }

    /// Takes the output of the last `show`: the file's content at that
    /// commit, or `None` when it did not exist there.
    pub fn on_show(&mut self, content: Option<String>)
        requires
            old(self).wf(),
            old(self)@.next < old(self)@.entries.len(),
        ensures
            final(self).wf(),
            final(self)@.next == old(self)@.next + 1,
            final(self)@.entries == old(self)@.entries,
            final(self)@.file_path == old(self)@.file_path,
            final(self)@.versions == match content {
                Some(c) => old(self)@.versions.push(
                    (old(self)@.entries[old(self)@.next as int].0, old(self)@.entries[old(self)@.next as int].1, c@),
                ),
                None => old(self)@.versions,
            },
    {
        let ghost before = self@;
        if let Some(c) = content {
            let v = FileVersion {
                commit_hash: self.entries[self.next].0.clone(),
                timestamp: self.entries[self.next].1,
                content: c,
            };
            self.versions.push(v);
        }
        self.next = self.next + 1;
        proof {
            assert(self@.versions =~= match content {
                Some(c) => before.versions.push(
                    (before.entries[before.next as int].0, before.entries[before.next as int].1, c@),
                ),
                None => before.versions,
            });
            assert(self@.entries =~= before.entries);
        }
    }

    /// The versions found, newest first.
    pub fn finish(self) -> (r: Vec<FileVersion>)
        ensures
            r@.map_values(|v: FileVersion| version_view(v)) == self@.versions,
    {
        self.versions
    }
}

/// Starts reading the history of `file_path` from what `git log`
/// (run with `FileHistoryReader::log_args`) printed.
pub fn read_file_history(file_path: &str, log_stdout: &str) -> (r: FileHistoryReader)
    ensures
        r.wf(),
        r@.file_path == file_path@,
        r@.entries == log_entries(log_stdout@),
        r@.next == 0,
        r@.versions.len() == 0,
{
    let c = chars_of(log_stdout);
    let ls = split_lines(&c);
    let ghost lv = lines(log_stdout@);
    let mut entries: Vec<(String, i64)> = Vec::new();
    let mut i: usize = 0;
    while i < ls.len()
        invariant
            i <= ls.len(),
            views(ls@) == lv,
            entries@.map_values(|e: (String, i64)| entry_view(e)) == log_entries_upto(lv, i as int),
        decreases ls.len() - i,
    {
        proof {
            assert(ls@[i as int]@ == lv[i as int]);
        }
        match parse_log_line_exec(&ls[i]) {
            Some(e) => {
                let ghost before = entries@;
                entries.push(e);
                proof {
                    assert(entries@.map_values(|e: (String, i64)| entry_view(e)) =~= before.map_values(
                        |e: (String, i64)| entry_view(e),
                    ).push(entry_view(e)));
                }
            },
            None => {},
        }
        i = i + 1;
    }
    let r = FileHistoryReader { file_path: String::from_str(file_path), entries, next: 0, versions: Vec::new() };
    proof {
        assert(r@.versions =~= Seq::<(Seq<char>, i64, Seq<char>)>::empty());
    }
    r
}

} // verus!
