use vstd::prelude::*;

use crate::tui::settings::{format_key, shown_key, ItemView, SettingsItem};
use crate::text::{append_str, chars_of, decimal, push_decimal, str_equal, string_of};

verus! {

/// A value of the configuration file, as the settings editor reads it.
#[derive(Debug)]
pub enum TomlValue {
    String(String),
    Integer(i64),
    /// A float: its exact text, and the text the editor shows.
    Float { exact: String, shown: String },
    Boolean(bool),
    Datetime(String),
    Array(Vec<TomlValue>),
    /// A table's entries, in the order the file's table keeps them.
    Table(Vec<(String, TomlValue)>),
}

/// The decimal text of an integer, with a minus sign when negative.
pub open spec fn int_text(n: int) -> Seq<char> {
    if n < 0 { seq!['-'] + decimal((-n) as nat) } else { decimal(n as nat) }
}

/// How the editor shows a value; nothing for arrays and tables.
pub open spec fn shown_value(v: TomlValue) -> Seq<char> {
    match v {
        TomlValue::String(s) => s@,
        TomlValue::Integer(n) => int_text(n as int),
        TomlValue::Float { shown, .. } => shown@,
        TomlValue::Boolean(b) => if b { "true"@ } else { "false"@ },
        TomlValue::Datetime(d) => d@,
        _ => Seq::empty(),
    }
}

pub fn format_toml_value(v: &TomlValue) -> (r: String)
    ensures
        r@ == shown_value(*v),
{
    match v {
        TomlValue::String(s) => s.clone(),
        TomlValue::Integer(n) => {
            let mut out: Vec<char> = Vec::new();
            if *n < 0 {
                out.push('-');
                let m: u64 = if *n == -9223372036854775807i64 - 1 {
                    9223372036854775808u64
                } else {
                    (-*n) as u64
                };
                push_decimal(&mut out, m);
            } else {
                push_decimal(&mut out, *n as u64);
            }
            string_of(&out)
        },
        TomlValue::Float { shown, .. } => shown.clone(),
        TomlValue::Boolean(b) => if *b { String::from_str("true") } else { String::from_str("false") },
        TomlValue::Datetime(d) => d.clone(),
        _ => String::new(),
    }
}

/// Strings, integers, floats and booleans can be edited.
pub open spec fn editable(v: TomlValue) -> bool {
    match v {
        TomlValue::String(_) | TomlValue::Integer(_) | TomlValue::Float { .. } | TomlValue::Boolean(_) => true,
        _ => false,
    }
}

pub fn is_editable(v: &TomlValue) -> (r: bool)
    ensures
        r == editable(*v),
{
    match v {
        TomlValue::String(_) | TomlValue::Integer(_) | TomlValue::Float { .. } | TomlValue::Boolean(_) => true,
        _ => false,
    }
}

/// The path of key `key` under `prefix`.
pub open spec fn join_path(prefix: Seq<char>, key: Seq<char>) -> Seq<char> {
    prefix + seq!['.'] + key
}

/// `prefix.key[i]`: the path (or title) of the `i`-th table of an array.
pub open spec fn indexed_path(prefix: Seq<char>, key: Seq<char>, i: nat) -> Seq<char> {
    prefix + seq!['.'] + key + seq!['['] + decimal(i) + seq![']']
}

/// The value of the first entry of `es` with key `k`.
pub open spec fn table_get(es: Seq<(String, TomlValue)>, k: Seq<char>, i: int) -> Option<TomlValue>
    decreases es.len() - i,
{
    if i < 0 || i >= es.len() {
        None
    } else if es[i].0@ == k {
        Some(es[i].1)
    } else {
        table_get(es, k, i + 1)
    }
}

/// The pieces of `s` between the occurrences of `sep` (like `str::split`).
pub open spec fn split_on(s: Seq<char>, sep: char) -> Seq<Seq<char>>
    decreases s.len(),
{
    if s.len() == 0 {
        seq![Seq::empty()]
    } else {
        let a = split_on(s.drop_last(), sep);
        if s.last() == sep {
            a.push(Seq::empty())
        } else {
            a.update(a.len() - 1, a.last().push(s.last()))
        }
    }
}

pub open spec fn first_index_of(s: Seq<char>, c: char, i: int) -> Option<int>
    decreases s.len() - i,
{
    if i < 0 || i >= s.len() {
        None
    } else if s[i] == c {
        Some(i)
    } else {
        first_index_of(s, c, i + 1)
    }
}

/// A path segment that can be read without panicking: when it holds a
/// `[`, at least one character follows it and the last one is ASCII.
pub open spec fn segment_ok(p: Seq<char>) -> bool {
    match first_index_of(p, '[', 0) {
        Some(b) => p.len() - b >= 2 && (p.last() as u32) < 0x80,
        None => true,
    }
}

pub open spec fn all_digits(s: Seq<char>) -> bool {
    forall|i: int| 0 <= i < s.len() ==> '0' <= #[trigger] s[i] && s[i] <= '9'
}

pub open spec fn digits_value(s: Seq<char>) -> nat
    decreases s.len(),
{
    if s.len() == 0 { 0 } else { digits_value(s.drop_last()) * 10 + ((s.last() as u32 - '0' as u32) as nat) }
}

/// `s` without a leading `+`.
pub open spec fn plus_stripped(s: Seq<char>) -> Seq<char> {
    if s.len() > 0 && s[0] == '+' { s.drop_first() } else { s }
}

/// `str::parse::<usize>`: an optional `+`, then at least one digit, and a
/// value that fits.
pub open spec fn parse_index(s: Seq<char>) -> Option<usize> {
    let ds = plus_stripped(s);
    if ds.len() == 0 || !all_digits(ds) || digits_value(ds) > usize::MAX {
        None
    } else {
        Some(digits_value(ds) as usize)
    }
}

/// One step of a path: a key, or `key[index]` into an array of the table.
pub open spec fn step(node: TomlValue, part: Seq<char>) -> Option<TomlValue> {
    match first_index_of(part, '[', 0) {
        Some(b) => match parse_index(part.subrange(b + 1, part.len() - 1)) {
            Some(idx) => match node {
                TomlValue::Table(es) => match table_get(es@, part.take(b), 0) {
                    Some(TomlValue::Array(arr)) => if idx < arr@.len() { Some(arr@[idx as int]) } else { None },
                    _ => None,
                },
                _ => None,
            },
            None => None,
        },
        None => match node {
            TomlValue::Table(es) => table_get(es@, part, 0),
            _ => None,
        },
    }
}

/// Follows the segments of a path from the `i`-th on.
pub open spec fn walk(node: TomlValue, parts: Seq<Seq<char>>, i: int) -> Option<TomlValue>
    decreases parts.len() - i,
{
    if i < 0 || i >= parts.len() {
        Some(node)
    } else {
        match step(node, parts[i]) {
            Some(next) => walk(next, parts, i + 1),
            None => None,
        }
    }
}

/// The value shown as original for an entry: what the section's saved
/// tree holds at the entry's path (the first segment names the section).
pub open spec fn original_value(original: TomlValue, path: Seq<char>) -> Option<Seq<char>> {
    match walk(original, split_on(path, '.'), 1) {
        Some(v) => Some(shown_value(v)),
        None => None,
    }
}

pub open spec fn path_ok(path: Seq<char>) -> bool {
    forall|k: int| 1 <= k < split_on(path, '.').len() ==> segment_ok(#[trigger] split_on(path, '.')[k])
}

proof fn lemma_split_on_len(s: Seq<char>, sep: char)
    ensures
        split_on(s, sep).len() >= 1,
    decreases s.len(),
{
    if s.len() > 0 {
        lemma_split_on_len(s.drop_last(), sep);
    }
}

/// `s.split(sep)`, each piece as its characters.
pub fn split_on_exec(s: &Vec<char>, sep: char) -> (r: Vec<Vec<char>>)
    ensures
        crate::text::views(r@) == split_on(s@, sep),
{
    let mut out: Vec<Vec<char>> = Vec::new();
    let mut cur: Vec<char> = Vec::new();
    let mut i: usize = 0;
    while i < s.len()
        invariant
            i <= s.len(),
            crate::text::views(out@) == split_on(s@.take(i as int), sep).drop_last(),
            cur@ == split_on(s@.take(i as int), sep).last(),
        decreases s.len() - i,
    {
        let ghost prev = s@.take(i as int);
        proof {
            lemma_split_on_len(prev, sep);
            assert(s@.take(i + 1).drop_last() =~= prev);
            assert(s@.take(i + 1).last() == s@[i as int]);
        }
        let c = s[i];
        if c == sep {
            let ghost old_out = out@;
            out.push(cur);
            cur = Vec::new();
            proof {
                let a = split_on(prev, sep);
                assert(a.push(Seq::<char>::empty()).drop_last() =~= a);
                assert(a =~= a.drop_last().push(a.last()));
                assert(crate::text::views(out@) =~= crate::text::views(old_out).push(a.last()));
            }
        } else {
            cur.push(c);
            proof {
                let a = split_on(prev, sep);
                let b = a.update(a.len() - 1, a.last().push(c));
                assert(b.drop_last() =~= a.drop_last());
            }
        }
        i = i + 1;
    }
    proof {
        assert(s@.take(s.len() as int) =~= s@);
        lemma_split_on_len(s@, sep);
        let a = split_on(s@, sep);
        assert(a =~= a.drop_last().push(a.last()));
    }
    let ghost old_out = out@;
    out.push(cur);
    proof {
        assert(crate::text::views(out@) =~= crate::text::views(old_out).push(cur@));
    }
    out
}

fn first_index_exec(s: &Vec<char>, c: char) -> (r: Option<usize>)
    ensures
        match r {
            Some(i) => first_index_of(s@, c, 0) == Some(i as int) && i < s.len(),
            None => first_index_of(s@, c, 0) is None,
        },
{
    let mut i: usize = 0;
    while i < s.len()
        invariant
            i <= s.len(),
            first_index_of(s@, c, 0) == first_index_of(s@, c, i as int),
        decreases s.len() - i,
    {
        if s[i] == c {
            return Some(i);
        }
        i = i + 1;
    }
    None
}

proof fn lemma_digits_prefix(s: Seq<char>, k: int)
    requires
        0 <= k <= s.len(),
        all_digits(s),
    ensures
        digits_value(s.take(k)) <= digits_value(s),
    decreases s.len() - k,
{
    if k < s.len() {
        lemma_digits_prefix(s, k + 1);
        assert(s.take(k + 1).drop_last() =~= s.take(k));
    } else {
        assert(s.take(k) =~= s);
    }
}

/// Parses an array index as `str::parse::<usize>` does.
pub fn parse_index_exec(s: &Vec<char>) -> (r: Option<usize>)
    ensures
        r == parse_index(s@),
{
    let start: usize = if s.len() > 0 && s[0] == '+' { 1 } else { 0 };
    let ghost ds = plus_stripped(s@);
    if start >= s.len() {
        return None;
    }
    let mut acc: usize = 0;
    let mut i: usize = start;
    while i < s.len()
        invariant
            start <= i <= s.len(),
            start == 0 || start == 1,
            ds == s@.skip(start as int),
            ds == plus_stripped(s@),
            acc == digits_value(ds.take(i - start)),
            forall|k: int| 0 <= k < i - start ==> '0' <= #[trigger] ds[k] && ds[k] <= '9',
        decreases s.len() - i,
    {
        let c = s[i];
        proof {
            assert(ds[i - start] == c);
            assert(ds.take(i - start + 1).drop_last() =~= ds.take(i - start));
        }
        if !('0' <= c && c <= '9') {
            proof {
                assert(!all_digits(ds));
            }
            return None;
        }
        proof {
            assert('0' as u32 <= c as u32 <= '9' as u32);
        }
        let d: usize = (c as u32 - '0' as u32) as usize;
        if acc > (usize::MAX - d) / 10 {
            proof {
                assert(digits_value(ds.take(i - start + 1)) == acc * 10 + d);
                assert(acc * 10 + d > usize::MAX) by (nonlinear_arith)
                    requires acc > (usize::MAX - d) / 10, d <= 9;
                if all_digits(ds) {
                    lemma_digits_prefix(ds, i - start + 1);
                }
            }
            return None;
        }
        acc = acc * 10 + d;
        i = i + 1;
    }
    proof {
        assert(ds.take(i - start) =~= ds);
    }
    Some(acc)
}

fn table_get_exec<'a>(es: &'a Vec<(String, TomlValue)>, k: &Vec<char>) -> (r: Option<&'a TomlValue>)
    ensures
        match r {
            Some(v) => table_get(es@, k@, 0) == Some(*v),
            None => table_get(es@, k@, 0) is None,
        },
{
    let ks = string_of(k);
    let mut i: usize = 0;
    while i < es.len()
        invariant
            i <= es.len(),
            ks@ == k@,
            table_get(es@, k@, 0) == table_get(es@, k@, i as int),
        decreases es.len() - i,
    {
        if str_equal(es[i].0.as_str(), ks.as_str()) {
            return Some(&es[i].1);
        }
        i = i + 1;
    }
    None
}

fn step_exec<'a>(node: &'a TomlValue, part: &Vec<char>) -> (r: Option<&'a TomlValue>)
    requires
        segment_ok(part@),
    ensures
        match r {
            Some(v) => step(*node, part@) == Some(*v),
            None => step(*node, part@) is None,
        },
{
    match first_index_exec(part, '[') {
        Some(b) => {
            let idx_text = crate::text::slice_chars(part, b + 1, part.len() - 1);
            let key = crate::text::slice_chars(part, 0, b);
            proof {
                assert(part@.subrange(0, b as int) =~= part@.take(b as int));
            }
            match parse_index_exec(&idx_text) {
                Some(idx) => match node {
                    TomlValue::Table(es) => match table_get_exec(es, &key) {
                        Some(TomlValue::Array(arr)) => if idx < arr.len() {
                            Some(&arr[idx])
                        } else {
                            None
                        },
                        _ => None,
                    },
                    _ => None,
                },
                None => None,
            }
        },
        None => match node {
            TomlValue::Table(es) => table_get_exec(es, part),
            _ => None,
        },
    }
}

/// The value an entry had when the section was read (see `original_value`).
pub fn get_original_value(original: &TomlValue, full_path: &str) -> (r: Option<String>)
    requires
        path_ok(full_path@),
    ensures
        match r {
            Some(v) => original_value(*original, full_path@) == Some(v@),
            None => original_value(*original, full_path@) is None,
        },
{
    let pc = chars_of(full_path);
    let parts = split_on_exec(&pc, '.');
    let ghost ps = split_on(full_path@, '.');
    let mut current: &TomlValue = original;
    let mut i: usize = 1;
    if parts.len() == 0 {
        proof {
            lemma_split_on_len(full_path@, '.');
        }
        return Some(format_toml_value(current));
    }
    while i < parts.len()
        invariant
            1 <= i <= parts.len(),
            crate::text::views(parts@) == ps,
            ps == split_on(full_path@, '.'),
            path_ok(full_path@),
            walk(*original, ps, 1) == walk(*current, ps, i as int),
        decreases parts.len() - i,
    {
        proof {
            assert(parts@[i as int]@ == ps[i as int]);
            assert(segment_ok(ps[i as int]));
        }
        match step_exec(current, &parts[i]) {
            Some(next) => {
                current = next;
            },
            None => {
                return None;
            },
        }
        i = i + 1;
    }
    Some(format_toml_value(current))
}

/// The entry row of a plain value at `path`.
pub open spec fn entry_row(section: Seq<char>, path: Seq<char>, value: TomlValue, original: TomlValue) -> ItemView {
    ItemView::Entry {
        path,
        key: shown_key(path, section),
        value: shown_value(value),
        original: match original_value(original, path) {
            Some(o) => o,
            None => shown_value(value),
        },
        editable: editable(value),
    }
}

/// The rows of the table `current` (within `section`, at `prefix`): plain
/// values become entries, nested tables are flattened in place, and each
/// table in an array gets a heading and its own rows.
pub open spec fn section_rows(section: Seq<char>, prefix: Seq<char>, current: TomlValue, original: TomlValue) -> Seq<ItemView>
    decreases current,
{
    match current {
        TomlValue::Table(es) => entry_rows(section, prefix, current, es@, original, es@.len() as int),
        _ => Seq::empty(),
    }
}

/// The rows of the first `n` entries of the table `v` (whose entries are `es`).
pub open spec fn entry_rows(
    section: Seq<char>,
    prefix: Seq<char>,
    v: TomlValue,
    es: Seq<(String, TomlValue)>,
    original: TomlValue,
    n: int,
) -> Seq<ItemView>
    decreases v, n,
{
    if n <= 0 || n > es.len() || !(v matches TomlValue::Table(t) && t@ == es) {
        Seq::empty()
    } else {
        let key = es[n - 1].0@;
        let value = es[n - 1].1;
        let path = join_path(prefix, key);
        entry_rows(section, prefix, v, es, original, n - 1) + match value {
            TomlValue::Table(_) => section_rows(section, path, value, original),
            TomlValue::Array(arr) => array_rows(section, prefix, key, value, arr@, original, arr@.len() as int),
            _ => seq![entry_row(section, path, value, original)],
        }
    }
}

/// The rows of the tables among the first `n` items of the array `v`.
pub open spec fn array_rows(
    section: Seq<char>,
    prefix: Seq<char>,
    key: Seq<char>,
    v: TomlValue,
    arr: Seq<TomlValue>,
    original: TomlValue,
    n: int,
) -> Seq<ItemView>
    decreases v, n,
{
    if n <= 0 || n > arr.len() || !(v matches TomlValue::Array(a) && a@ == arr) {
        Seq::empty()
    } else {
        let item = arr[n - 1];
        array_rows(section, prefix, key, v, arr, original, n - 1) + if item is Table {
            seq![ItemView::Section { title: indexed_path(section, key, (n - 1) as nat) }] + section_rows(
                section,
                indexed_path(prefix, key, (n - 1) as nat),
                item,
                original,
            )
        } else {
            Seq::empty()
        }
    }
}

/// Every path that listing the rows of `current` looks up can be read
/// without panicking (see `segment_ok`).
pub open spec fn rows_safe(prefix: Seq<char>, current: TomlValue) -> bool
    decreases current,
{
    match current {
        TomlValue::Table(es) => entries_safe(prefix, current, es@, es@.len() as int),
        _ => true,
    }
}

pub open spec fn entries_safe(prefix: Seq<char>, v: TomlValue, es: Seq<(String, TomlValue)>, n: int) -> bool
    decreases v, n,
{
    if n <= 0 || n > es.len() || !(v matches TomlValue::Table(t) && t@ == es) {
        true
    } else {
        let key = es[n - 1].0@;
        let value = es[n - 1].1;
        let path = join_path(prefix, key);
        entries_safe(prefix, v, es, n - 1) && match value {
            TomlValue::Table(_) => rows_safe(path, value),
            TomlValue::Array(arr) => array_safe(prefix, key, value, arr@, arr@.len() as int),
            _ => path_ok(path),
        }
    }
}

pub open spec fn array_safe(prefix: Seq<char>, key: Seq<char>, v: TomlValue, arr: Seq<TomlValue>, n: int) -> bool
    decreases v, n,
{
    if n <= 0 || n > arr.len() || !(v matches TomlValue::Array(a) && a@ == arr) {
        true
    } else {
        array_safe(prefix, key, v, arr, n - 1) && (arr[n - 1] is Table ==> rows_safe(
            indexed_path(prefix, key, (n - 1) as nat),
            arr[n - 1],
        ))
    }
}

proof fn lemma_entries_safe_prefix(prefix: Seq<char>, v: TomlValue, es: Seq<(String, TomlValue)>, k: int, n: int)
    requires
        0 <= k <= n <= es.len(),
        entries_safe(prefix, v, es, n),
    ensures
        entries_safe(prefix, v, es, k),
    decreases n - k,
{
    if k < n {
        lemma_entries_safe_prefix(prefix, v, es, k, n - 1);
    }
}

proof fn lemma_array_safe_prefix(prefix: Seq<char>, key: Seq<char>, v: TomlValue, arr: Seq<TomlValue>, k: int, n: int)
    requires
        0 <= k <= n <= arr.len(),
        array_safe(prefix, key, v, arr, n),
    ensures
        array_safe(prefix, key, v, arr, k),
    decreases n - k,
{
    if k < n {
        lemma_array_safe_prefix(prefix, key, v, arr, k, n - 1);
    }
}

fn path_text(prefix: &str, key: &str) -> (r: String)
    ensures
        r@ == join_path(prefix@, key@),
{
    let mut v = chars_of(prefix);
    v.push('.');
    append_str(&mut v, key);
    string_of(&v)
}

fn indexed_text(prefix: &str, key: &str, i: usize) -> (r: String)
    ensures
        r@ == indexed_path(prefix@, key@, i as nat),
{
    let mut v = chars_of(prefix);
    v.push('.');
    append_str(&mut v, key);
    v.push('[');
    push_decimal(&mut v, i as u64);
    v.push(']');
    string_of(&v)
}

pub open spec fn views_of(items: Seq<SettingsItem>) -> Seq<ItemView> {
    crate::tui::settings::item_views(items)
}

/// Appends the rows of the table `current` (see `section_rows`).
pub fn flatten_section(
    items: &mut Vec<SettingsItem>,
    section: &str,
    prefix: &str,
    current: &TomlValue,
    original: &TomlValue,
)
    requires
        rows_safe(prefix@, *current),
    ensures
        views_of(final(items)@) == views_of(old(items)@) + section_rows(section@, prefix@, *current, *original),
    decreases current,
{
    let ghost start = views_of(items@);
    match current {
        TomlValue::Table(es) => {
            let mut i: usize = 0;
            while i < es.len()
                invariant
                    i <= es.len(),
                    *current == TomlValue::Table(*es),
                    rows_safe(prefix@, *current),
                    views_of(items@) == start + entry_rows(section@, prefix@, *current, es@, *original, i as int),
                decreases es.len() - i,
            {
                proof {
                    lemma_entries_safe_prefix(prefix@, *current, es@, i + 1, es@.len() as int);
                }
                let key = es[i].0.as_str();
                let value = &es[i].1;
                let path = path_text(prefix, key);
                let ghost before = views_of(items@);
                match value {
                    TomlValue::Table(_) => {
                        flatten_section(items, section, path.as_str(), value, original);
                    },
                    TomlValue::Array(_) => {
                        flatten_array(items, section, prefix, key, value, original);
                    },
                    _ => {
                        let shown = format_toml_value(value);
                        let orig = match get_original_value(original, path.as_str()) {
                            Some(o) => o,
                            None => format_toml_value(value),
                        };
                        let row = SettingsItem::Entry {
                            path: path.clone(),
                            key: format_key(path.as_str(), section),
                            value: shown,
                            original: orig,
                            editable: is_editable(value),
                        };
                        items.push(row);
                        proof {
                            assert(views_of(items@) =~= before.push(row.view_spec()));
                        }
                    },
                }
                proof {
                    assert(views_of(items@) =~= start + entry_rows(section@, prefix@, *current, es@, *original, i + 1));
                }
                i = i + 1;
            }
        },
        _ => {},
    }
}

/// Appends the rows of the tables in the array `value` (the value of
/// `key` under `prefix`).
fn flatten_array(
    items: &mut Vec<SettingsItem>,
    section: &str,
    prefix: &str,
    key: &str,
    value: &TomlValue,
    original: &TomlValue,
)
    requires
        value matches TomlValue::Array(arr) && array_safe(prefix@, key@, *value, arr@, arr@.len() as int),
    ensures
        value matches TomlValue::Array(arr) && views_of(final(items)@) == views_of(old(items)@) + array_rows(
            section@,
            prefix@,
            key@,
            *value,
            arr@,
            *original,
            arr@.len() as int,
        ),
    decreases value,
{
    let ghost before = views_of(items@);
    match value {
        TomlValue::Array(arr) => {
            let mut j: usize = 0;
            while j < arr.len()
                invariant
                    j <= arr.len(),
                    *value == TomlValue::Array(*arr),
                    array_safe(prefix@, key@, *value, arr@, arr@.len() as int),
                    views_of(items@) == before + array_rows(section@, prefix@, key@, *value, arr@, *original, j as int),
                decreases arr.len() - j,
            {
                proof {
                    lemma_array_safe_prefix(prefix@, key@, *value, arr@, j + 1, arr@.len() as int);
                }
                let item = &arr[j];
                let ghost mid = views_of(items@);
                match item {
                    TomlValue::Table(_) => {
                        let title = indexed_text(section, key, j);
                        let sub = indexed_text(prefix, key, j);
                        let head = SettingsItem::Section { title };
                        items.push(head);
                        proof {
                            assert(views_of(items@) =~= mid.push(head.view_spec()));
                        }
                        flatten_section(items, section, sub.as_str(), item, original);
                    },
                    _ => {},
                }
                proof {
                    assert(views_of(items@) =~= before + array_rows(section@, prefix@, key@, *value, arr@, *original, j + 1));
                }
                j = j + 1;
            }
        },
        _ => {},
    }
}

/// The sections of the configuration, in the order the editor lists them.
pub open spec fn section_order() -> Seq<Seq<char>> {
    seq!["llm"@, "memory"@, "embedding"@, "fatigue"@, "mcp"@, "state"@, "skills"@, "permission"@]
}

/// The rows of the first `n` sections (those present as tables).
pub open spec fn sections_rows(es: Seq<(String, TomlValue)>, n: int) -> Seq<ItemView>
    decreases n,
{
    if n <= 0 {
        Seq::empty()
    } else {
        let name = section_order()[n - 1];
        sections_rows(es, n - 1) + match table_get(es, name, 0) {
            Some(v) => if v is Table {
                seq![ItemView::Section { title: name }] + section_rows(name, name, v, v)
            } else {
                Seq::empty()
            },
            None => Seq::empty(),
        }
    }
}

/// The rows of the whole configuration: nothing unless it is a table.
pub open spec fn config_rows(root: TomlValue) -> Seq<ItemView> {
    match root {
        TomlValue::Table(es) => sections_rows(es@, 8),
        _ => Seq::empty(),
    }
}

/// Every section can be listed without panicking.
pub open spec fn config_safe(root: TomlValue) -> bool {
    root matches TomlValue::Table(es) ==> forall|k: int|
        0 <= k < 8 ==> match table_get(es@, #[trigger] section_order()[k], 0) {
            Some(v) => rows_safe(section_order()[k], v),
            None => true,
        }
}

fn section_name(k: usize) -> (r: &'static str)
    requires
        k < 8,
    ensures
        r@ == section_order()[k as int],
{
    if k == 0 {
        "llm"
    } else if k == 1 {
        "memory"
    } else if k == 2 {
        "embedding"
    } else if k == 3 {
        "fatigue"
    } else if k == 4 {
        "mcp"
    } else if k == 5 {
        "state"
    } else if k == 6 {
        "skills"
    } else {
        "permission"
    }
}

/// The rows of the settings editor for a configuration tree.
pub fn flatten_toml(root: &TomlValue) -> (r: Vec<SettingsItem>)
    requires
        config_safe(*root),
    ensures
        views_of(r@) == config_rows(*root),
{
    let mut items: Vec<SettingsItem> = Vec::new();
    match root {
        TomlValue::Table(es) => {
            let mut k: usize = 0;
            proof {
                assert(views_of(items@) =~= Seq::<ItemView>::empty());
            }
            while k < 8
                invariant
                    k <= 8,
                    *root == TomlValue::Table(*es),
                    config_safe(*root),
                    views_of(items@) == sections_rows(es@, k as int),
                decreases 8 - k,
            {
                let name = section_name(k);
                let nc = chars_of(name);
                let ghost before = views_of(items@);
                match table_get_exec(es, &nc) {
                    Some(v) => match v {
                        TomlValue::Table(_) => {
                            let head = SettingsItem::Section { title: String::from_str(name) };
                            items.push(head);
                            proof {
                                assert(views_of(items@) =~= before.push(head.view_spec()));
                                assert(rows_safe(section_order()[k as int], *v));
                            }
                            flatten_section(&mut items, name, name, v, v);
                        },
                        _ => {},
                    },
                    None => {},
                }
                proof {
                    assert(views_of(items@) =~= sections_rows(es@, k + 1));
                }
                k = k + 1;
            }
        },
        _ => {
            proof {
                assert(views_of(items@) =~= Seq::<ItemView>::empty());
            }
        },
    }
    items
}

/// Where the first entry with key `k` stands in `es`.
pub open spec fn table_pos(es: Seq<(String, TomlValue)>, k: Seq<char>, i: int) -> Option<int>
    decreases es.len() - i,
{
    if i < 0 || i >= es.len() {
        None
    } else if es[i].0@ == k {
        Some(i)
    } else {
        table_pos(es, k, i + 1)
    }
}

/// `new` is `old` with the path `parts[i..]` set to `val`, as
/// `set_toml_value` walks it: tables by key, `key[index]` into arrays;
/// the last segment is set in the table reached (replaced, or added). When
/// the walk fails, nothing changes.
pub open spec fn set_rel(old: TomlValue, new: TomlValue, parts: Seq<Seq<char>>, i: int, val: TomlValue) -> bool
    decreases parts.len() - i,
{
    if i < 0 || i >= parts.len() {
        new == old
    } else if i == parts.len() - 1 {
        match old {
            TomlValue::Table(es) => new matches TomlValue::Table(es2) && match table_pos(es@, parts[i], 0) {
                Some(pos) => es2@ == es@.update(pos, (es@[pos].0, val)),
                None => es2@.len() == es@.len() + 1 && es2@.drop_last() == es@ && es2@.last().0@ == parts[i]
                    && es2@.last().1 == val,
            },
            _ => new == old,
        }
    } else {
        let part = parts[i];
        match first_index_of(part, '[', 0) {
            Some(b) => match (parse_index(part.subrange(b + 1, part.len() - 1)), old) {
                (Some(idx), TomlValue::Table(es)) => match table_pos(es@, part.take(b), 0) {
                    Some(pos) => match es@[pos].1 {
                        TomlValue::Array(arr) => if idx < arr@.len() {
                            new matches TomlValue::Table(es2) && es2@.len() == es@.len() && (forall|k: int|
                                0 <= k < es@.len() && k != pos ==> es2@[k] == es@[k]) && es2@[pos].0 == es@[pos].0 && (
                            es2@[pos].1 matches TomlValue::Array(arr2) && arr2@.len() == arr@.len() && (forall|k: int|
                                0 <= k < arr@.len() && k != idx ==> arr2@[k] == arr@[k]) && set_rel(
                                arr@[idx as int],
                                arr2@[idx as int],
                                parts,
                                i + 1,
                                val,
                            ))
                        } else {
                            new == old
                        },
                        _ => new == old,
                    },
                    None => new == old,
                },
                _ => new == old,
            },
            None => match old {
                TomlValue::Table(es) => match table_pos(es@, part, 0) {
                    Some(pos) => new matches TomlValue::Table(es2) && es2@.len() == es@.len() && (forall|k: int|
                        0 <= k < es@.len() && k != pos ==> es2@[k] == es@[k]) && es2@[pos].0 == es@[pos].0 && set_rel(
                        es@[pos].1,
                        es2@[pos].1,
                        parts,
                        i + 1,
                        val,
                    ),
                    None => new == old,
                },
                _ => new == old,
            },
        }
    }
}

fn table_pos_exec(es: &Vec<(String, TomlValue)>, k: &Vec<char>) -> (r: Option<usize>)
    ensures
        match r {
            Some(p) => table_pos(es@, k@, 0) == Some(p as int) && p < es.len(),
            None => table_pos(es@, k@, 0) is None,
        },
{
    let ks = string_of(k);
    let mut i: usize = 0;
    while i < es.len()
        invariant
            i <= es.len(),
            ks@ == k@,
            table_pos(es@, k@, 0) == table_pos(es@, k@, i as int),
        decreases es.len() - i,
    {
        if str_equal(es[i].0.as_str(), ks.as_str()) {
            return Some(i);
        }
        i = i + 1;
    }
    None
}

/// Sets the value at `parts[i..]` (see `set_rel`).
fn set_at(node: TomlValue, parts: &Vec<Vec<char>>, i: usize, val: TomlValue) -> (r: TomlValue)
    requires
        forall|k: int| i <= k < parts@.len() - 1 ==> segment_ok(#[trigger] parts@[k]@),
    ensures
        set_rel(node, r, crate::text::views(parts@), i as int, val),
    decreases parts.len() - i,
{
    let ghost ps = crate::text::views(parts@);
    if i >= parts.len() {
        return node;
    }
    proof {
        assert(ps[i as int] == parts@[i as int]@);
    }
    if i == parts.len() - 1 {
        return match node {
            TomlValue::Table(mut es) => {
                let ghost old_es = es@;
                match table_pos_exec(&es, &parts[i]) {
                    Some(pos) => {
                        let (k, _) = es.remove(pos);
                        let ghost kk = k;
                        es.insert(pos, (k, val));
                        proof {
                            assert(old_es[pos as int].0 == kk);
                            assert(es@ =~= old_es.update(pos as int, (kk, val)));
                        }
                        TomlValue::Table(es)
                    },
                    None => {
                        es.push((string_of(&parts[i]), val));
                        proof {
                            assert(es@.drop_last() =~= old_es);
                        }
                        TomlValue::Table(es)
                    },
                }
            },
            other => other,
        };
    }
    proof {
        assert(segment_ok(parts@[i as int]@));
    }
    let part = &parts[i];
    match first_index_exec(part, '[') {
        Some(b) => {
            let idx_text = crate::text::slice_chars(part, b + 1, part.len() - 1);
            let key = crate::text::slice_chars(part, 0, b);
            proof {
                assert(part@.subrange(0, b as int) =~= part@.take(b as int));
            }
            let idx = match parse_index_exec(&idx_text) {
                Some(x) => x,
                None => return node,
            };
            match node {
                TomlValue::Table(mut es) => {
                    let ghost old_es = es@;
                    let pos = match table_pos_exec(&es, &key) {
                        Some(p) => p,
                        None => return TomlValue::Table(es),
                    };
                    let is_arr = match &es[pos].1 {
                        TomlValue::Array(arr) => idx < arr.len(),
                        _ => false,
                    };
                    if !is_arr {
                        return TomlValue::Table(es);
                    }
                    let (k, child) = es.remove(pos);
                    let ghost kk = k;
                    match child {
                        TomlValue::Array(mut arr) => {
                            let ghost old_arr = arr@;
                            let item = arr.remove(idx);
                            let new_item = set_at(item, parts, i + 1, val);
                            arr.insert(idx, new_item);
                            proof {
                                assert(arr@ =~= old_arr.update(idx as int, new_item));
                            }
                            es.insert(pos, (k, TomlValue::Array(arr)));
                            proof {
                                assert(es@ =~= old_es.update(pos as int, (kk, TomlValue::Array(arr))));
                            }
                            TomlValue::Table(es)
                        },
                        other => {
                            es.insert(pos, (k, other));
                            TomlValue::Table(es)
                        },
                    }
                },
                other => other,
            }
        },
        None => match node {
            TomlValue::Table(mut es) => {
                let ghost old_es = es@;
                match table_pos_exec(&es, part) {
                    Some(pos) => {
                        let (k, child) = es.remove(pos);
                        let ghost kk = k;
                        let new_child = set_at(child, parts, i + 1, val);
                        es.insert(pos, (k, new_child));
                        proof {
                            assert(es@ =~= old_es.update(pos as int, (kk, new_child)));
                        }
                        TomlValue::Table(es)
                    },
                    None => TomlValue::Table(es),
                }
            },
            other => other,
        },
    }
}

/// What a typed value becomes in the configuration: `true` and `false`
/// are booleans, then an integer if it parses as one, then the float the
/// program read from it (`fractional`: its exact and its shown text), else text.
pub open spec fn parsed_value(s: Seq<char>, fractional: Option<(Seq<char>, Seq<char>)>) -> (int, Seq<char>, Seq<char>, int) {
    if s == "true"@ {
        (0, Seq::empty(), Seq::empty(), 1)
    } else if s == "false"@ {
        (0, Seq::empty(), Seq::empty(), 0)
    } else if crate::data_git::parse_i64(s) is Some {
        (1, Seq::empty(), Seq::empty(), crate::data_git::parse_i64(s)->0 as int)
    } else if let Some((exact, shown)) = fractional {
        (2, exact, shown, 0)
    } else {
        (3, s, Seq::empty(), 0)
    }
}

/// A value's kind and contents, for comparing with `parsed_value`.
pub open spec fn value_code(v: TomlValue) -> (int, Seq<char>, Seq<char>, int) {
    match v {
        TomlValue::Boolean(b) => (0, Seq::empty(), Seq::empty(), if b { 1 } else { 0 }),
        TomlValue::Integer(n) => (1, Seq::empty(), Seq::empty(), n as int),
        TomlValue::Float { exact, shown } => (2, exact@, shown@, 0),
        TomlValue::String(t) => (3, t@, Seq::empty(), 0),
        _ => (4, Seq::empty(), Seq::empty(), 0),
    }
}

pub fn parse_value_string(s: &str, fractional: Option<(String, String)>) -> (r: TomlValue)
    ensures
        value_code(r) == parsed_value(
            s@,
            match fractional {
                Some((e, sh)) => Some((e@, sh@)),
                None => None,
            },
        ),
{
    if str_equal(s, "true") {
        return TomlValue::Boolean(true);
    }
    if str_equal(s, "false") {
        return TomlValue::Boolean(false);
    }
    let sc = chars_of(s);
    match crate::data_git::parse_i64_exec(&sc) {
        Some(n) => return TomlValue::Integer(n),
        None => {},
    }
    match fractional {
        Some((exact, shown)) => TomlValue::Float { exact, shown },
        None => TomlValue::String(String::from_str(s)),
    }
}

/// Writes an edited entry back into the configuration tree at its path;
/// a section row changes nothing.
pub fn set_toml_value(tree: TomlValue, path: &str, item: &SettingsItem, fractional: Option<(String, String)>) -> (r: TomlValue)
    requires
        forall|k: int| 0 <= k < split_on(path@, '.').len() - 1 ==> segment_ok(#[trigger] split_on(path@, '.')[k]),
    ensures
        match item {
            SettingsItem::Entry { value, .. } => exists|val: TomlValue|
                #![auto]
                value_code(val) == parsed_value(
                    value@,
                    match fractional {
                        Some((e, sh)) => Some((e@, sh@)),
                        None => None,
                    },
                ) && set_rel(tree, r, split_on(path@, '.'), 0, val),
            SettingsItem::Section { .. } => r == tree,
        },
{
    let value = match item {
        SettingsItem::Entry { value, .. } => value,
        SettingsItem::Section { .. } => return tree,
    };
    let pc = chars_of(path);
    let parts = split_on_exec(&pc, '.');
    let val = parse_value_string(value.as_str(), fractional);
    proof {
        assert forall|k: int| 0 <= k < parts@.len() - 1 implies segment_ok(#[trigger] parts@[k]@) by {
            assert(parts@[k]@ == split_on(path@, '.')[k]);
        }
    }
    let ghost v = val;
    set_at(tree, &parts, 0, val)
}

/// How the editor shows a float printed with six decimals: without
/// trailing zeros, and without the point when nothing follows it.
pub open spec fn shown_fixed(fixed: Seq<char>) -> Seq<char> {
    crate::text::trim_end_char(crate::text::trim_end_char(fixed, '0'), '.')
}

pub fn shown_float_text(fixed: &str) -> (r: String)
    ensures
        r@ == shown_fixed(fixed@),
{
    let c = chars_of(fixed);
    let a = crate::text::trim_end_char_exec(&c, '0');
    let b = crate::text::trim_end_char_exec(&a, '.');
    string_of(&b)
}

} // verus!
