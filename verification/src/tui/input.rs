use vstd::prelude::*;

use crate::text::{chars_of, char_utf8_len, string_of, utf8_size};

verus! {

/// The display width of a character (`None` for control characters).
pub uninterp spec fn unicode_char_width(c: char) -> Option<usize>;

/// The display width of a text.
pub uninterp spec fn unicode_str_width(s: Seq<char>) -> usize;

/// `UnicodeWidthChar::width` of unicode-width. Claimed, as its source shows:
/// the result is `unicode_char_width(c)`; `None` exactly for the control
/// characters below U+0020 and from U+007F below U+00A0; 1 for the other
/// ASCII characters; never more than 3.
#[verifier::external_body]
pub(crate) fn char_width(c: char) -> (r: Option<usize>)
    ensures
        r == unicode_char_width(c),
        r is None <==> ((c as u32) < 0x20 || (0x7f <= (c as u32) && (c as u32) < 0xa0)),
        (0x20 <= (c as u32) && (c as u32) < 0x7f) ==> r == Some(1usize),
        r matches Some(w) ==> w <= 3,
{
    unicode_width::UnicodeWidthChar::width(c)
}

/// `UnicodeWidthStr::width` of unicode-width. Claimed: the result is
/// `unicode_str_width` of the text; how it combines the characters
/// (emoji sequences and the like) is not stated.
#[verifier::external_body]
pub(crate) fn str_width(s: &str) -> (r: usize)
    ensures
        r == unicode_str_width(s@),
{
    unicode_width::UnicodeWidthStr::width(s)
}

pub open spec fn width_or_zero(c: char) -> int {
    match unicode_char_width(c) {
        Some(w) => w as int,
        None => 0,
    }
}

/// Scanning from character `k` with accumulated width `w`: the byte offset
/// of the first character reached once the width is at least `width`, or
/// the byte length of the text.
pub open spec fn width_offset_from(s: Seq<char>, k: int, w: int, width: int) -> nat
    decreases s.len() - k,
{
    if k < 0 || k >= s.len() {
        utf8_size(s)
    } else if w >= width {
        utf8_size(s.take(k))
    } else {
        width_offset_from(s, k + 1, w + width_or_zero(s[k]), width)
    }
}

/// The byte offset of the `char_idx`-th character of `s` (the byte length
/// of `s` past its end).
pub fn char_to_byte(char_idx: usize, s: &str) -> (r: usize)
    requires
        utf8_size(s@) <= usize::MAX,
    ensures
        r == if char_idx < s@.len() { utf8_size(s@.take(char_idx as int)) } else { utf8_size(s@) },
{
    let v = chars_of(s);
    let n = if char_idx < v.len() { char_idx } else { v.len() };
    let mut bytes: usize = 0;
    let mut k: usize = 0;
    proof {
        assert(v@.take(0) =~= Seq::<char>::empty());
    }
    while k < n
        invariant
            k <= n <= v.len(),
            v@ == s@,
            utf8_size(v@) <= usize::MAX,
            bytes == utf8_size(v@.take(k as int)),
        decreases n - k,
    {
        proof {
            assert(v@.take(k + 1).drop_last() =~= v@.take(k as int));
            crate::text::lemma_utf8_size_prefix_monotone(v@, k + 1);
        }
        bytes = bytes + char_utf8_len(v[k]);
        k = k + 1;
    }
    proof {
        assert(v@.take(v.len() as int) =~= v@);
    }
    bytes
}

/// The byte offset in `s` where the display width first reaches `width`
/// (the byte length of `s` when it never does).
pub fn display_width_to_char_idx(width: usize, s: &str) -> (r: usize)
    requires
        utf8_size(s@) <= usize::MAX,
    ensures
        r == width_offset_from(s@, 0, 0, width as int),
{
    let v = chars_of(s);
    let mut w: u128 = 0;
    let mut bytes: usize = 0;
    let mut k: usize = 0;
    proof {
        assert(v@.take(0) =~= Seq::<char>::empty());
    }
    while k < v.len()
        invariant
            k <= v.len(),
            v@ == s@,
            w <= 3 * k,
            utf8_size(v@) <= usize::MAX,
            bytes == utf8_size(v@.take(k as int)),
            width_offset_from(v@, 0, 0, width as int) == width_offset_from(v@, k as int, w as int, width as int),
        decreases v.len() - k,
    {
        if w >= width as u128 {
            return bytes;
        }
        let cw = match char_width(v[k]) {
            Some(x) => x,
            None => 0,
        };
        proof {
            assert(v@.take(k + 1).drop_last() =~= v@.take(k as int));
            crate::text::lemma_utf8_size_prefix_monotone(v@, k + 1);
            assert(utf8_size(v@.take(k + 1)) == bytes + crate::text::utf8_len(v@[k as int]));
            assert(s@.len() == v.len());
            crate::text::lemma_utf8_size_prefix_monotone(v@, k + 1);
        }
        w = w + cw as u128;
        bytes = bytes + char_utf8_len(v[k]);
        k = k + 1;
    }
    proof {
        assert(v@.take(v.len() as int) =~= v@);
    }
    bytes
}

/// The line being typed and the cursor in it (a character index).
#[derive(Debug)]
pub struct InputBuffer {
    text: String,
    cursor: usize,
}

impl View for InputBuffer {
    type V = (Seq<char>, nat);

    closed spec fn view(&self) -> (Seq<char>, nat) {
        (self.text@, self.cursor as nat)
    }
}

impl InputBuffer {
    #[verifier::type_invariant]
    closed spec fn cursor_in_text(&self) -> bool {
        self.cursor <= self.text@.len()
    }

    pub fn new() -> (r: Self)
        ensures
            r@.0.len() == 0,
            r@.1 == 0,
    {
        InputBuffer { text: String::new(), cursor: 0 }
    }

    /// Inserts `c` at the cursor and moves the cursor past it.
    pub fn insert(&mut self, c: char)
        requires
            old(self)@.1 < usize::MAX,
        ensures
            final(self)@.0 == old(self)@.0.take(old(self)@.1 as int).push(c) + old(self)@.0.skip(
                old(self)@.1 as int,
            ),
            final(self)@.1 == old(self)@.1 + 1,
    {
        proof {
            use_type_invariant(&*self);
        }
        let mut v = chars_of(self.text.as_str());
        v.insert(self.cursor, c);
        let ghost cur = self.cursor as int;
        assert(v@ =~= self.text@.take(cur).push(c) + self.text@.skip(cur));
        let t = string_of(&v);
        let n = self.cursor + 1;
        *self = InputBuffer { text: t, cursor: n };
    }

    /// Deletes the character before the cursor.
    pub fn backspace(&mut self)
        ensures
            old(self)@.1 == 0 ==> final(self)@ == old(self)@,
            old(self)@.1 > 0 ==> final(self)@ == (old(self)@.0.remove(old(self)@.1 - 1), (old(self)@.1 - 1) as nat),
    {
        proof {
            use_type_invariant(&*self);
        }
        if self.cursor == 0 {
            return ;
        }
        let mut v = chars_of(self.text.as_str());
        let n = self.cursor - 1;
        v.remove(n);
        let t = string_of(&v);
        *self = InputBuffer { text: t, cursor: n };
    }

    /// Deletes the character under the cursor.
    pub fn delete(&mut self)
        ensures
            old(self)@.1 >= old(self)@.0.len() ==> final(self)@ == old(self)@,
            old(self)@.1 < old(self)@.0.len() ==> final(self)@ == (old(self)@.0.remove(old(self)@.1 as int), old(self)@.1),
    {
        proof {
            use_type_invariant(&*self);
        }
        let mut v = chars_of(self.text.as_str());
        if self.cursor >= v.len() {
            return ;
        }
        let n = self.cursor;
        v.remove(n);
        let t = string_of(&v);
        *self = InputBuffer { text: t, cursor: n };
    }

    pub fn move_left(&mut self)
        ensures
            final(self)@.0 == old(self)@.0,
            final(self)@.1 == if old(self)@.1 > 0 { old(self)@.1 - 1 } else { 0 },
    {
        proof {
            use_type_invariant(&*self);
        }
        if self.cursor > 0 {
            self.cursor = self.cursor - 1;
        }
    }

    pub fn move_right(&mut self)
        ensures
            final(self)@.0 == old(self)@.0,
            final(self)@.1 == if old(self)@.1 < old(self)@.0.len() {
                old(self)@.1 + 1
            } else {
                old(self)@.1
            },
    {
        proof {
            use_type_invariant(&*self);
        }
        let v = chars_of(self.text.as_str());
        if self.cursor < v.len() {
            self.cursor = self.cursor + 1;
        }
    }

    pub fn move_home(&mut self)
        ensures
            final(self)@ == (old(self)@.0, 0nat),
    {
        proof {
            use_type_invariant(&*self);
        }
        self.cursor = 0;
    }

    pub fn move_end(&mut self)
        ensures
            final(self)@ == (old(self)@.0, old(self)@.0.len()),
    {
        proof {
            use_type_invariant(&*self);
        }
        let v = chars_of(self.text.as_str());
        self.cursor = v.len();
    }

    pub fn clear(&mut self)
        ensures
            final(self)@.0.len() == 0,
            final(self)@.1 == 0,
    {
        *self = InputBuffer { text: String::new(), cursor: 0 };
    }

    /// Replaces the text and puts the cursor at its end.
    pub fn set(&mut self, text: String)
        ensures
            final(self)@ == (text@, text@.len()),
    {
        let v = chars_of(text.as_str());
        let n = v.len();
        *self = InputBuffer { text, cursor: n };
    }

    /// The cursor position; it never passes the end of the text.
    pub fn cursor(&self) -> (r: usize)
        ensures
            r == self@.1,
            r <= self@.0.len(),
    {
        proof {
            use_type_invariant(self);
        }
        self.cursor
    }

    pub fn as_str(&self) -> (r: &str)
        ensures
            r@ == self@.0,
    {
        self.text.as_str()
    }

    /// The display column of the cursor: the width of the text before it.
    pub fn display_cursor_col(&self) -> (r: u16)
        ensures
            r == (unicode_str_width(self@.0.take(self@.1 as int)) as u16),
    {
        proof {
            use_type_invariant(self);
        }
        let v = chars_of(self.text.as_str());
        let mut before: Vec<char> = Vec::new();
        let mut i: usize = 0;
        while i < self.cursor
            invariant
                i <= self.cursor <= v.len(),
                v@ == self.text@,
                before@ == v@.take(i as int),
            decreases self.cursor - i,
        {
            before.push(v[i]);
            proof {
                assert(v@.take(i + 1) =~= v@.take(i as int).push(v@[i as int]));
            }
            i = i + 1;
        }
        let s = string_of(&before);
        let w = str_width(s.as_str());
        #[verifier::truncate]
        (w as u16)
    }
}

impl Default for InputBuffer {
    fn default() -> (r: Self)
        ensures
            r@.0.len() == 0,
            r@.1 == 0,
    {
        InputBuffer::new()
    }
}

/// Typing a character and deleting it again with backspace gives back the
/// line and the cursor as they were.
pub proof fn lemma_backspace_undoes_insert(text: Seq<char>, cursor: nat, c: char)
    requires
        cursor <= text.len(),
    ensures
        ({
            let typed = text.take(cursor as int).push(c) + text.skip(cursor as int);
            let cur2: nat = cursor + 1;
            cur2 > 0 && typed.remove(cur2 - 1) == text && (cur2 - 1) as nat == cursor
        }),
{
    let typed = text.take(cursor as int).push(c) + text.skip(cursor as int);
    assert(typed.remove(cursor as int) =~= text);
}

} // verus!
