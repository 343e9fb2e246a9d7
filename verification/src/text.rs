//! Character-level helpers shared by the parsers.

use vstd::prelude::*;
use vstd::string::*;

verus! {

/// The characters of an optional string.
pub open spec fn opt_chars(text: Option<String>) -> Option<Seq<char>> {
    match text {
        Some(s) => Some(s@),
        None => None,
    }
}

/// What each of a sequence of strings holds.
pub open spec fn texts_view(texts: Seq<String>) -> Seq<Seq<char>> {
    Seq::new(texts.len(), |i: int| texts[i]@)
}

/// Whether two string slices hold the same characters.
pub fn same_text(a: &str, b: &str) -> (same: bool)
    ensures
        same == (a@ == b@),
{
    let x = a.as_bytes();
    let y = b.as_bytes();
    proof {
        // Equal encodings decode to equal characters.
        vstd::utf8::encode_utf8_decode_utf8(a@);
        vstd::utf8::encode_utf8_decode_utf8(b@);
    }
    if x.len() != y.len() {
        return false;
    }
    let mut i: usize = 0;
    while i < x.len()
        invariant
            i <= x@.len(),
            x@.len() == y@.len(),
            x@ == vstd::utf8::encode_utf8(a@),
            y@ == vstd::utf8::encode_utf8(b@),
            forall|k: int| 0 <= k < i ==> x@[k] == y@[k],
        decreases x@.len() - i,
    {
        if x[i] != y[i] {
            return false;
        }
        i += 1;
    }
    assert(x@ =~= y@);
    true
}

/// Whether two optional strings are both absent or hold the same characters.
pub fn same_opt_text(a: &Option<String>, b: &Option<String>) -> (same: bool)
    ensures
        same == (opt_chars(*a) == opt_chars(*b)),
{
    match (a, b) {
        (Some(x), Some(y)) => *x == *y,
        (None, None) => true,
        _ => false,
    }
}

/// Whether a character is white space: the code points with the Unicode
/// property `White_Space`.
pub open spec fn is_space(c: char) -> bool {
    let v = c as u32;
    (0x09 <= v <= 0x0d) || v == 0x20 || v == 0x85 || v == 0xa0 || v == 0x1680 || (0x2000 <= v
        <= 0x200a) || v == 0x2028 || v == 0x2029 || v == 0x202f || v == 0x205f || v == 0x3000
}

/// The first position at or after `from` that holds `c`; the length of the
/// text where none does.
pub open spec fn find_char(text: Seq<char>, c: char, from: int) -> int
    decreases text.len() - from,
{
    if from < 0 || from >= text.len() {
        text.len() as int
    } else if text[from] == c {
        from
    } else {
        find_char(text, c, from + 1)
    }
}

/// What `find_char` returns lies between `from` and the length of the text.
pub proof fn lemma_find_char_bounds(text: Seq<char>, c: char, from: int)
    requires
        0 <= from <= text.len(),
    ensures
        from <= find_char(text, c, from) <= text.len(),
    decreases text.len() - from,
{
    if from < text.len() && text[from] != c {
        lemma_find_char_bounds(text, c, from + 1);
    }
}

/// The first position at or after `from` that holds no white space; the
/// length of the text where none does.
pub open spec fn skip_spaces(text: Seq<char>, from: int) -> int
    decreases text.len() - from,
{
    if from < 0 || from >= text.len() {
        text.len() as int
    } else if !is_space(text[from]) {
        from
    } else {
        skip_spaces(text, from + 1)
    }
}

/// The first position at or after `from` that holds white space; the length
/// of the text where none does.
pub open spec fn skip_word(text: Seq<char>, from: int) -> int
    decreases text.len() - from,
{
    if from < 0 || from >= text.len() {
        text.len() as int
    } else if is_space(text[from]) {
        from
    } else {
        skip_word(text, from + 1)
    }
}

/// The end of the text once the white space before `end` is cut off, never
/// going below `from`.
pub open spec fn trim_end(text: Seq<char>, from: int, end: int) -> int
    decreases end - from,
{
    if end <= from || end > text.len() {
        from
    } else if !is_space(text[end - 1]) {
        end
    } else {
        trim_end(text, from, end - 1)
    }
}

/// The text without the white space at its two ends.
pub open spec fn trimmed(text: Seq<char>) -> Seq<char> {
    let start = skip_spaces(text, 0);
    text.subrange(start, trim_end(text, start, text.len() as int))
}

/// The first run of characters that are not white space; empty where the
/// text holds nothing else.
pub open spec fn first_word(text: Seq<char>) -> Seq<char> {
    let start = skip_spaces(text, 0);
    text.subrange(start, skip_word(text, start))
}

/// The run of characters that are not white space which begins at position
/// `index` of the sequence of such runs; empty where there are fewer runs.
pub open spec fn word_at(text: Seq<char>, index: nat, from: int) -> Seq<char>
    decreases index,
{
    let start = skip_spaces(text, from);
    if index == 0 {
        text.subrange(start, skip_word(text, start))
    } else {
        word_at(text, (index - 1) as nat, skip_word(text, start))
    }
}

/// Whether the text holds nothing but white space.
pub open spec fn is_blank(text: Seq<char>) -> bool {
    skip_spaces(text, 0) == text.len()
}

/// Whether `pattern` stands in `text` at position `at`.
pub open spec fn occurs_at(text: Seq<char>, pattern: Seq<char>, at: int) -> bool {
    0 <= at && at + pattern.len() <= text.len() && text.subrange(at, at + pattern.len())
        == pattern
}

/// Whether `pattern` stands somewhere in `text`.
pub open spec fn contains_text(text: Seq<char>, pattern: Seq<char>) -> bool {
    exists|at: int| occurs_at(text, pattern, at)
}

/// The first `len` characters of a text; all of it where it is shorter.
pub open spec fn leading(text: Seq<char>, len: int) -> Seq<char> {
    if 0 <= len <= text.len() {
        text.take(len)
    } else {
        text
    }
}

/// The characters of a string slice, one by one.
pub fn to_chars(text: &str) -> (chars: Vec<char>)
    ensures
        chars@ == text@,
{
    let mut chars: Vec<char> = Vec::new();
    for c in it: text.chars()
        invariant
            chars@ == it.seq().take(it.index() as int),
    {
        chars.push(c);
    }
    chars
}

/// Whether a character is white space.
pub fn is_space_char(c: char) -> (space: bool)
    ensures
        space == is_space(c),
{
    let v = c as u32;
    (0x09 <= v && v <= 0x0d) || v == 0x20 || v == 0x85 || v == 0xa0 || v == 0x1680 || (0x2000
        <= v && v <= 0x200a) || v == 0x2028 || v == 0x2029 || v == 0x202f || v == 0x205f || v
        == 0x3000
}

/// Finds the first position at or after `from` that holds `c`.
pub fn find_char_from(chars: &[char], c: char, from: usize) -> (at: usize)
    requires
        from <= chars@.len(),
    ensures
        at == find_char(chars@, c, from as int),
        from <= at <= chars@.len(),
        at < chars@.len() ==> chars@[at as int] == c,
{
    let mut i: usize = from;
    while i < chars.len()
        invariant
            from <= i <= chars@.len(),
            find_char(chars@, c, from as int) == find_char(chars@, c, i as int),
        decreases chars@.len() - i,
    {
        if chars[i] == c {
            return i;
        }
        i += 1;
    }
    i
}

/// Finds the first position at or after `from` that holds no white space.
pub fn skip_spaces_from(chars: &[char], from: usize) -> (at: usize)
    requires
        from <= chars@.len(),
    ensures
        at == skip_spaces(chars@, from as int),
        from <= at <= chars@.len(),
{
    let mut i: usize = from;
    while i < chars.len()
        invariant
            from <= i <= chars@.len(),
            skip_spaces(chars@, from as int) == skip_spaces(chars@, i as int),
        decreases chars@.len() - i,
    {
        if !is_space_char(chars[i]) {
            return i;
        }
        i += 1;
    }
    i
}

/// Finds the first position at or after `from` that holds white space.
pub fn skip_word_from(chars: &[char], from: usize) -> (at: usize)
    requires
        from <= chars@.len(),
    ensures
        at == skip_word(chars@, from as int),
        from <= at <= chars@.len(),
{
    let mut i: usize = from;
    while i < chars.len()
        invariant
            from <= i <= chars@.len(),
            skip_word(chars@, from as int) == skip_word(chars@, i as int),
        decreases chars@.len() - i,
    {
        if is_space_char(chars[i]) {
            return i;
        }
        i += 1;
    }
    i
}

/// Cuts the white space off the end of the characters from `from` on.
pub fn trim_end_from(chars: &[char], from: usize) -> (end: usize)
    requires
        from <= chars@.len(),
    ensures
        end == trim_end(chars@, from as int, chars@.len() as int),
        from <= end <= chars@.len(),
{
    let mut end: usize = chars.len();
    while end > from
        invariant
            from <= end <= chars@.len(),
            trim_end(chars@, from as int, chars@.len() as int) == trim_end(
                chars@,
                from as int,
                end as int,
            ),
        decreases end - from,
    {
        if !is_space_char(chars[end - 1]) {
            return end;
        }
        end -= 1;
    }
    end
}

/// Whether `pattern` stands somewhere among the characters.
pub fn contains_chars(chars: &[char], pattern: &[char]) -> (found: bool)
    ensures
        found == contains_text(chars@, pattern@),
{
    if pattern.len() > chars.len() {
        return false;
    }
    let total = chars.len();
    let last = total - pattern.len();
    let mut at: usize = 0;
    loop
        invariant
            at <= last,
            total == chars@.len(),
            last == chars@.len() - pattern@.len(),
            forall|k: int| 0 <= k < at ==> !occurs_at(chars@, pattern@, k),
        ensures
            at == last,
            forall|k: int| 0 <= k <= last ==> !occurs_at(chars@, pattern@, k),
        decreases last - at,
    {
        let mut j: usize = 0;
        while j < pattern.len() && chars[at + j] == pattern[j]
            invariant
                at <= last,
                total == chars@.len(),
                last == chars@.len() - pattern@.len(),
                j <= pattern@.len(),
                forall|k: int| 0 <= k < j ==> chars@[at + k] == pattern@[k],
            decreases pattern@.len() - j,
        {
            j += 1;
        }
        if j == pattern.len() {
            assert(chars@.subrange(at as int, at + pattern@.len()) =~= pattern@);
            assert(occurs_at(chars@, pattern@, at as int));
            return true;
        }
        if at == last {
            break;
        }
        at += 1;
    }
    false
}

} // verus!
