use vstd::prelude::*;

verus! {

/// The number of bytes that `c` takes in UTF-8.
pub open spec fn utf8_width(c: char) -> nat {
    if (c as u32) < 0x80 {
        1
    } else if (c as u32) < 0x800 {
        2
    } else if (c as u32) < 0x10000 {
        3
    } else {
        4
    }
}

/// The byte offset at which character `c` of `text` begins: the UTF-8 length of the first `c`
/// characters.
pub open spec fn byte_offset(text: Seq<char>, c: int) -> nat
    decreases c,
{
    if c <= 0 {
        0
    } else {
        byte_offset(text, c - 1) + utf8_width(text[c - 1])
    }
}

/// The UTF-8 length of the whole text.
pub open spec fn byte_len(text: Seq<char>) -> nat {
    byte_offset(text, text.len() as int)
}

/// The number of line feeds among the first `c` characters.
pub open spec fn newlines_before(text: Seq<char>, c: int) -> nat
    decreases c,
{
    if c <= 0 {
        0
    } else {
        newlines_before(text, c - 1) + if text[c - 1] == '\n' { 1nat } else { 0nat }
    }
}

/// The number of lines: one more than the number of line feeds, so a text that ends with a line
/// feed has an empty last line.
pub open spec fn line_count(text: Seq<char>) -> nat {
    newlines_before(text, text.len() as int) + 1
}

/// `s` is where line `l` begins: at the start of the text or right after a line feed, with `l`
/// line feeds before it.
pub open spec fn is_line_start(text: Seq<char>, l: int, s: int) -> bool {
    &&& 0 <= s <= text.len()
    &&& newlines_before(text, s) == l
    &&& (s == 0 || text[s - 1] == '\n')
}

/// `c` is the character that byte `b` belongs to, or one past the last character where `b` is
/// the length in bytes.
pub open spec fn is_char_of_byte(text: Seq<char>, b: int, c: int) -> bool {
    &&& 0 <= c <= text.len()
    &&& byte_offset(text, c) <= b
    &&& (c < text.len() ==> b < byte_offset(text, c + 1))
    &&& (c == text.len() ==> b == byte_len(text))
}

/// The White_Space characters of Unicode.
pub open spec fn is_whitespace(c: char) -> bool {
    let u = c as u32;
    (0x09 <= u <= 0x0D) || u == 0x20 || u == 0x85 || u == 0xA0 || u == 0x1680 || (0x2000 <= u
        <= 0x200A) || u == 0x2028 || u == 0x2029 || u == 0x202F || u == 0x205F || u == 0x3000
}

/// Whether `c` is a White_Space character.
pub fn char_is_whitespace(c: char) -> (b: bool)
    ensures
        b == is_whitespace(c),
{
    let u: u32 = c as u32;
    (0x09 <= u && u <= 0x0D) || u == 0x20 || u == 0x85 || u == 0xA0 || u == 0x1680 || (0x2000 <= u
        && u <= 0x200A) || u == 0x2028 || u == 0x2029 || u == 0x202F || u == 0x205F || u == 0x3000
}

/// The number of bytes that `c` takes in UTF-8.
pub fn char_utf8_width(c: char) -> (n: usize)
    ensures
        n == utf8_width(c),
        1 <= n <= 4,
{
    let u: u32 = c as u32;
    if u < 0x80 {
        1
    } else if u < 0x800 {
        2
    } else if u < 0x10000 {
        3
    } else {
        4
    }
}

/// Byte offsets grow with the character index, by at least one byte for each character.
pub proof fn lemma_byte_offset_monotonic(text: Seq<char>, i: int, j: int)
    requires
        0 <= i <= j,
    ensures
        byte_offset(text, i) + (j - i) <= byte_offset(text, j),
    decreases j - i,
{
    if i < j {
        lemma_byte_offset_monotonic(text, i, j - 1);
    }
}

/// A character takes at most four bytes.
pub proof fn lemma_byte_offset_bound(text: Seq<char>, i: int)
    requires
        0 <= i,
    ensures
        byte_offset(text, i) <= 4 * i,
    decreases i,
{
    if i > 0 {
        lemma_byte_offset_bound(text, i - 1);
    }
}

/// The count of line feeds before an index grows with the index, by at most one for each
/// character.
pub proof fn lemma_newlines_monotonic(text: Seq<char>, i: int, j: int)
    requires
        0 <= i <= j,
    ensures
        newlines_before(text, i) <= newlines_before(text, j) <= newlines_before(text, i) + (j - i),
    decreases j - i,
{
    if i < j {
        lemma_newlines_monotonic(text, i, j - 1);
    }
}

/// Byte offsets and line-feed counts of a prefix depend on that prefix alone.
pub proof fn lemma_prefix_measures(a: Seq<char>, b: Seq<char>, n: int)
    requires
        0 <= n <= a.len(),
        n <= b.len(),
        forall|i: int| 0 <= i < n ==> a[i] == b[i],
    ensures
        byte_offset(a, n) == byte_offset(b, n),
        newlines_before(a, n) == newlines_before(b, n),
    decreases n,
{
    if n > 0 {
        lemma_prefix_measures(a, b, n - 1);
    }
}

/// A line has one start.
pub proof fn lemma_line_start_unique(text: Seq<char>, l: int, s1: int, s2: int)
    requires
        is_line_start(text, l, s1),
        is_line_start(text, l, s2),
    ensures
        s1 == s2,
{
    if s1 < s2 {
        lemma_newlines_monotonic(text, s1, s2 - 1);
    } else if s2 < s1 {
        lemma_newlines_monotonic(text, s2, s1 - 1);
    }
}

/// A byte belongs to one character.
pub proof fn lemma_char_of_byte_unique(text: Seq<char>, b: int, c1: int, c2: int)
    requires
        is_char_of_byte(text, b, c1),
        is_char_of_byte(text, b, c2),
    ensures
        c1 == c2,
{
    if c1 < c2 {
        lemma_byte_offset_monotonic(text, c1 + 1, c2);
    } else if c2 < c1 {
        lemma_byte_offset_monotonic(text, c2 + 1, c1);
    }
}

/// Where line `l` begins, looking among the first `n` characters; meant for `l` no greater than
/// the number of line feeds among them.
pub open spec fn line_start_upto(text: Seq<char>, l: int, n: int) -> int
    decreases n,
{
    if n <= 0 {
        0
    } else if text[n - 1] == '\n' && newlines_before(text, n) == l {
        n
    } else {
        line_start_upto(text, l, n - 1)
    }
}

/// The character index at which line `l` begins; the length of the text for a line index beyond
/// the last line.
pub open spec fn line_start(text: Seq<char>, l: int) -> int {
    if l >= line_count(text) {
        text.len() as int
    } else {
        line_start_upto(text, l, text.len() as int)
    }
}

/// The number of characters of line `l` without its line feed; zero beyond the last line.
pub open spec fn line_content_len(text: Seq<char>, l: int) -> int {
    if l + 1 < line_count(text) {
        line_start(text, l + 1) - line_start(text, l) - 1
    } else if l < line_count(text) {
        text.len() - line_start(text, l)
    } else {
        0
    }
}

/// The greatest character index up to `n` whose byte offset is at most `b`.
pub open spec fn char_of_byte_upto(text: Seq<char>, b: int, n: int) -> int
    decreases n,
{
    if n <= 0 {
        0
    } else if byte_offset(text, n) <= b {
        n
    } else {
        char_of_byte_upto(text, b, n - 1)
    }
}

/// The index of the character that byte `b` belongs to.
pub open spec fn char_of_byte(text: Seq<char>, b: int) -> int {
    char_of_byte_upto(text, b, text.len() as int)
}

/// Among the first `n` characters every line that begins there has a start, and `line_start_upto`
/// gives it.
pub proof fn lemma_line_start_upto(text: Seq<char>, l: int, n: int)
    requires
        0 <= n <= text.len(),
        0 <= l <= newlines_before(text, n),
    ensures
        is_line_start(text, l, line_start_upto(text, l, n)),
        line_start_upto(text, l, n) <= n,
    decreases n,
{
    if n > 0 {
        if text[n - 1] == '\n' && newlines_before(text, n) == l {
        } else {
            lemma_line_start_upto(text, l, n - 1);
        }
    }
}

/// Every line of the text has a start, and `line_start` gives it.
pub proof fn lemma_line_start(text: Seq<char>, l: int)
    requires
        0 <= l < line_count(text),
    ensures
        is_line_start(text, l, line_start(text, l)),
{
    lemma_line_start_upto(text, l, text.len() as int);
}

/// The line that holds character `c` begins at or before `c`, and the next line, where there is
/// one, begins after it.
pub proof fn lemma_line_of_char(text: Seq<char>, c: int)
    requires
        0 <= c <= text.len(),
    ensures
        newlines_before(text, c) < line_count(text),
        0 <= line_start(text, newlines_before(text, c) as int) <= c,
        c - line_start(text, newlines_before(text, c) as int) <= line_content_len(
            text,
            newlines_before(text, c) as int,
        ),
{
    let l = newlines_before(text, c) as int;
    lemma_newlines_monotonic(text, c, text.len() as int);
    lemma_line_start(text, l);
    let s = line_start(text, l);
    if s > c {
        lemma_newlines_monotonic(text, c, s - 1);
    }
    if l + 1 < line_count(text) {
        lemma_line_start(text, l + 1);
        let s2 = line_start(text, l + 1);
        if s2 <= c {
            lemma_newlines_monotonic(text, s2, c);
        }
        if s2 <= s {
            lemma_newlines_monotonic(text, s2, s);
        }
    }
}

/// The character found for a byte begins at or before it, and the next one up to `n` begins after
/// it.
pub proof fn lemma_char_of_byte_upto(text: Seq<char>, b: int, n: int)
    requires
        0 <= n <= text.len(),
        0 <= b,
    ensures
        0 <= char_of_byte_upto(text, b, n) <= n,
        byte_offset(text, char_of_byte_upto(text, b, n)) <= b,
        char_of_byte_upto(text, b, n) < n ==> b < byte_offset(
            text,
            char_of_byte_upto(text, b, n) + 1,
        ),
    decreases n,
{
    if n > 0 && byte_offset(text, n) > b {
        lemma_char_of_byte_upto(text, b, n - 1);
    }
}

/// Every byte offset up to the length in bytes belongs to a character, and `char_of_byte`
/// gives it.
pub proof fn lemma_char_of_byte(text: Seq<char>, b: int)
    requires
        0 <= b <= byte_len(text),
    ensures
        is_char_of_byte(text, b, char_of_byte(text, b)),
{
    lemma_char_of_byte_upto(text, b, text.len() as int);
}

/// Whether a byte offset is where a character begins, or the end of the text.
pub open spec fn is_boundary(text: Seq<char>, b: int) -> bool {
    0 <= b <= byte_len(text) && byte_offset(text, char_of_byte(text, b)) == b
}

/// `ropey::Rope`, the text of a buffer. Nothing of its inside is known here: what is said of a
/// rope is said of `rope_text`.
#[verifier::external_type_specification]
#[verifier::external_body]
pub struct ExRope(ropey::Rope);

/// The characters that a rope holds, in order.
pub uninterp spec fn rope_text(rope: ropey::Rope) -> Seq<char>;

/// `ropey::Rope::from_str`: a rope that holds the characters of `s`.
#[verifier::external_body]
pub(crate) fn rope_from_str(s: &str) -> (rope: ropey::Rope)
    ensures
        rope_text(rope) == s@,
{
    ropey::Rope::from_str(s)
}

/// `Clone::clone` of `ropey::Rope`: a rope with the same characters.
#[verifier::external_body]
pub(crate) fn rope_clone(rope: &ropey::Rope) -> (copy: ropey::Rope)
    ensures
        rope_text(copy) == rope_text(*rope),
{
    rope.clone()
}

/// `Clone::clone` of `tree_sitter::Language`: the same grammar. The type is a handle that the
/// crate derives `Clone` and `Copy` for, so the copy is the value itself.
pub assume_specification[ <tree_sitter::Language as Clone>::clone ](
    language: &tree_sitter::Language,
) -> (copy: tree_sitter::Language)
    ensures
        copy == *language,
;

/// `ropey::Rope::len_chars`: the number of characters held.
#[verifier::external_body]
pub(crate) fn rope_len_chars(rope: &ropey::Rope) -> (n: usize)
    ensures
        n == rope_text(*rope).len(),
{
    rope.len_chars()
}

/// `ropey::Rope::len_bytes`: the length of the text in UTF-8.
#[verifier::external_body]
pub(crate) fn rope_len_bytes(rope: &ropey::Rope) -> (n: usize)
    ensures
        n == byte_len(rope_text(*rope)),
{
    rope.len_bytes()
}

/// `ropey::Rope::len_lines`: one more than the number of line breaks. The crate is built
/// without its features for other line breaks, so that it counts the line feed alone; a
/// carriage return is a character like any other.
#[verifier::external_body]
pub(crate) fn rope_len_lines(rope: &ropey::Rope) -> (n: usize)
    ensures
        n == line_count(rope_text(*rope)),
{
    rope.len_lines()
}

/// `ropey::Rope::try_char_to_byte`: the byte offset of a character index up to and including the
/// length; an error beyond it.
#[verifier::external_body]
pub(crate) fn rope_char_to_byte(rope: &ropey::Rope, char_idx: usize) -> (r: Option<usize>)
    ensures
        r.is_some() == (char_idx <= rope_text(*rope).len()),
        r matches Some(b) ==> b == byte_offset(rope_text(*rope), char_idx as int),
{
    rope.try_char_to_byte(char_idx).ok()
}

/// `ropey::Rope::try_byte_to_char`: the index of the character that a byte belongs to, for a byte
/// offset up to and including the length in bytes (which gives the length in characters); an
/// error beyond it.
#[verifier::external_body]
pub(crate) fn rope_byte_to_char(rope: &ropey::Rope, byte_idx: usize) -> (r: Option<usize>)
    ensures
        r.is_some() == (byte_idx <= byte_len(rope_text(*rope))),
        r matches Some(c) ==> is_char_of_byte(rope_text(*rope), byte_idx as int, c as int),
{
    rope.try_byte_to_char(byte_idx).ok()
}

/// `ropey::Rope::try_char_to_line`: the number of line breaks before a character index up to and
/// including the length; an error beyond it.
#[verifier::external_body]
pub(crate) fn rope_char_to_line(rope: &ropey::Rope, char_idx: usize) -> (r: Option<usize>)
    ensures
        r.is_some() == (char_idx <= rope_text(*rope).len()),
        r matches Some(l) ==> l == newlines_before(rope_text(*rope), char_idx as int),
{
    rope.try_char_to_line(char_idx).ok()
}

/// `ropey::Rope::try_line_to_char`: the character index at which a line begins; for the line
/// index one past the last line, the length in characters; an error beyond that.
#[verifier::external_body]
pub(crate) fn rope_line_to_char(rope: &ropey::Rope, line_idx: usize) -> (r: Option<usize>)
    ensures
        r.is_some() == (line_idx <= line_count(rope_text(*rope))),
        r matches Some(s) ==> if line_idx == line_count(rope_text(*rope)) {
            s == rope_text(*rope).len()
        } else {
            is_line_start(rope_text(*rope), line_idx as int, s as int)
        },
{
    rope.try_line_to_char(line_idx).ok()
}

/// `ropey::Rope::insert`: the characters of `s` put in at `char_idx`. The crate panics where
/// the index lies beyond the length.
#[verifier::external_body]
pub(crate) fn rope_insert(rope: &mut ropey::Rope, char_idx: usize, s: &str)
    requires
        char_idx <= rope_text(*old(rope)).len(),
    ensures
        rope_text(*final(rope)) == rope_text(*old(rope)).subrange(0, char_idx as int) + s@
            + rope_text(*old(rope)).subrange(char_idx as int, rope_text(*old(rope)).len() as int),
{
    rope.insert(char_idx, s)
}

/// `ropey::Rope::remove`: the characters from `start` up to `end` taken out. The crate panics
/// where the start lies after the end or the end beyond the length.
#[verifier::external_body]
pub(crate) fn rope_remove(rope: &mut ropey::Rope, start: usize, end: usize)
    requires
        start <= end <= rope_text(*old(rope)).len(),
    ensures
        rope_text(*final(rope)) == rope_text(*old(rope)).subrange(0, start as int) + rope_text(
            *old(rope),
        ).subrange(end as int, rope_text(*old(rope)).len() as int),
{
    rope.remove(start..end)
}

/// `ropey::Rope::slice`, made into a `String`: the characters from `start` up to `end`. The
/// crate panics where the start lies after the end or the end beyond the length.
#[verifier::external_body]
pub(crate) fn rope_slice(rope: &ropey::Rope, start: usize, end: usize) -> (s: String)
    requires
        start <= end <= rope_text(*rope).len(),
    ensures
        s@ == rope_text(*rope).subrange(start as int, end as int),
{
    rope.slice(start..end).to_string()
}

/// `ropey::Rope::chars`, collected: all characters in order.
#[verifier::external_body]
pub(crate) fn rope_chars(rope: &ropey::Rope) -> (v: Vec<char>)
    ensures
        v@ == rope_text(*rope),
{
    rope.chars().collect()
}


/// The characters of `s`, in order.
pub fn str_chars(s: &str) -> (v: Vec<char>)
    ensures
        v@ == s@,
{
    let mut v: Vec<char> = Vec::new();
    for c in it: s.chars()
        invariant
            v@ == it.seq().take(it.index()),
            it.seq() == s@,
    {
        v.push(c);
    }
    v
}

/// `String::from_iter` over characters: the string that holds them in order.
#[verifier::external_body]
pub(crate) fn string_from_chars(v: &Vec<char>) -> (s: String)
    ensures
        s@ == v@,
{
    String::from_iter(v.iter())
}

/// The number of white-space characters at the end of a text.
pub open spec fn trailing_blank(s: Seq<char>) -> int
    decreases s.len(),
{
    if s.len() == 0 || !is_whitespace(s.last()) {
        0
    } else {
        1 + trailing_blank(s.drop_last())
    }
}

/// The number of white-space characters at the start of a text.
pub open spec fn leading_blank_count(s: Seq<char>, from: int) -> int
    decreases s.len() - from,
{
    if from >= s.len() || !is_whitespace(s[from]) {
        0
    } else {
        1 + leading_blank_count(s, from + 1)
    }
}

/// A text without the white space at its ends.
pub open spec fn trim(s: Seq<char>) -> Seq<char> {
    let start = leading_blank_count(s, 0);
    if start >= s.len() {
        Seq::empty()
    } else {
        s.subrange(start, s.len() - trailing_blank(s))
    }
}

/// A text without the white space at its ends.
pub fn trimmed(s: &str) -> (r: String)
    ensures
        r@ == trim(s@),
{
    let chars: Vec<char> = str_chars(s);
    let mut start: usize = 0;
    while start < chars.len() && char_is_whitespace(chars[start])
        invariant
            start <= chars.len(),
            leading_blank_count(chars@, 0) == start + leading_blank_count(chars@, start as int),
        decreases chars.len() - start,
    {
        start += 1;
    }
    if start >= chars.len() {
        return String::new();
    }
    let mut end: usize = chars.len();
    assert(chars@.take(end as int) =~= chars@);
    assert(leading_blank_count(chars@, start as int) == 0);
    while end > start && char_is_whitespace(chars[end - 1])
        invariant
            start < end <= chars.len(),
            leading_blank_count(chars@, 0) == start,
            chars@ == s@,
            !is_whitespace(chars@[start as int]),
            trailing_blank(chars@) == (chars@.len() - end) + trailing_blank(chars@.take(end as int)),
        decreases end,
    {
        proof {
            assert(chars@.take(end as int).drop_last() =~= chars@.take(end - 1));
            assert(chars@.take(end as int).last() == chars@[end - 1]);
        }
        end -= 1;
    }
    proof {
        assert(chars@.take(end as int).last() == chars@[end - 1]);
        assert(trailing_blank(chars@.take(end as int)) == 0);
    }
    let mut kept: Vec<char> = Vec::new();
    let mut i: usize = start;
    while i < end
        invariant
            start <= i <= end <= chars.len(),
            kept@ == chars@.subrange(start as int, i as int),
            chars@ == s@,
        decreases end - i,
    {
        kept.push(chars[i]);
        assert(chars@.subrange(start as int, i + 1) =~= chars@.subrange(start as int, i as int).push(
            chars@[i as int],
        ));
        i += 1;
    }
    string_from_chars(&kept)
}

/// The digit that stands for a number below ten.
pub open spec fn digit(d: nat) -> char {
    if d == 0 {
        '0'
    } else if d == 1 {
        '1'
    } else if d == 2 {
        '2'
    } else if d == 3 {
        '3'
    } else if d == 4 {
        '4'
    } else if d == 5 {
        '5'
    } else if d == 6 {
        '6'
    } else if d == 7 {
        '7'
    } else if d == 8 {
        '8'
    } else {
        '9'
    }
}

/// A number written in decimal.
pub open spec fn decimal(n: nat) -> Seq<char>
    decreases n,
{
    if n < 10 {
        seq![digit(n)]
    } else {
        decimal(n / 10).push(digit(n % 10))
    }
}

/// The character for a decimal digit.
fn digit_char(d: usize) -> (c: char)
    requires
        d < 10,
    ensures
        c == digit(d as nat),
{
    if d == 0 {
        '0'
    } else if d == 1 {
        '1'
    } else if d == 2 {
        '2'
    } else if d == 3 {
        '3'
    } else if d == 4 {
        '4'
    } else if d == 5 {
        '5'
    } else if d == 6 {
        '6'
    } else if d == 7 {
        '7'
    } else if d == 8 {
        '8'
    } else {
        '9'
    }
}

/// A number written in decimal.
pub fn to_decimal(n: usize) -> (s: String)
    ensures
        s@ == decimal(n as nat),
{
    let mut reversed: Vec<char> = Vec::new();
    let mut rest: usize = n;
    while rest >= 10
        invariant
            decimal(n as nat) == decimal(rest as nat) + reversed@.reverse(),
        decreases rest,
    {
        let ghost before = reversed@;
        reversed.push(digit_char(rest % 10));
        proof {
            assert(reversed@.reverse() =~= seq![digit((rest % 10) as nat)] + before.reverse());
            assert(decimal(rest as nat) == decimal((rest / 10) as nat).push(digit((rest % 10) as nat)));
            assert(decimal((rest / 10) as nat).push(digit((rest % 10) as nat)) + before.reverse()
                =~= decimal((rest / 10) as nat) + reversed@.reverse());
        }
        rest = rest / 10;
    }
    let mut digits: Vec<char> = Vec::new();
    digits.push(digit_char(rest));
    let mut i: usize = reversed.len();
    while i > 0
        invariant
            i <= reversed.len(),
            digits@ == seq![digit(rest as nat)] + reversed@.reverse().take(reversed@.len() - i),
        decreases i,
    {
        digits.push(reversed[i - 1]);
        proof {
            let r = reversed@.reverse();
            assert(r[reversed@.len() - i] == reversed@[i - 1]);
            assert(r.take(reversed@.len() - i + 1) =~= r.take(reversed@.len() - i).push(
                reversed@[i - 1],
            ));
        }
        i -= 1;
    }
    proof {
        assert(reversed@.reverse().take(reversed@.len() as int) =~= reversed@.reverse());
    }
    string_from_chars(&digits)
}

} // verus!
