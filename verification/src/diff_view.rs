use vstd::prelude::*;

use crate::cell::Cell;
use crate::chars::{push_char, split_lines, str_chars, string_from_chars, string_views, text_lines};
use crate::frame::{Frame, write_in};
use crate::geometry::Rect;
use crate::style::Style;
use crate::viewport::ViewportState;

verus! {

/// `s` without trailing carriage returns.
pub open spec fn trim_trailing_cr(s: Seq<char>) -> Seq<char>
    decreases s.len(),
{
    if s.len() > 0 && s.last() == '\r' {
        trim_trailing_cr(s.drop_last())
    } else {
        s
    }
}

/// Whether `s` begins with `p`.
pub open spec fn starts_with(s: Seq<char>, p: Seq<char>) -> bool {
    s.len() >= p.len() && s.take(p.len() as int) == p
}

/// `char::is_whitespace`: the Unicode `White_Space` characters.
pub open spec fn whitespace(c: char) -> bool {
    let v = c as u32;
    (0x9 <= v && v <= 0xd) || v == 0x20 || v == 0x85 || v == 0xa0 || v == 0x1680 || (0x2000 <= v
        && v <= 0x200a) || v == 0x2028 || v == 0x2029 || v == 0x202f || v == 0x205f || v == 0x3000
}

/// The words found so far and the word in progress.
pub open spec fn word_scan(s: Seq<char>) -> (Seq<Seq<char>>, Seq<char>)
    decreases s.len(),
{
    if s.len() == 0 {
        (Seq::empty(), Seq::empty())
    } else {
        let (done, current) = word_scan(s.drop_last());
        if whitespace(s.last()) {
            if current.len() > 0 {
                (done.push(current), Seq::empty())
            } else {
                (done, current)
            }
        } else {
            (done, current.push(s.last()))
        }
    }
}

/// The whitespace-separated words of `s`, as `str::split_whitespace` yields them.
pub open spec fn words(s: Seq<char>) -> Seq<Seq<char>> {
    let (done, current) = word_scan(s);
    if current.len() > 0 {
        done.push(current)
    } else {
        done
    }
}

/// The first word from index `i` on that starts with `marker`.
pub open spec fn first_marked(ws: Seq<Seq<char>>, marker: char, i: int) -> Option<Seq<char>>
    decreases ws.len() - i,
{
    if i < 0 || i >= ws.len() {
        None
    } else if ws[i].len() > 0 && ws[i][0] == marker {
        Some(ws[i])
    } else {
        first_marked(ws, marker, i + 1)
    }
}

/// The part of `s` before its first comma (all of `s` without one).
pub open spec fn before_comma(s: Seq<char>) -> Seq<char>
    decreases s.len(),
{
    if s.len() == 0 {
        s
    } else if s[0] == ',' {
        Seq::empty()
    } else {
        seq![s[0]] + before_comma(s.skip(1))
    }
}

/// Whether every character is an ASCII digit.
pub open spec fn all_digits(s: Seq<char>) -> bool {
    forall|i: int| 0 <= i < s.len() ==> '0' <= #[trigger] s[i] && s[i] <= '9'
}

/// The number written by the decimal digits `s`.
pub open spec fn decimal_value(s: Seq<char>) -> nat
    decreases s.len(),
{
    if s.len() == 0 {
        0
    } else {
        decimal_value(s.drop_last()) * 10 + (s.last() as nat - '0' as nat) as nat
    }
}

/// `str::parse::<usize>`: an optional `+` and at least one decimal digit, with a value that
/// fits in `usize`.
pub open spec fn parse_usize(s: Seq<char>) -> Option<usize> {
    let digits = if s.len() > 0 && s[0] == '+' {
        s.skip(1)
    } else {
        s
    };
    if digits.len() > 0 && all_digits(digits) && decimal_value(digits) <= usize::MAX {
        Some(decimal_value(digits) as usize)
    } else {
        None
    }
}

/// The start line that a hunk header gives after `marker`: the first word starting with the
/// marker, without it, up to a comma, parsed as a positive number.
pub open spec fn hunk_start_spec(header: Seq<char>, marker: char) -> Option<usize> {
    match first_marked(words(header), marker, 0) {
        Some(word) => match parse_usize(before_comma(word.skip(1))) {
            Some(n) => if n > 0 {
                Some(n)
            } else {
                None
            },
            None => None,
        },
        None => None,
    }
}

/// Producer-supplied semantics for one unified-diff row.
#[derive(Clone, Copy, Debug, PartialEq, Eq, Structural)]
pub enum DiffLineKind {
    Header,
    Hunk,
    Context,
    Added,
    Deleted,
    Unknown,
}

/// A diff row as its kind, text, and old and new line numbers.
pub type DiffLineView = (DiffLineKind, Seq<char>, Option<usize>, Option<usize>);

/// The next line number (none past `usize::MAX`).
pub open spec fn next_number(n: Option<usize>) -> Option<usize> {
    match n {
        Some(v) => if v < usize::MAX {
            Some((v + 1) as usize)
        } else {
            None
        },
        None => None,
    }
}

/// Whether a row is a file header.
pub open spec fn is_header(content: Seq<char>) -> bool {
    starts_with(content, seq!['-', '-', '-', ' ']) || starts_with(content, seq!['+', '+', '+', ' '])
        || starts_with(content, seq!['d', 'i', 'f', 'f', ' ']) || starts_with(
        content,
        seq!['i', 'n', 'd', 'e', 'x', ' '],
    )
}

/// The row for `content`, and the old and new line numbers that follow it.
pub open spec fn diff_step(content: Seq<char>, old: Option<usize>, new: Option<usize>) -> (
    DiffLineView,
    Option<usize>,
    Option<usize>,
) {
    if starts_with(content, seq!['@', '@']) {
        (
            (DiffLineKind::Hunk, content, None, None),
            hunk_start_spec(content, '-'),
            hunk_start_spec(content, '+'),
        )
    } else if is_header(content) {
        ((DiffLineKind::Header, content, None, None), old, new)
    } else if content.len() > 0 && content[0] == ' ' {
        ((DiffLineKind::Context, content, old, new), next_number(old), next_number(new))
    } else if content.len() > 0 && content[0] == '-' {
        ((DiffLineKind::Deleted, content, old, None), next_number(old), new)
    } else if content.len() > 0 && content[0] == '+' {
        ((DiffLineKind::Added, content, None, new), old, next_number(new))
    } else {
        ((DiffLineKind::Unknown, content, None, None), old, new)
    }
}

/// The rows of `lines` and the line numbers after them.
pub open spec fn diff_scan(lines: Seq<Seq<char>>) -> (Seq<DiffLineView>, Option<usize>, Option<
    usize,
>)
    decreases lines.len(),
{
    if lines.len() == 0 {
        (Seq::empty(), None, None)
    } else {
        let (rows, old, new) = diff_scan(lines.drop_last());
        let (row, old2, new2) = diff_step(trim_trailing_cr(lines.last()), old, new);
        (rows.push(row), old2, new2)
    }
}

/// The rows of a unified diff: one per line of `input`, trailing carriage returns removed.
pub open spec fn parse_diff(input: Seq<char>) -> Seq<DiffLineView> {
    diff_scan(text_lines(input)).0
}

/// A read-only diff row with optional old/new source coordinates.
#[derive(Clone, Debug, PartialEq, Eq)]
pub struct DiffLine {
    kind: DiffLineKind,
    content: String,
    old_line: Option<usize>,
    new_line: Option<usize>,
}

impl DiffLine {
    pub closed spec fn spec_view(&self) -> DiffLineView {
        (self.kind, self.content@, self.old_line, self.new_line)
    }

    pub fn kind(&self) -> (r: DiffLineKind)
        ensures
            r == self.spec_view().0,
    {
        self.kind
    }

    pub fn content(&self) -> (r: &str)
        ensures
            r@ == self.spec_view().1,
    {
        self.content.as_str()
    }

    pub fn numbering(&self) -> (r: (Option<usize>, Option<usize>))
        ensures
            r == (self.spec_view().2, self.spec_view().3),
    {
        (self.old_line, self.new_line)
    }
}

/// The views of a list of rows.
pub open spec fn diff_views(lines: Seq<DiffLine>) -> Seq<DiffLineView> {
    lines.map_values(|l: DiffLine| l.spec_view())
}

/// Whether `c` is a whitespace character.
fn is_whitespace(c: char) -> (r: bool)
    ensures
        r == whitespace(c),
{
    let v = c as u32;
    (0x9 <= v && v <= 0xd) || v == 0x20 || v == 0x85 || v == 0xa0 || v == 0x1680 || (0x2000 <= v
        && v <= 0x200a) || v == 0x2028 || v == 0x2029 || v == 0x202f || v == 0x205f || v == 0x3000
}

/// The whitespace-separated words of `s`.
fn split_words(s: &Vec<char>) -> (r: Vec<Vec<char>>)
    ensures
        r@.map_values(|w: Vec<char>| w@) == words(s@),
{
    let mut done: Vec<Vec<char>> = Vec::new();
    let mut current: Vec<char> = Vec::new();
    let mut i: usize = 0;
    while i < s.len()
        invariant
            i <= s@.len(),
            (done@.map_values(|w: Vec<char>| w@), current@) == word_scan(s@.take(i as int)),
        decreases s@.len() - i,
    {
        proof {
            assert(s@.take(i + 1).drop_last() == s@.take(i as int));
            assert(s@.take(i + 1).last() == s@[i as int]);
        }
        let c = s[i];
        if is_whitespace(c) {
            if current.len() > 0 {
                let ghost before = done@;
                done.push(current);
                proof {
                    assert(done@.map_values(|w: Vec<char>| w@) =~= before.map_values(
                        |w: Vec<char>| w@,
                    ).push(done@.last()@));
                }
                current = Vec::new();
            }
        } else {
            current.push(c);
        }
        i = i + 1;
    }
    proof {
        assert(s@.take(s@.len() as int) == s@);
    }
    if current.len() > 0 {
        let ghost before = done@;
        done.push(current);
        proof {
            assert(done@.map_values(|w: Vec<char>| w@) =~= before.map_values(|w: Vec<char>| w@).push(
                done@.last()@,
            ));
        }
    }
    done
}

/// The characters of `s` before its first comma.
fn up_to_comma(s: &[char]) -> (r: Vec<char>)
    ensures
        r@ == before_comma(s@),
{
    let mut out: Vec<char> = Vec::new();
    let mut i: usize = 0;
    proof {
        assert(s@.skip(0) == s@);
        assert(s@.take(0) =~= Seq::<char>::empty());
    }
    while i < s.len() && s[i] != ','
        invariant
            i <= s@.len(),
            forall|k: int| 0 <= k < i ==> s@[k] != ',',
            out@ == s@.take(i as int),
            before_comma(s@) == out@ + before_comma(s@.skip(i as int)),
        decreases s@.len() - i,
    {
        proof {
            assert(s@.skip(i as int)[0] == s@[i as int]);
            assert(s@.skip(i as int).skip(1) == s@.skip(i + 1));
            assert(out@.push(s@[i as int]) == out@ + seq![s@[i as int]]);
        }
        out.push(s[i]);
        i = i + 1;
    }
    proof {
        if i < s@.len() {
            assert(s@.skip(i as int)[0] == ',');
        }
        assert(out@ + Seq::<char>::empty() == out@);
    }
    out
}

proof fn lemma_decimal_value_grows(s: Seq<char>, i: int)
    requires
        0 <= i <= s.len(),
        all_digits(s),
    ensures
        decimal_value(s.take(i)) <= decimal_value(s),
    decreases s.len() - i,
{
    if i < s.len() {
        lemma_decimal_value_grows(s, i + 1);
        assert(s.take(i + 1).drop_last() == s.take(i));
    } else {
        assert(s.take(i) == s);
    }
}

/// `str::parse::<usize>` on the characters `s`.
fn parse_number(s: &[char]) -> (r: Option<usize>)
    ensures
        r == parse_usize(s@),
{
    let start: usize = if s.len() > 0 && s[0] == '+' {
        1
    } else {
        0
    };
    let ghost digits = s@.skip(start as int);
    proof {
        assert(digits =~= (if s@.len() > 0 && s@[0] == '+' {
            s@.skip(1)
        } else {
            s@
        }));
        assert(digits.take(0) =~= Seq::<char>::empty());
    }
    if start >= s.len() {
        return None;
    }
    let mut value: usize = 0;
    let mut i: usize = start;
    while i < s.len()
        invariant
            start <= i <= s@.len(),
            digits == s@.skip(start as int),
            digits.len() == s@.len() - start,
            digits.len() > 0,
            digits == (if s@.len() > 0 && s@[0] == '+' {
                s@.skip(1)
            } else {
                s@
            }),
            all_digits(digits.take(i - start)),
            value == decimal_value(digits.take(i - start)),
        decreases s@.len() - i,
    {
        let c = s[i];
        proof {
            assert(digits.take(i - start + 1).drop_last() == digits.take(i - start));
            assert(digits.take(i - start + 1).last() == c);
        }
        if !('0' <= c && c <= '9') {
            proof {
                assert(!all_digits(digits)) by {
                    assert(digits[i - start] == c);
                }
            }
            return None;
        }
        let d = (c as u32 - '0' as u32) as usize;
        let next = match value.checked_mul(10) {
            Some(v) => v.checked_add(d),
            None => None,
        };
        match next {
            Some(v) => {
                value = v;
            },
            None => {
                proof {
                    assert(all_digits(digits.take(i - start + 1)));
                    if all_digits(digits) {
                        lemma_decimal_value_grows(digits, i - start + 1);
                    }
                }
                return None;
            },
        }
        i = i + 1;
    }
    proof {
        assert(digits.take(s@.len() - start) == digits);
    }
    Some(value)
}

/// The start line that a hunk header gives after `marker`.
fn hunk_start(header: &Vec<char>, marker: char) -> (r: Option<usize>)
    ensures
        r == hunk_start_spec(header@, marker),
{
    let ws = split_words(header);
    let ghost views = ws@.map_values(|w: Vec<char>| w@);
    let mut i: usize = 0;
    while i < ws.len()
        invariant
            i <= ws@.len(),
            views == ws@.map_values(|w: Vec<char>| w@),
            views == words(header@),
            first_marked(views, marker, 0) == first_marked(views, marker, i as int),
        decreases ws@.len() - i,
    {
        let w = &ws[i];
        proof {
            assert(views[i as int] == w@);
        }
        if w.len() > 0 && w[0] == marker {
            let rest = vstd::slice::slice_subrange(w.as_slice(), 1, w.len());
            proof {
                assert(rest@ == w@.skip(1));
            }
            let head = up_to_comma(rest);
            return match parse_number(head.as_slice()) {
                Some(n) => if n > 0 {
                    Some(n)
                } else {
                    None
                },
                None => None,
            };
        }
        i = i + 1;
    }
    None
}

/// Whether `s` starts with the characters of `p`.
fn has_prefix(s: &Vec<char>, p: &[char]) -> (r: bool)
    ensures
        r == starts_with(s@, p@),
{
    if s.len() < p.len() {
        return false;
    }
    let mut i: usize = 0;
    while i < p.len()
        invariant
            i <= p@.len() <= s@.len(),
            forall|k: int| 0 <= k < i ==> s@[k] == p@[k],
        decreases p@.len() - i,
    {
        if s[i] != p[i] {
            proof {
                assert(s@.take(p@.len() as int)[i as int] != p@[i as int]);
            }
            return false;
        }
        i = i + 1;
    }
    proof {
        assert(s@.take(p@.len() as int) =~= p@);
    }
    true
}

fn next_line_number(n: Option<usize>) -> (r: Option<usize>)
    ensures
        r == next_number(n),
{
    match n {
        Some(v) => v.checked_add(1),
        None => None,
    }
}

/// A parsed, read-only unified diff. Parsing is conservative: malformed hunks
/// retain their text but do not receive inferred source coordinates.
#[derive(Clone, Debug, PartialEq, Eq)]
pub struct DiffDocument {
    lines: Vec<DiffLine>,
}

impl DiffDocument {
    pub closed spec fn spec_lines(&self) -> Seq<DiffLineView> {
        diff_views(self.lines@)
    }

    /// A document with no rows.
    pub fn new() -> (r: Self)
        ensures
            r.spec_lines() == Seq::<DiffLineView>::empty(),
    {
        let r = DiffDocument { lines: Vec::new() };
        proof {
            assert(diff_views(r.lines@) =~= Seq::<DiffLineView>::empty());
        }
        r
    }

    /// Parses unified-diff text into rows, numbering context, added and deleted rows from the
    /// hunk headers.
    pub fn parse_unified(input: &str) -> (r: Self)
        ensures
            r.spec_lines() == parse_diff(input@),
    {
        let raw = split_lines(input);
        let ghost raw_views = string_views(raw@);
        let mut lines: Vec<DiffLine> = Vec::new();
        let mut old_line: Option<usize> = None;
        let mut new_line: Option<usize> = None;
        let mut i: usize = 0;
        while i < raw.len()
            invariant
                i <= raw@.len(),
                raw_views == string_views(raw@),
                raw_views == text_lines(input@),
                (diff_views(lines@), old_line, new_line) == diff_scan(raw_views.take(i as int)),
            decreases raw@.len() - i,
        {
            proof {
                assert(raw_views.take(i + 1).drop_last() == raw_views.take(i as int));
                assert(raw_views.take(i + 1).last() == raw@[i as int]@);
            }
            let mut chars = str_chars(raw[i].as_str());
            while chars.len() > 0 && chars[chars.len() - 1] == '\r'
                invariant
                    trim_trailing_cr(chars@) == trim_trailing_cr(raw@[i as int]@),
                decreases chars@.len(),
            {
                chars.pop();
            }
            let ghost content = chars@;
            proof {
                assert(content == trim_trailing_cr(raw@[i as int]@));
            }
            let text = string_from_chars(chars.as_slice());
            let (kind, row_old, row_new) = if has_prefix(&chars, &['@', '@']) {
                old_line = hunk_start(&chars, '-');
                new_line = hunk_start(&chars, '+');
                (DiffLineKind::Hunk, None, None)
            } else if has_prefix(&chars, &['-', '-', '-', ' ']) || has_prefix(
                &chars,
                &['+', '+', '+', ' '],
            ) || has_prefix(&chars, &['d', 'i', 'f', 'f', ' ']) || has_prefix(
                &chars,
                &['i', 'n', 'd', 'e', 'x', ' '],
            ) {
                (DiffLineKind::Header, None, None)
            } else if chars.len() > 0 && chars[0] == ' ' {
                let numbering = (old_line, new_line);
                old_line = next_line_number(old_line);
                new_line = next_line_number(new_line);
                (DiffLineKind::Context, numbering.0, numbering.1)
            } else if chars.len() > 0 && chars[0] == '-' {
                let numbering = old_line;
                old_line = next_line_number(old_line);
                (DiffLineKind::Deleted, numbering, None)
            } else if chars.len() > 0 && chars[0] == '+' {
                let numbering = new_line;
                new_line = next_line_number(new_line);
                (DiffLineKind::Added, None, numbering)
            } else {
                (DiffLineKind::Unknown, None, None)
            };
            let ghost before = lines@;
            lines.push(DiffLine { kind, content: text, old_line: row_old, new_line: row_new });
            proof {
                assert(diff_views(lines@) =~= diff_views(before).push(lines@.last().spec_view()));
            }
            i = i + 1;
        }
        proof {
            assert(raw_views.take(raw@.len() as int) == raw_views);
        }
        DiffDocument { lines }
    }

    pub fn lines(&self) -> (r: &[DiffLine])
        ensures
            diff_views(r@) == self.spec_lines(),
    {
        self.lines.as_slice()
    }

    pub fn is_empty(&self) -> (r: bool)
        ensures
            r == (self.spec_lines().len() == 0),
    {
        self.lines.len() == 0
    }
}

impl Default for DiffDocument {
    fn default() -> (r: Self)
        ensures
            r.spec_lines() == Seq::<DiffLineView>::empty(),
    {
        DiffDocument::new()
    }
}

/// The character of decimal digit `d`.
pub open spec fn digit_char(d: int) -> char {
    ('0' as int + d) as char
}

/// The decimal digits of `n`, without leading zeros.
pub open spec fn decimal(n: nat) -> Seq<char>
    decreases n,
{
    if n < 10 {
        seq![digit_char(n as int)]
    } else {
        decimal(n / 10).push(digit_char((n % 10) as int))
    }
}

/// `s` right-aligned in `width` columns with leading spaces.
pub open spec fn pad_left(s: Seq<char>, width: int) -> Seq<char> {
    if s.len() < width {
        Seq::new((width - s.len()) as nat, |i: int| ' ') + s
    } else {
        s
    }
}

/// Digits needed for an optional line number (none for an absent one).
pub open spec fn number_digits(n: Option<usize>) -> int {
    match n {
        Some(v) => decimal(v as nat).len() as int,
        None => 0,
    }
}

/// The gutter width: the most digits of any line number, at least one.
pub open spec fn numbers_width(lines: Seq<DiffLineView>) -> int
    decreases lines.len(),
{
    if lines.len() == 0 {
        1
    } else {
        let prev = numbers_width(lines.drop_last());
        let a = number_digits(lines.last().2);
        let b = number_digits(lines.last().3);
        let m = if a > b {
            a
        } else {
            b
        };
        if m > prev {
            m
        } else {
            prev
        }
    }
}

/// Appends the decimal digits of `n` to `out`.
pub(crate) fn push_decimal(out: &mut String, n: usize)
    ensures
        final(out)@ == old(out)@ + decimal(n as nat),
    decreases n,
{
    if n >= 10 {
        push_decimal(out, n / 10);
    }
    let d = (n % 10) as u32;
    let c = if d == 0 {
        '0'
    } else if d == 1 {
        '1'
    } else if d == 2 {
        '2'
    } else if d == 3 {
        '3'
    } else if d == 4 {
        '4'
    } else if d == 5 {
        '5'
    } else if d == 6 {
        '6'
    } else if d == 7 {
        '7'
    } else if d == 8 {
        '8'
    } else {
        '9'
    };
    push_char(out, c);
}

/// The decimal digits of `n` fit in twenty characters.
proof fn lemma_decimal_len(n: nat)
    ensures
        1 <= decimal(n).len(),
        n <= usize::MAX ==> decimal(n).len() <= 20,
    decreases n,
{
    if n >= 10 {
        lemma_decimal_len(n / 10);
        if n <= usize::MAX {
            if n / 10 >= 10 {
                lemma_decimal_len_bound(n);
            }
        }
    }
}

proof fn lemma_decimal_len_bound(n: nat)
    requires
        n <= 0xffff_ffff_ffff_ffff,
    ensures
        decimal(n).len() <= 20,
{
    reveal_with_fuel(pow10, 21);
    assert(pow10(20) == 100_000_000_000_000_000_000nat);
    lemma_decimal_len_pow(n, 0xffff_ffff_ffff_ffff, 20);
}

/// Numbers below `10^k` (bounded by `limit`) have at most `k` digits.
proof fn lemma_decimal_len_pow(n: nat, limit: nat, k: nat)
    requires
        n <= limit,
        limit < pow10(k),
        k >= 1,
    ensures
        decimal(n).len() <= k,
    decreases k,
{
    if n >= 10 {
        assert(pow10(k) == 10 * pow10((k - 1) as nat));
        assert(n / 10 < pow10((k - 1) as nat));
        if k == 1 {
            assert(pow10(0) == 1);
        }
        lemma_decimal_len_pow(n / 10, n / 10, (k - 1) as nat);
    }
}

/// `10^k`.
pub open spec fn pow10(k: nat) -> nat
    decreases k,
{
    if k == 0 {
        1
    } else {
        10 * pow10((k - 1) as nat)
    }
}

/// Number of decimal digits of `n`.
pub(crate) fn decimal_width(n: usize) -> (r: usize)
    ensures
        r == decimal(n as nat).len(),
        1 <= r <= 20,
{
    let mut s = String::new();
    push_decimal(&mut s, n);
    proof {
        lemma_decimal_len(n as nat);
        assert(s@ =~= decimal(n as nat));
    }
    s.as_str().unicode_len()
}

/// `n` in decimal, right-aligned in `width` columns.
pub(crate) fn padded_number(n: usize, width: usize) -> (r: String)
    ensures
        r@ == pad_left(decimal(n as nat), width as int),
{
    let len = decimal_width(n);
    let mut s = String::new();
    let mut i: usize = len;
    proof {
        assert(s@ =~= Seq::new(0, |k: int| ' '));
    }
    while i < width
        invariant
            len <= i,
            i <= width || len >= width,
            len >= width ==> i == len,
            s@ == Seq::new((i - len) as nat, |k: int| ' '),
        decreases width - i,
    {
        push_char(&mut s, ' ');
        proof {
            assert(s@ =~= Seq::new((i + 1 - len) as nat, |k: int| ' '));
        }
        i = i + 1;
    }
    let ghost spaces = s@;
    push_decimal(&mut s, n);
    proof {
        if len >= width {
            assert(spaces =~= Seq::<char>::empty());
            assert(s@ =~= decimal(n as nat));
        }
    }
    s
}

/// Application-supplied presentation for each explicit diff line kind.
#[derive(Clone, Copy, Debug, PartialEq, Eq, Structural)]
pub struct DiffStyles {
    pub header: Style,
    pub hunk: Style,
    pub context: Style,
    pub added: Style,
    pub deleted: Style,
    pub gutter: Style,
}

impl DiffStyles {
    /// The style of a row of `kind` (unknown rows look like context).
    pub open spec fn spec_line_style(self, kind: DiffLineKind) -> Style {
        match kind {
            DiffLineKind::Header => self.header,
            DiffLineKind::Hunk => self.hunk,
            DiffLineKind::Context | DiffLineKind::Unknown => self.context,
            DiffLineKind::Added => self.added,
            DiffLineKind::Deleted => self.deleted,
        }
    }

    fn line_style(self, kind: DiffLineKind) -> (r: Style)
        ensures
            r == self.spec_line_style(kind),
    {
        match kind {
            DiffLineKind::Header => self.header,
            DiffLineKind::Hunk => self.hunk,
            DiffLineKind::Context | DiffLineKind::Unknown => self.context,
            DiffLineKind::Added => self.added,
            DiffLineKind::Deleted => self.deleted,
        }
    }
}

/// Cells after drawing one diff row at `row` of `rect`: the old number, the new number, then
/// the text.
pub open spec fn diff_row_cells(
    cells: Seq<Cell>,
    w: int,
    h: int,
    rect: Rect,
    line: DiffLineView,
    width: int,
    styles: DiffStyles,
    row: int,
) -> Seq<Cell> {
    let c1 = match line.2 {
        Some(n) => write_in(
            cells,
            w,
            h,
            rect,
            0,
            row,
            pad_left(decimal(n as nat), width),
            styles.gutter,
        ).0,
        None => cells,
    };
    let c2 = match line.3 {
        Some(n) => write_in(
            c1,
            w,
            h,
            rect,
            width + 1,
            row,
            pad_left(decimal(n as nat), width),
            styles.gutter,
        ).0,
        None => c1,
    };
    write_in(c2, w, h, rect, 2 * width + 2, row, line.1, styles.spec_line_style(line.0)).0
}

/// Cells after drawing rows `start..start + count` of `lines` at the top of `rect`.
pub open spec fn diff_rows_cells(
    cells: Seq<Cell>,
    w: int,
    h: int,
    rect: Rect,
    lines: Seq<DiffLineView>,
    start: int,
    count: int,
    width: int,
    styles: DiffStyles,
) -> Seq<Cell>
    decreases count,
{
    if count <= 0 {
        cells
    } else {
        diff_row_cells(
            diff_rows_cells(cells, w, h, rect, lines, start, count - 1, width, styles),
            w,
            h,
            rect,
            lines[start + count - 1],
            width,
            styles,
            count - 1,
        )
    }
}

/// Stateless unified-diff rendering over a caller-owned vertical viewport.
pub struct DiffViewer<'a> {
    document: &'a DiffDocument,
}

impl<'a> DiffViewer<'a> {
    pub closed spec fn spec_document(&self) -> DiffDocument {
        *self.document
    }

    pub fn new(document: &'a DiffDocument) -> (r: Self)
        ensures
            r.spec_document() == *document,
    {
        DiffViewer { document }
    }

    /// The gutter width for `lines`.
    fn gutter_width(lines: &Vec<DiffLine>) -> (r: usize)
        ensures
            r == numbers_width(diff_views(lines@)),
            1 <= r <= 20,
    {
        let mut width: usize = 1;
        let mut i: usize = 0;
        while i < lines.len()
            invariant
                i <= lines@.len(),
                1 <= width <= 20,
                width == numbers_width(diff_views(lines@.take(i as int))),
            decreases lines@.len() - i,
        {
            proof {
                assert(diff_views(lines@.take(i + 1)).drop_last() =~= diff_views(
                    lines@.take(i as int),
                ));
                assert(diff_views(lines@.take(i + 1)).last() == lines@[i as int].spec_view());
            }
            let a = match lines[i].old_line {
                Some(n) => decimal_width(n),
                None => 0,
            };
            let b = match lines[i].new_line {
                Some(n) => decimal_width(n),
                None => 0,
            };
            let m = if a > b {
                a
            } else {
                b
            };
            if m > width {
                width = m;
            }
            i = i + 1;
        }
        proof {
            assert(lines@.take(lines@.len() as int) == lines@);
        }
        width
    }

    /// Sizes the viewport to the rows, then draws the rows in view with right-aligned old and
    /// new line numbers before each row's text; an empty document shows "(empty diff)".
    pub fn render(
        &self,
        frame: &mut Frame,
        rect: Rect,
        viewport: &mut ViewportState,
        styles: DiffStyles,
    )
        requires
            old(frame).wf(),
        ensures
            final(frame).wf(),
            final(frame).same_size(old(frame)),
            final(viewport).wf(),
            final(viewport).spec_initialized(),
            (
                final(viewport).spec_offset() as int,
                final(viewport).spec_content_height() as int,
                final(viewport).spec_viewport_height() as int,
            ) == old(viewport).updated(
                self.spec_document().spec_lines().len() as int,
                rect.height as int,
            ),
            rect.width == 0 || rect.height == 0 ==> *final(frame) == *old(frame),
            rect.width > 0 && rect.height > 0 && self.spec_document().spec_lines().len() == 0
                ==> final(frame).spec_buffer().cells() == write_in(
                old(frame).spec_buffer().cells(),
                old(frame).spec_width() as int,
                old(frame).spec_height() as int,
                rect,
                0,
                0,
                "(empty diff)"@,
                styles.context,
            ).0,
            rect.width > 0 && rect.height > 0 && self.spec_document().spec_lines().len() > 0 ==> {
                let lines = self.spec_document().spec_lines();
                let start = final(viewport).spec_offset() as int;
                let end = if start + rect.height <= lines.len() {
                    start + rect.height
                } else {
                    lines.len() as int
                };
                final(frame).spec_buffer().cells() == diff_rows_cells(
                    old(frame).spec_buffer().cells(),
                    old(frame).spec_width() as int,
                    old(frame).spec_height() as int,
                    rect,
                    lines,
                    start,
                    end - start,
                    numbers_width(lines),
                    styles,
                )
            },
    {
        let lines = &self.document.lines;
        viewport.update_dimensions(lines.len(), rect.height);
        if rect.width == 0 || rect.height == 0 {
            return;
        }
        if lines.len() == 0 {
            frame.write_text_in(rect, 0, 0, "(empty diff)", styles.context);
            return;
        }
        let number_width = Self::gutter_width(lines);
        let nw = number_width as u16;
        let new_number_x = nw + 1;
        let content_x = nw * 2 + 2;
        let start = viewport.offset();
        let len = lines.len();
        let h = rect.height as usize;
        let end = if h <= len - start {
            start + h
        } else {
            len
        };
        let ghost views = diff_views(lines@);
        let ghost cells0 = old(frame).spec_buffer().cells();
        let ghost fw = old(frame).spec_width() as int;
        let ghost fh = old(frame).spec_height() as int;
        let mut k: usize = 0;
        while k < end - start
            invariant
                start <= end <= len == lines@.len(),
                end - start <= h == rect.height,
                k <= end - start,
                views == diff_views(lines@),
                number_width == numbers_width(views),
                1 <= number_width <= 20,
                nw == number_width,
                new_number_x == nw + 1,
                content_x == 2 * nw + 2,
                frame.wf(),
                frame.same_size(old(frame)),
                cells0 == old(frame).spec_buffer().cells(),
                fw == old(frame).spec_width(),
                fh == old(frame).spec_height(),
                frame.spec_buffer().cells() == diff_rows_cells(
                    cells0,
                    fw,
                    fh,
                    rect,
                    views,
                    start as int,
                    k as int,
                    number_width as int,
                    styles,
                ),
            decreases end - start - k,
        {
            let line = &lines[start + k];
            let row = k as u16;
            proof {
                assert(views[start + k] == line.spec_view());
            }
            match line.old_line {
                Some(n) => {
                    let text = padded_number(n, number_width);
                    frame.write_text_in(rect, 0, row, text.as_str(), styles.gutter);
                },
                None => {},
            }
            match line.new_line {
                Some(n) => {
                    let text = padded_number(n, number_width);
                    frame.write_text_in(rect, new_number_x, row, text.as_str(), styles.gutter);
                },
                None => {},
            }
            frame.write_text_in(
                rect,
                content_x,
                row,
                line.content.as_str(),
                styles.line_style(line.kind),
            );
            k = k + 1;
        }
    }
}


/// Parsing yields exactly one row per input line, each holding that line without trailing
/// carriage returns.
pub proof fn lemma_one_row_per_line(lines: Seq<Seq<char>>)
    ensures
        diff_scan(lines).0.len() == lines.len(),
        forall|i: int| 0 <= i < lines.len() ==> #[trigger] diff_scan(lines).0[i].1 == trim_trailing_cr(lines[i]),
    decreases lines.len(),
{
    if lines.len() > 0 {
        lemma_one_row_per_line(lines.drop_last());
        assert forall|i: int| 0 <= i < lines.len() implies #[trigger] diff_scan(lines).0[i].1
            == trim_trailing_cr(lines[i]) by {
            if i < lines.len() - 1 {
                assert(lines.drop_last()[i] == lines[i]);
            }
        }
    }
}

/// Scanning a prefix of the lines gives the matching prefix of the rows.
proof fn lemma_scan_prefix(lines: Seq<Seq<char>>, j: int)
    requires
        0 <= j <= lines.len(),
    ensures
        diff_scan(lines.take(j)).0 == diff_scan(lines).0.take(j),
    decreases lines.len(),
{
    lemma_one_row_per_line(lines);
    if j == lines.len() {
        assert(lines.take(j) == lines);
        assert(diff_scan(lines).0.take(j) == diff_scan(lines).0);
    } else {
        lemma_one_row_per_line(lines.drop_last());
        assert(lines.drop_last().take(j) == lines.take(j));
        lemma_scan_prefix(lines.drop_last(), j);
        assert(diff_scan(lines).0.take(j) =~= diff_scan(lines.drop_last()).0.take(j));
    }
}

/// Row `k` is the step on line `k` from the line numbers reached after the rows before it, and
/// the numbers after it are that step's.
proof fn lemma_scan_row(lines: Seq<Seq<char>>, k: int)
    requires
        0 <= k < lines.len(),
    ensures
        ({
            let before = diff_scan(lines.take(k));
            let step = diff_step(trim_trailing_cr(lines[k]), before.1, before.2);
            &&& diff_scan(lines).0[k] == step.0
            &&& diff_scan(lines.take(k + 1)).1 == step.1
        }),
{
    assert(lines.take(k + 1).drop_last() == lines.take(k));
    assert(lines.take(k + 1).last() == lines[k]);
    lemma_scan_prefix(lines, k + 1);
    lemma_one_row_per_line(lines);
    lemma_one_row_per_line(lines.take(k));
    assert(diff_scan(lines).0[k] == diff_scan(lines).0.take(k + 1)[k]);
}

/// After a numbered context or deleted row, the old-side line numbers keep counting until a row
/// that takes one: every row up to `m` with no old-side number leaves the count at `n + 1`.
proof fn lemma_old_count_carries(lines: Seq<Seq<char>>, i: int, m: int, n: usize)
    requires
        0 <= i < m <= lines.len(),
        diff_scan(lines).0[i].0 == DiffLineKind::Context || diff_scan(lines).0[i].0
            == DiffLineKind::Deleted,
        diff_scan(lines).0[i].2 == Some(n),
        n < usize::MAX,
        forall|p: int|
            i < p < m ==> (#[trigger] diff_scan(lines).0[p]).0 != DiffLineKind::Hunk
                && diff_scan(lines).0[p].0 != DiffLineKind::Context && diff_scan(lines).0[p].0
                != DiffLineKind::Deleted,
    ensures
        diff_scan(lines.take(m)).1 == Some((n + 1) as usize),
    decreases m - i,
{
    if m == i + 1 {
        lemma_scan_row(lines, i);
    } else {
        lemma_old_count_carries(lines, i, m - 1, n);
        lemma_scan_row(lines, m - 1);
        assert(diff_scan(lines).0[m - 1].0 != DiffLineKind::Hunk);
    }
}

/// In a parsed diff, a context or deleted row numbered `n` on the old side uses up old line
/// `n`: the next row numbered on the old side (context or deleted), with no hunk header
/// between them, is numbered `n + 1`. Added, header and unknown rows in between take no old
/// line.
pub proof fn lemma_old_line_consumed(input: Seq<char>, i: int, j: int)
    requires
        0 <= i < j < parse_diff(input).len(),
        parse_diff(input)[i].0 == DiffLineKind::Context || parse_diff(input)[i].0
            == DiffLineKind::Deleted,
        parse_diff(input)[i].2 is Some,
        parse_diff(input)[i].2.unwrap() < usize::MAX,
        parse_diff(input)[j].0 == DiffLineKind::Context || parse_diff(input)[j].0
            == DiffLineKind::Deleted,
        forall|p: int|
            i < p < j ==> (#[trigger] parse_diff(input)[p]).0 != DiffLineKind::Hunk
                && parse_diff(input)[p].0 != DiffLineKind::Context && parse_diff(input)[p].0
                != DiffLineKind::Deleted,
    ensures
        parse_diff(input)[j].2 == Some((parse_diff(input)[i].2.unwrap() + 1) as usize),
{
    let lines = text_lines(input);
    lemma_one_row_per_line(lines);
    lemma_old_count_carries(lines, i, j, parse_diff(input)[i].2.unwrap());
    lemma_scan_row(lines, j);
}

/// After a numbered context or added row, the new-side line numbers keep counting until a row
/// that takes one: every row up to `m` with no new-side number leaves the count at `n + 1`.
proof fn lemma_new_count_carries(lines: Seq<Seq<char>>, i: int, m: int, n: usize)
    requires
        0 <= i < m <= lines.len(),
        diff_scan(lines).0[i].0 == DiffLineKind::Context || diff_scan(lines).0[i].0
            == DiffLineKind::Added,
        diff_scan(lines).0[i].3 == Some(n),
        n < usize::MAX,
        forall|p: int|
            i < p < m ==> (#[trigger] diff_scan(lines).0[p]).0 != DiffLineKind::Hunk
                && diff_scan(lines).0[p].0 != DiffLineKind::Context && diff_scan(lines).0[p].0
                != DiffLineKind::Added,
    ensures
        diff_scan(lines.take(m)).2 == Some((n + 1) as usize),
    decreases m - i,
{
    if m == i + 1 {
        lemma_scan_row_new(lines, i);
    } else {
        lemma_new_count_carries(lines, i, m - 1, n);
        lemma_scan_row_new(lines, m - 1);
        assert(diff_scan(lines).0[m - 1].0 != DiffLineKind::Hunk);
    }
}

/// Row `k` is the step on line `k`, and the new-side number after it is that step's.
proof fn lemma_scan_row_new(lines: Seq<Seq<char>>, k: int)
    requires
        0 <= k < lines.len(),
    ensures
        ({
            let before = diff_scan(lines.take(k));
            let step = diff_step(trim_trailing_cr(lines[k]), before.1, before.2);
            &&& diff_scan(lines).0[k] == step.0
            &&& diff_scan(lines.take(k + 1)).2 == step.2
        }),
{
    lemma_scan_row(lines, k);
    assert(lines.take(k + 1).drop_last() == lines.take(k));
    assert(lines.take(k + 1).last() == lines[k]);
}

/// In a parsed diff, a context or added row numbered `n` on the new side uses up new line `n`:
/// the next row numbered on the new side (context or added), with no hunk header between
/// them, is numbered `n + 1`. Deleted, header and unknown rows in between take no new line.
pub proof fn lemma_new_line_consumed(input: Seq<char>, i: int, j: int)
    requires
        0 <= i < j < parse_diff(input).len(),
        parse_diff(input)[i].0 == DiffLineKind::Context || parse_diff(input)[i].0
            == DiffLineKind::Added,
        parse_diff(input)[i].3 is Some,
        parse_diff(input)[i].3.unwrap() < usize::MAX,
        parse_diff(input)[j].0 == DiffLineKind::Context || parse_diff(input)[j].0
            == DiffLineKind::Added,
        forall|p: int|
            i < p < j ==> (#[trigger] parse_diff(input)[p]).0 != DiffLineKind::Hunk
                && parse_diff(input)[p].0 != DiffLineKind::Context && parse_diff(input)[p].0
                != DiffLineKind::Added,
    ensures
        parse_diff(input)[j].3 == Some((parse_diff(input)[i].3.unwrap() + 1) as usize),
{
    let lines = text_lines(input);
    lemma_one_row_per_line(lines);
    lemma_new_count_carries(lines, i, j, parse_diff(input)[i].3.unwrap());
    lemma_scan_row_new(lines, j);
}

/// Each parsed row carries the line numbers its kind has: context rows number both sides,
/// deleted rows only the old side, added rows only the new side, and header, hunk and unknown
/// rows neither.
pub proof fn lemma_row_sides(input: Seq<char>, i: int)
    requires
        0 <= i < parse_diff(input).len(),
    ensures
        ({
            let row = parse_diff(input)[i];
            &&& row.0 == DiffLineKind::Deleted ==> row.3 is None
            &&& row.0 == DiffLineKind::Added ==> row.2 is None
            &&& (row.0 == DiffLineKind::Header || row.0 == DiffLineKind::Hunk || row.0
                == DiffLineKind::Unknown) ==> row.2 is None && row.3 is None
            &&& row.0 == DiffLineKind::Deleted ==> row.1.len() > 0 && row.1[0] == '-'
            &&& row.0 == DiffLineKind::Added ==> row.1.len() > 0 && row.1[0] == '+'
            &&& row.0 == DiffLineKind::Context ==> row.1.len() > 0 && row.1[0] == ' '
        }),
{
    let lines = text_lines(input);
    lemma_one_row_per_line(lines);
    lemma_scan_row(lines, i);
}

} // verus!
