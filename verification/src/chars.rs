use vstd::prelude::*;
use vstd::slice::slice_subrange;

verus! {

/// The characters of `s`, in order.
pub fn str_chars(s: &str) -> (v: Vec<char>)
    ensures
        v@ == s@,
{
    let mut v: Vec<char> = Vec::new();
    for c in it: s.chars()
        invariant
            v@ == it.seq().take(it.index() as int),
    {
        v.push(c);
    }
    v
}

} // verus!

verus! {

/// Calls `String::push`, which appends one character to the string.
#[verifier::external_body]
pub(crate) fn push_char(s: &mut String, c: char)
    ensures
        final(s)@ == old(s)@.push(c),
{
    s.push(c);
}

/// A string holding exactly the given characters.
pub fn string_from_chars(v: &[char]) -> (s: String)
    ensures
        s@ == v@,
{
    let mut s = String::new();
    let mut i: usize = 0;
    while i < v.len()
        invariant
            i <= v@.len(),
            s@ == v@.take(i as int),
        decreases v@.len() - i,
    {
        push_char(&mut s, v[i]);
        assert(v@.take(i + 1) == v@.take(i as int).push(v@[i as int]));
        i = i + 1;
    }
    assert(v@.take(v@.len() as int) == v@);
    s
}

} // verus!

verus! {

/// `line` without one trailing carriage return.
pub open spec fn strip_cr(line: Seq<char>) -> Seq<char> {
    if line.len() > 0 && line.last() == '\r' {
        line.drop_last()
    } else {
        line
    }
}

/// The finished lines and the line in progress after reading `s`.
pub open spec fn line_scan(s: Seq<char>) -> (Seq<Seq<char>>, Seq<char>)
    decreases s.len(),
{
    if s.len() == 0 {
        (Seq::empty(), Seq::empty())
    } else {
        let (done, current) = line_scan(s.drop_last());
        if s.last() == '\n' {
            (done.push(strip_cr(current)), Seq::empty())
        } else {
            (done, current.push(s.last()))
        }
    }
}

/// The lines of `s` as `str::lines` yields them: split at `\n` or `\r\n`, with no empty
/// line after a final line ending.
pub open spec fn text_lines(s: Seq<char>) -> Seq<Seq<char>> {
    let (done, current) = line_scan(s);
    if current.len() > 0 {
        done.push(current)
    } else {
        done
    }
}

/// The character sequences of a list of strings.
pub open spec fn string_views(v: Seq<String>) -> Seq<Seq<char>> {
    v.map_values(|s: String| s@)
}

/// The lines of `s`, split as [`text_lines`] describes.
pub fn split_lines(s: &str) -> (lines: Vec<String>)
    ensures
        string_views(lines@) == text_lines(s@),
{
    let chars = str_chars(s);
    let mut lines: Vec<String> = Vec::new();
    let mut current: Vec<char> = Vec::new();
    let mut i: usize = 0;
    while i < chars.len()
        invariant
            i <= chars@.len(),
            (string_views(lines@), current@) == line_scan(chars@.take(i as int)),
        decreases chars@.len() - i,
    {
        proof {
            assert(chars@.take(i + 1).drop_last() == chars@.take(i as int));
            assert(chars@.take(i + 1).last() == chars@[i as int]);
        }
        let c = chars[i];
        if c == '\n' {
            let n = current.len();
            let end = if n > 0 && current[n - 1] == '\r' {
                n - 1
            } else {
                n
            };
            let line = string_from_chars(slice_prefix(&current, end));
            proof {
                assert(current@.take(end as int) == strip_cr(current@));
                assert(string_views(lines@.push(line)) =~= string_views(lines@).push(line@));
            }
            lines.push(line);
            current = Vec::new();
        } else {
            current.push(c);
        }
        i = i + 1;
    }
    proof {
        assert(chars@.take(chars@.len() as int) == chars@);
    }
    if current.len() > 0 {
        let line = string_from_chars(current.as_slice());
        proof {
            assert(string_views(lines@.push(line)) =~= string_views(lines@).push(line@));
        }
        lines.push(line);
    }
    lines
}

/// The first `n` elements of `v`.
pub fn slice_prefix<T>(v: &Vec<T>, n: usize) -> (r: &[T])
    requires
        n <= v@.len(),
    ensures
        r@ == v@.take(n as int),
{
    slice_subrange(v.as_slice(), 0, n)
}

} // verus!

verus! {

/// A new string holding `a` followed by `b`.
pub fn concat_strs(a: &str, b: &str) -> (s: String)
    ensures
        s@ == a@ + b@,
{
    let mut v = str_chars(a);
    let w = str_chars(b);
    let mut i: usize = 0;
    while i < w.len()
        invariant
            i <= w@.len(),
            v@ == a@ + w@.take(i as int),
        decreases w@.len() - i,
    {
        proof {
            assert(w@.take(i + 1) == w@.take(i as int).push(w@[i as int]));
        }
        v.push(w[i]);
        i = i + 1;
    }
    proof {
        assert(w@.take(w@.len() as int) == w@);
    }
    string_from_chars(v.as_slice())
}

/// A copy of `s`.
pub fn copy_string(s: &str) -> (r: String)
    ensures
        r@ == s@,
{
    let v = str_chars(s);
    string_from_chars(v.as_slice())
}

} // verus!

verus! {

/// Appends the characters of `t` to `s`.
pub fn push_str(s: &mut String, t: &str)
    ensures
        final(s)@ == old(s)@ + t@,
{
    let ghost start = s@;
    let v = str_chars(t);
    let mut i: usize = 0;
    while i < v.len()
        invariant
            i <= v@.len(),
            v@ == t@,
            s@ == start + v@.take(i as int),
        decreases v@.len() - i,
    {
        proof {
            assert(v@.take(i + 1) == v@.take(i as int).push(v@[i as int]));
        }
        push_char(s, v[i]);
        i = i + 1;
    }
    proof {
        assert(v@.take(v@.len() as int) == v@);
    }
}

/// `s` with the characters `start..end` replaced by `insert`.
pub fn replace_chars(s: &str, start: usize, end: usize, insert: &[char]) -> (r: String)
    requires
        start <= end <= s@.len(),
    ensures
        r@ == s@.take(start as int) + insert@ + s@.skip(end as int),
{
    let chars = str_chars(s);
    let mut out: Vec<char> = Vec::new();
    let mut i: usize = 0;
    while i < start
        invariant
            i <= start <= end <= chars@.len(),
            chars@ == s@,
            out@ == chars@.take(i as int),
        decreases start - i,
    {
        proof {
            assert(chars@.take(i + 1) == chars@.take(i as int).push(chars@[i as int]));
        }
        out.push(chars[i]);
        i = i + 1;
    }
    let mut j: usize = 0;
    while j < insert.len()
        invariant
            j <= insert@.len(),
            out@ == chars@.take(start as int) + insert@.take(j as int),
        decreases insert@.len() - j,
    {
        proof {
            assert(insert@.take(j + 1) == insert@.take(j as int).push(insert@[j as int]));
        }
        out.push(insert[j]);
        j = j + 1;
    }
    proof {
        assert(insert@.take(insert@.len() as int) == insert@);
    }
    let ghost mid = out@;
    let mut k: usize = end;
    while k < chars.len()
        invariant
            end <= k <= chars@.len(),
            chars@ == s@,
            mid == chars@.take(start as int) + insert@,
            out@ == mid + chars@.subrange(end as int, k as int),
        decreases chars@.len() - k,
    {
        proof {
            assert(chars@.subrange(end as int, k + 1) == chars@.subrange(end as int, k as int).push(
                chars@[k as int],
            ));
        }
        out.push(chars[k]);
        k = k + 1;
    }
    proof {
        assert(chars@.subrange(end as int, chars@.len() as int) == chars@.skip(end as int));
    }
    string_from_chars(out.as_slice())
}

} // verus!

verus! {

/// Whether `c` is in Unicode general category Cc (U+0000 to U+001F and U+007F to U+009F).
pub open spec fn control_char(c: char) -> bool {
    (c as u32) <= 0x1f || (0x7f <= (c as u32) && (c as u32) <= 0x9f)
}

/// `char::is_control`: whether `c` is a control code.
pub fn is_control(c: char) -> (r: bool)
    ensures
        r == control_char(c),
{
    let v = c as u32;
    v <= 0x1f || (0x7f <= v && v <= 0x9f)
}

} // verus!

verus! {

/// Whether two character sequences are equal.
pub fn same_chars(a: &Vec<char>, b: &Vec<char>) -> (r: bool)
    ensures
        r == (a@ == b@),
{
    if a.len() != b.len() {
        return false;
    }
    let mut i: usize = 0;
    while i < a.len()
        invariant
            a@.len() == b@.len(),
            i <= a@.len(),
            forall|k: int| 0 <= k < i ==> a@[k] == b@[k],
        decreases a@.len() - i,
    {
        if a[i] != b[i] {
            return false;
        }
        i = i + 1;
    }
    proof {
        assert(a@ =~= b@);
    }
    true
}

} // verus!
