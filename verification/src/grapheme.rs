use unicode_segmentation::UnicodeSegmentation;
use vstd::prelude::*;

use crate::chars::{replace_chars, str_chars, string_views};

verus! {

/// The extended grapheme clusters of a string, as `unicode-segmentation` splits it.
pub uninterp spec fn grapheme_clusters(s: Seq<char>) -> Seq<Seq<char>>;

/// The concatenation of a list of character sequences.
pub open spec fn flatten(gs: Seq<Seq<char>>) -> Seq<char>
    decreases gs.len(),
{
    if gs.len() == 0 {
        Seq::empty()
    } else {
        flatten(gs.drop_last()) + gs.last()
    }
}

/// Every cluster holds at least one character.
pub open spec fn all_nonempty(gs: Seq<Seq<char>>) -> bool {
    forall|i: int| 0 <= i < gs.len() ==> #[trigger] gs[i].len() > 0
}

/// Every character is printable ASCII (space to tilde).
pub open spec fn printable_ascii(s: Seq<char>) -> bool {
    forall|i: int| 0 <= i < s.len() ==> ' ' <= #[trigger] s[i] <= '~'
}

/// One cluster per character.
pub open spec fn singletons(s: Seq<char>) -> Seq<Seq<char>> {
    Seq::new(s.len(), |i: int| seq![s[i]])
}

/// Calls `UnicodeSegmentation::graphemes` with extended clusters and collects the clusters as
/// strings. The crate's iterator yields consecutive, non-empty slices that together cover the
/// string; where the cluster boundaries fall is the crate's segmentation rules. The crate gives
/// every printable ASCII character the category `Any`, and no rule joins two such characters,
/// so printable ASCII text splits into one cluster per character.
#[verifier::external_body]
pub(crate) fn graphemes(s: &str) -> (r: Vec<String>)
    ensures
        string_views(r@) == grapheme_clusters(s@),
        flatten(string_views(r@)) == s@,
        all_nonempty(string_views(r@)),
        printable_ascii(s@) ==> string_views(r@) == singletons(s@),
{
    s.graphemes(true).map(|g| g.to_string()).collect()
}

/// Characters in the first `index` clusters (all of them when `index` is past the end).
pub open spec fn char_offset(gs: Seq<Seq<char>>, index: int) -> int {
    if index < gs.len() {
        flatten(gs.take(index)).len() as int
    } else {
        flatten(gs).len() as int
    }
}

/// Number of clusters that start before character offset `n`.
pub open spec fn starts_before(gs: Seq<Seq<char>>, n: int) -> int
    decreases gs.len(),
{
    if gs.len() == 0 {
        0
    } else if flatten(gs.drop_last()).len() < n {
        gs.len() as int
    } else {
        starts_before(gs.drop_last(), n)
    }
}

pub proof fn lemma_flatten_len_mono(gs: Seq<Seq<char>>, i: int)
    requires
        0 <= i <= gs.len(),
    ensures
        flatten(gs.take(i)).len() <= flatten(gs).len(),
        flatten(gs.take(i)) == flatten(gs).take(flatten(gs.take(i)).len() as int),
    decreases gs.len() - i,
{
    if i == gs.len() {
        assert(gs.take(i) == gs);
    } else {
        lemma_flatten_len_mono(gs, i + 1);
        assert(gs.take(i + 1).drop_last() == gs.take(i));
        let a = flatten(gs.take(i));
        let b = flatten(gs.take(i + 1));
        assert(b == a + gs[i]);
        assert(b.take(a.len() as int) =~= a);
    }
}

/// Offsets grow with the cluster index.
pub proof fn lemma_offset_step(gs: Seq<Seq<char>>, i: int)
    requires
        0 <= i < gs.len(),
    ensures
        flatten(gs.take(i + 1)) == flatten(gs.take(i)) + gs[i],
        flatten(gs.take(i + 1)).len() == flatten(gs.take(i)).len() + gs[i].len(),
{
    assert(gs.take(i + 1).drop_last() == gs.take(i));
}

/// The string without characters `start..end`.
pub open spec fn remove_range(s: Seq<char>, start: int, end: int) -> Seq<char> {
    s.take(start) + s.skip(end)
}

/// The string with `c` inserted at character offset `at`.
pub open spec fn insert_at(s: Seq<char>, at: int, c: char) -> Seq<char> {
    s.take(at) + seq![c] + s.skip(at)
}

/// Character offset of cluster `index` in `gs` (the end of the text when past the end).
pub fn cluster_char_offset(gs: &Vec<String>, index: usize) -> (r: usize)
    requires
        flatten(string_views(gs@)).len() <= usize::MAX,
    ensures
        r == char_offset(string_views(gs@), index as int),
{
    let ghost views = string_views(gs@);
    let mut total: usize = 0;
    let mut i: usize = 0;
    let limit = if index < gs.len() {
        index
    } else {
        gs.len()
    };
    while i < limit
        invariant
            i <= limit <= gs@.len(),
            views == string_views(gs@),
            flatten(views).len() <= usize::MAX,
            total == flatten(views.take(i as int)).len(),
        decreases limit - i,
    {
        proof {
            lemma_offset_step(views, i as int);
            lemma_flatten_len_mono(views, i + 1);
            assert(views[i as int] == gs@[i as int]@);
        }
        total = total + gs[i].unicode_len();
        i = i + 1;
    }
    proof {
        if index >= gs.len() {
            assert(views.take(gs@.len() as int) == views);
        }
    }
    total
}

/// Number of clusters of `gs` starting before character offset `n`.
pub fn clusters_starting_before(gs: &Vec<String>, n: usize) -> (r: usize)
    requires
        flatten(string_views(gs@)).len() <= usize::MAX,
    ensures
        r == starts_before(string_views(gs@), n as int),
{
    let ghost views = string_views(gs@);
    let mut count: usize = 0;
    let mut start: usize = 0;
    let mut i: usize = 0;
    while i < gs.len() && start < n
        invariant
            i <= gs@.len(),
            views == string_views(gs@),
            flatten(views).len() <= usize::MAX,
            start == flatten(views.take(i as int)).len(),
            count == i,
            i > 0 ==> flatten(views.take(i - 1)).len() < n,
        decreases gs@.len() - i,
    {
        proof {
            lemma_offset_step(views, i as int);
            lemma_flatten_len_mono(views, i + 1);
            assert(views[i as int] == gs@[i as int]@);
        }
        start = start + gs[i].unicode_len();
        count = count + 1;
        i = i + 1;
    }
    proof {
        lemma_starts_before_prefix(views, n as int, i as int);
    }
    count
}

/// `starts_before` counts the leading clusters whose start offsets are below `n`.
proof fn lemma_starts_before_prefix(gs: Seq<Seq<char>>, n: int, i: int)
    requires
        0 <= i <= gs.len(),
        i > 0 ==> flatten(gs.take(i - 1)).len() < n,
        i < gs.len() ==> flatten(gs.take(i)).len() >= n,
    ensures
        starts_before(gs, n) == i,
    decreases gs.len(),
{
    if gs.len() > 0 {
        let p = gs.drop_last();
        if i == gs.len() {
            assert(gs.take(i - 1) == p);
        } else {
            assert(gs.take(i) == p.take(i));
            if i > 0 {
                assert(gs.take(i - 1) == p.take(i - 1));
            }
            if i < p.len() {
            } else {
                assert(p.take(i) == p);
            }
            lemma_flatten_len_mono(p, i);
            if flatten(p).len() < n {
                assert(flatten(p.take(i)).len() <= flatten(p).len());
            }
            lemma_starts_before_prefix(p, n, i);
        }
    }
}


/// Character offset in `t` where cluster `i` starts (the end of `t` when past the last cluster).
pub open spec fn cluster_offset(t: Seq<char>, i: int) -> int {
    char_offset(grapheme_clusters(t), i)
}

/// Offsets are ordered like the cluster indices and never pass the end of the text.
pub proof fn lemma_char_offset_mono(gs: Seq<Seq<char>>, i: int, j: int)
    requires
        0 <= i <= j,
    ensures
        0 <= char_offset(gs, i) <= char_offset(gs, j) <= flatten(gs).len(),
{
    if j < gs.len() {
        lemma_flatten_len_mono(gs, j);
        lemma_flatten_len_mono(gs.take(j), i);
        assert(gs.take(j).take(i) == gs.take(i));
    } else if i < gs.len() {
        lemma_flatten_len_mono(gs, i);
    }
}

/// The text after inserting `c` before cluster `cursor`.
pub open spec fn text_after_insert(t: Seq<char>, cursor: int, c: char) -> Seq<char> {
    insert_at(t, cluster_offset(t, cursor), c)
}

/// The cluster index just after an inserted character: the clusters of the new text that start
/// at or before the inserted character.
pub open spec fn cursor_after_insert(t: Seq<char>, cursor: int, c: char) -> int {
    starts_before(grapheme_clusters(text_after_insert(t, cursor, c)), cluster_offset(t, cursor) + 1)
}

/// The text without cluster `i` (unchanged when `i` is past the last cluster).
pub open spec fn without_cluster(t: Seq<char>, i: int) -> Seq<char> {
    remove_range(t, cluster_offset(t, i), cluster_offset(t, i + 1))
}

/// Number of extended grapheme clusters in `text`.
pub fn grapheme_count(text: &str) -> (n: usize)
    ensures
        n == grapheme_clusters(text@).len(),
{
    graphemes(text).len()
}

/// The first `n` singleton clusters spell the first `n` characters.
proof fn lemma_flatten_singletons(s: Seq<char>, n: int)
    requires
        0 <= n <= s.len(),
    ensures
        flatten(singletons(s).take(n)) == s.take(n),
    decreases n,
{
    if n > 0 {
        lemma_flatten_singletons(s, n - 1);
        assert(singletons(s).take(n).drop_last() =~= singletons(s).take(n - 1));
        assert(s.take(n - 1) + seq![s[n - 1]] =~= s.take(n));
    } else {
        assert(singletons(s).take(0) =~= Seq::<Seq<char>>::empty());
    }
}

/// With one cluster per character, cluster `i` starts at character `i` (the end past the end).
pub proof fn lemma_singleton_offset(s: Seq<char>, i: int)
    requires
        0 <= i,
    ensures
        char_offset(singletons(s), i) == if i < s.len() {
            i
        } else {
            s.len() as int
        },
{
    if i < s.len() {
        lemma_flatten_singletons(s, i);
    } else {
        lemma_flatten_singletons(s, s.len() as int);
        assert(singletons(s).take(s.len() as int) =~= singletons(s));
    }
}

/// With one cluster per character, `n` (at least 1) clusters start before offset `n`, at most
/// all of them.
pub proof fn lemma_singleton_starts(s: Seq<char>, n: int)
    requires
        1 <= n,
    ensures
        starts_before(singletons(s), n) == if n < s.len() {
            n
        } else {
            s.len() as int
        },
    decreases s.len(),
{
    if s.len() > 0 {
        let rest = s.drop_last();
        assert(singletons(s).drop_last() =~= singletons(rest));
        lemma_flatten_singletons(rest, rest.len() as int);
        assert(singletons(rest).take(rest.len() as int) =~= singletons(rest));
        assert(rest.take(rest.len() as int) =~= rest);
        lemma_singleton_starts(rest, n);
    }
}

/// Inserting a printable ASCII character into printable ASCII text keeps it printable ASCII.
pub proof fn lemma_insert_printable(t: Seq<char>, k: int, c: char)
    requires
        printable_ascii(t),
        0 <= k <= t.len(),
        ' ' <= c <= '~',
    ensures
        printable_ascii(t.insert(k, c)),
        insert_at(t, k, c) == t.insert(k, c),
{
    assert(insert_at(t, k, c) =~= t.insert(k, c));
    assert forall|i: int| 0 <= i < t.insert(k, c).len() implies ' ' <= #[trigger] t.insert(k, c)[i] <= '~' by {
        if i < k {
            assert(t.insert(k, c)[i] == t[i]);
        } else if i > k {
            assert(t.insert(k, c)[i] == t[i - 1]);
        }
    }
}

/// In printable ASCII text, typing a printable ASCII character and then deleting the character
/// before the cursor gives back the text, with the cursor back where it was: the character goes
/// in at the cursor and the cursor moves past it, and backspace removes the character before
/// the cursor and moves back.
pub proof fn lemma_ascii_insert_then_backspace(t: Seq<char>, k: int, c: char)
    requires
        printable_ascii(t),
        0 <= k <= t.len(),
        ' ' <= c <= '~',
    ensures
        printable_ascii(t.insert(k, c)),
        0 < k + 1 <= t.insert(k, c).len(),
        t.insert(k, c).remove(k) == t,
{
    lemma_insert_printable(t, k, c);
    assert(t.insert(k, c).remove(k) =~= t);
}

/// Character offset where cluster `index` of `text` starts.
pub(crate) fn cluster_offset_of(text: &str, index: usize) -> (r: usize)
    ensures
        r == cluster_offset(text@, index as int),
        r <= text@.len(),
        printable_ascii(text@) ==> r == if index < text@.len() {
            index as int
        } else {
            text@.len() as int
        },
{
    let chars = str_chars(text);
    let _len = chars.len();
    let gs = graphemes(text);
    proof {
        lemma_char_offset_mono(string_views(gs@), index as int, index as int);
        if printable_ascii(text@) {
            lemma_singleton_offset(text@, index as int);
        }
    }
    cluster_char_offset(&gs, index)
}

/// Inserts `c` before cluster `cursor` of `text`; returns the new text and the cluster index
/// just after the inserted character.
pub(crate) fn insert_at_cluster(text: &str, cursor: usize, c: char) -> (r: (String, usize))
    ensures
        r.0@ == text_after_insert(text@, cursor as int, c),
        r.1 == cursor_after_insert(text@, cursor as int, c),
        printable_ascii(text@) && ' ' <= c <= '~' ==> {
            let k = if cursor < text@.len() {
                cursor as int
            } else {
                text@.len() as int
            };
            r.0@ == text@.insert(k, c) && r.1 == k + 1
        },
{
    let off = cluster_offset_of(text, cursor);
    let ins = [c];
    let new_text = replace_chars(text, off, off, &ins);
    proof {
        assert(ins@ == seq![c]);
        assert(new_text@ == text_after_insert(text@, cursor as int, c));
    }
    let new_chars = str_chars(&new_text);
    let _len = new_chars.len();
    let gs = graphemes(&new_text);
    proof {
        if printable_ascii(text@) && ' ' <= c <= '~' {
            lemma_insert_printable(text@, off as int, c);
            lemma_singleton_starts(new_text@, off + 1);
        }
    }
    let new_cursor = clusters_starting_before(&gs, off + 1);
    (new_text, new_cursor)
}

/// Removes cluster `index` of `text`.
pub(crate) fn remove_cluster(text: &str, index: usize) -> (r: String)
    requires
        index < usize::MAX,
    ensures
        r@ == without_cluster(text@, index as int),
        printable_ascii(text@) && index < text@.len() ==> r@ == text@.remove(index as int),
{
    let start = cluster_offset_of(text, index);
    let end = cluster_offset_of(text, index + 1);
    proof {
        lemma_char_offset_mono(grapheme_clusters(text@), index as int, index + 1);
    }
    let empty: [char; 0] = [];
    let r = replace_chars(text, start, end, &empty);
    proof {
        assert(empty@ == Seq::<char>::empty());
        assert(r@ =~= without_cluster(text@, index as int));
        if printable_ascii(text@) && index < text@.len() {
            assert(r@ =~= text@.remove(index as int));
        }
    }
    r
}

} // verus!
