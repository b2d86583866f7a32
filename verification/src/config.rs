//! Where the configuration is looked for, and where in its text a parse
//! error is pointed at.
use vstd::prelude::*;

verus! {

/// The places the configuration is read from when no path is given, in the
/// order they are tried.
pub open spec fn default_conf_dirs() -> Seq<Seq<char>> {
    seq!["config/rars.ron"@, "/home/hankaji/.config/rars/rars.ron"@]
}

/// The places to read the configuration from, in order: the given path
/// alone, or else the default places.
pub fn config_dirs(path: Option<&str>) -> (v: Vec<String>)
    ensures
        v@.map_values(|s: String| s@) == match path {
            Some(p) => seq![p@],
            None => default_conf_dirs(),
        },
{
    match path {
        Some(p) => {
            let mut v: Vec<String> = Vec::new();
            v.push(String::from_str(p));
            assert(v@.map_values(|s: String| s@) =~= seq![p@]);
            v
        },
        None => {
            let mut v: Vec<String> = Vec::new();
            v.push(String::from_str("config/rars.ron"));
            v.push(String::from_str("/home/hankaji/.config/rars/rars.ron"));
            assert(v@.map_values(|s: String| s@) =~= default_conf_dirs());
            v
        },
    }
}

/// The text split at each newline (byte 10), as `str::split('\n')` splits it:
/// `k` newlines give `k + 1` lines, the last one empty where the text ends
/// with a newline.
pub open spec fn split_lines(s: Seq<u8>) -> Seq<Seq<u8>>
    decreases s.len(),
{
    if s.len() == 0 {
        seq![Seq::<u8>::empty()]
    } else {
        let prev = split_lines(s.drop_last());
        if s.last() == 10 {
            prev.push(Seq::<u8>::empty())
        } else {
            prev.update(prev.len() - 1, prev.last().push(s.last()))
        }
    }
}

/// The bytes the first `k` lines take up, each with its newline.
pub open spec fn prefix_width(lines: Seq<Seq<u8>>, k: nat) -> nat
    decreases k,
{
    if k == 0 {
        0
    } else {
        prefix_width(lines, (k - 1) as nat) + lines[k - 1].len() + 1
    }
}

proof fn lemma_split_nonempty(s: Seq<u8>)
    ensures
        split_lines(s).len() >= 1,
    decreases s.len(),
{
    if s.len() > 0 {
        lemma_split_nonempty(s.drop_last());
    }
}

proof fn lemma_prefix_width_same(a: Seq<Seq<u8>>, b: Seq<Seq<u8>>, k: nat)
    requires
        k <= a.len(),
        k <= b.len(),
        forall|j: int| 0 <= j < k ==> #[trigger] a[j].len() == b[j].len(),
    ensures
        prefix_width(a, k) == prefix_width(b, k),
    decreases k,
{
    if k > 0 {
        lemma_prefix_width_same(a, b, (k - 1) as nat);
    }
}

proof fn lemma_prefix_width_monotone(lines: Seq<Seq<u8>>, k: nat, m: nat)
    requires
        k <= m <= lines.len(),
    ensures
        prefix_width(lines, k) <= prefix_width(lines, m),
    decreases m,
{
    if k < m {
        lemma_prefix_width_monotone(lines, k, (m - 1) as nat);
    }
}

/// All the lines together, each with a newline, take one byte more than the text.
proof fn lemma_total_width(s: Seq<u8>)
    ensures
        prefix_width(split_lines(s), split_lines(s).len()) == s.len() + 1,
    decreases s.len(),
{
    if s.len() == 0 {
        let l = split_lines(s);
        assert(l.len() == 1);
        assert(l[0].len() == 0);
        assert(prefix_width(l, 1) == prefix_width(l, 0) + l[0].len() + 1);
    } else {
        let prev = split_lines(s.drop_last());
        lemma_split_nonempty(s.drop_last());
        lemma_total_width(s.drop_last());
        let cur = split_lines(s);
        if s.last() == 10 {
            assert forall|j: int| 0 <= j < prev.len() implies #[trigger] cur[j].len() == prev[j].len() by {
                assert(cur[j] == prev[j]);
            }
            lemma_prefix_width_same(cur, prev, prev.len());
            assert(cur.len() == prev.len() + 1);
            assert(cur[prev.len() as int].len() == 0);
            assert(prefix_width(cur, cur.len()) == prefix_width(cur, prev.len()) + cur[prev.len() as int].len() + 1);
        } else {
            let k = (prev.len() - 1) as nat;
            assert forall|j: int| 0 <= j < k implies #[trigger] cur[j].len() == prev[j].len() by {
                assert(cur[j] == prev[j]);
            }
            lemma_prefix_width_same(cur, prev, k);
            assert(cur.len() == prev.len());
            assert(cur[k as int].len() == prev[k as int].len() + 1);
            assert(prefix_width(cur, cur.len()) == prefix_width(cur, k) + cur[k as int].len() + 1);
            assert(prefix_width(prev, prev.len()) == prefix_width(prev, k) + prev[k as int].len() + 1);
        }
    }
}

/// The number of lines of the text: one more than its newlines.
pub fn line_count(src: &[u8]) -> (n: usize)
    ensures
        n == split_lines(src@).len(),
{
    let v = line_lengths(src);
    v.len()
}

/// The length of each line of the text.
pub fn line_lengths(src: &[u8]) -> (v: Vec<usize>)
    ensures
        v@.len() == split_lines(src@).len(),
        forall|j: int| 0 <= j < v@.len() ==> #[trigger] v@[j] == split_lines(src@)[j].len(),
{
    let mut v: Vec<usize> = Vec::new();
    v.push(0);
    let n = src.len();
    assert(src@.take(0) =~= Seq::<u8>::empty());
    for i in 0..n
        invariant
            n == src@.len(),
            v@.len() == split_lines(src@.take(i as int)).len(),
            v@.len() >= 1,
            forall|j: int| 0 <= j < v@.len() ==> #[trigger] v@[j] == split_lines(src@.take(i as int))[j].len(),
            forall|j: int| 0 <= j < v@.len() ==> #[trigger] v@[j] <= i,
    {
        let ghost pre = src@.take(i as int);
        let ghost cur = src@.take(i + 1);
        assert(cur.drop_last() == pre);
        assert(cur.last() == src@[i as int]);
        if src[i] == 10u8 {
            v.push(0);
        } else {
            let last = v.len() - 1;
            let w = v[last];
            v.set(last, w + 1);
        }
    }
    assert(src@.take(n as int) == src@);
    v
}

/// The byte offset at which line `k` (counting from 0) begins: the width of
/// the lines before it, newlines included.
pub fn lines_offset(src: &[u8], k: usize) -> (off: usize)
    requires
        k <= split_lines(src@).len(),
        src@.len() < usize::MAX,
    ensures
        off == prefix_width(split_lines(src@), k as nat),
{
    let v = line_lengths(src);
    let ghost lines = split_lines(src@);
    proof {
        lemma_total_width(src@);
    }
    let mut off: usize = 0;
    for i in 0..k
        invariant
            k <= lines.len(),
            lines == split_lines(src@),
            v@.len() == lines.len(),
            forall|j: int| 0 <= j < v@.len() ==> #[trigger] v@[j] == lines[j].len(),
            prefix_width(lines, lines.len()) == src@.len() + 1,
            src@.len() < usize::MAX,
            off == prefix_width(lines, i as nat),
    {
        proof {
            lemma_prefix_width_monotone(lines, (i + 1) as nat, lines.len());
        }
        off = off + v[i] + 1;
    }
    off
}

/// Where a parse error is pointed at: reported at line `line` (counting from
/// 1) and column `col`, the label starts at the offset of that line plus
/// `col`, less two, and is one byte wide.
pub open spec fn spec_error_label_start(src: Seq<u8>, line: nat, col: nat) -> int {
    prefix_width(split_lines(src), (line - 1) as nat) + col - 2
}

/// The byte offset where the label of a parse error reported at `line` and
/// `col` starts.
pub fn error_label_start(src: &[u8], line: usize, col: usize) -> (start: usize)
    requires
        1 <= line,
        src@.len() < usize::MAX,
        line - 1 <= split_lines(src@).len(),
        2 <= prefix_width(split_lines(src@), (line - 1) as nat) + col <= usize::MAX,
    ensures
        start == spec_error_label_start(src@, line as nat, col as nat),
{
    let off = lines_offset(src, line - 1);
    off + col - 2
}

/// Every line but the first begins right after a newline of the text: the
/// offset of line `k` lies within the text and the byte before it is `\n`.
pub proof fn lemma_line_starts_follow_newlines(s: Seq<u8>, k: nat)
    requires
        1 <= k < split_lines(s).len(),
    ensures
        prefix_width(split_lines(s), k) <= s.len(),
        s[prefix_width(split_lines(s), k) - 1] == 10,
    decreases s.len(),
{
    if s.len() > 0 {
        let p = s.drop_last();
        let prev = split_lines(p);
        let cur = split_lines(s);
        lemma_split_nonempty(p);
        if s.last() == 10 {
            assert forall|j: int| 0 <= j < prev.len() implies #[trigger] cur[j].len() == prev[j].len() by {
                assert(cur[j] == prev[j]);
            }
            if k < prev.len() {
                lemma_prefix_width_same(cur, prev, k);
                lemma_line_starts_follow_newlines(p, k);
                assert(s[prefix_width(cur, k) - 1] == p[prefix_width(prev, k) - 1]);
            } else {
                lemma_prefix_width_same(cur, prev, prev.len());
                lemma_total_width(p);
            }
        } else {
            assert forall|j: int| 0 <= j < prev.len() - 1 implies #[trigger] cur[j].len() == prev[j].len() by {
                assert(cur[j] == prev[j]);
            }
            lemma_prefix_width_same(cur, prev, k);
            lemma_line_starts_follow_newlines(p, k);
            assert(s[prefix_width(cur, k) - 1] == p[prefix_width(prev, k) - 1]);
        }
    }
}

} // verus!
