//! Character-level helpers shared by the parsers and renderers.
use vstd::prelude::*;

verus! {

/// The characters of `s`, in order.
pub fn chars_of(s: &str) -> (r: Vec<char>)
    ensures
        r@ == s@,
{
    let mut v: Vec<char> = Vec::new();
    for c in it: s.chars()
        invariant
            v@ == it.seq().take(it.index() as int),
    {
        v.push(c);
    }
    v
}

/// Whether `c` is white space: a character with Unicode's `White_Space`
/// property, as `char::is_whitespace` has it.
pub open spec fn is_space(c: char) -> bool {
    ||| '\u{9}' <= c && c <= '\u{d}'
    ||| c == ' '
    ||| c == '\u{85}'
    ||| c == '\u{a0}'
    ||| c == '\u{1680}'
    ||| '\u{2000}' <= c && c <= '\u{200a}'
    ||| c == '\u{2028}'
    ||| c == '\u{2029}'
    ||| c == '\u{202f}'
    ||| c == '\u{205f}'
    ||| c == '\u{3000}'
}

/// Whether `c` is white space.
pub fn is_space_char(c: char) -> (r: bool)
    ensures
        r == is_space(c),
{
    ('\u{9}' <= c && c <= '\u{d}') || c == ' ' || c == '\u{85}' || c == '\u{a0}' || c == '\u{1680}'
        || ('\u{2000}' <= c && c <= '\u{200a}') || c == '\u{2028}' || c == '\u{2029}' || c
        == '\u{202f}' || c == '\u{205f}' || c == '\u{3000}'
}

/// `t` without its leading white space.
pub open spec fn trim_start(t: Seq<char>) -> Seq<char>
    decreases t.len(),
{
    if t.len() > 0 && is_space(t[0]) {
        trim_start(t.drop_first())
    } else {
        t
    }
}

/// `t` without its trailing white space.
pub open spec fn trim_end(t: Seq<char>) -> Seq<char>
    decreases t.len(),
{
    if t.len() > 0 && is_space(t.last()) {
        trim_end(t.drop_last())
    } else {
        t
    }
}

/// `t` without its leading and trailing white space.
pub open spec fn trimmed(t: Seq<char>) -> Seq<char> {
    trim_end(trim_start(t))
}

/// `s` without its leading and trailing white space.
pub fn trim(s: &str) -> (r: &str)
    ensures
        r@ == trimmed(s@),
{
    let t = chars_of(s);
    let len = t.len();
    let mut lo: usize = 0;
    assert(t@.subrange(0, len as int) =~= t@);
    while lo < len && is_space_char(t[lo])
        invariant
            lo <= len == t@.len(),
            trim_start(t@) == trim_start(t@.subrange(lo as int, len as int)),
        decreases len - lo,
    {
        assert(t@.subrange(lo as int, len as int).drop_first() =~= t@.subrange(lo + 1, len as int));
        lo = lo + 1;
    }
    assert(trim_start(t@) == t@.subrange(lo as int, len as int));
    let mut hi: usize = len;
    while hi > lo && is_space_char(t[hi - 1])
        invariant
            lo <= hi <= len == t@.len(),
            trimmed(t@) == trim_end(t@.subrange(lo as int, hi as int)),
        decreases hi,
    {
        assert(t@.subrange(lo as int, hi as int).drop_last() =~= t@.subrange(lo as int, hi - 1));
        hi = hi - 1;
    }
    assert(trimmed(t@) == t@.subrange(lo as int, hi as int));
    s.substring_char(lo, hi)
}

/// Leading white space goes, up to text that does not start with white space.
pub proof fn lemma_trim_start_padding(pre: Seq<char>, x: Seq<char>)
    requires
        forall|i: int| 0 <= i < pre.len() ==> is_space(#[trigger] pre[i]),
        x.len() > 0 ==> !is_space(x[0]),
    ensures
        trim_start(pre + x) == x,
    decreases pre.len(),
{
    if pre.len() > 0 {
        assert((pre + x).drop_first() =~= pre.drop_first() + x);
        lemma_trim_start_padding(pre.drop_first(), x);
    } else {
        assert(pre + x =~= x);
    }
}

/// Trailing white space goes, back to text that does not end with white space.
pub proof fn lemma_trim_end_padding(x: Seq<char>, post: Seq<char>)
    requires
        forall|i: int| 0 <= i < post.len() ==> is_space(#[trigger] post[i]),
        x.len() > 0 ==> !is_space(x.last()),
    ensures
        trim_end(x + post) == x,
    decreases post.len(),
{
    if post.len() > 0 {
        assert((x + post).drop_last() =~= x + post.drop_last());
        lemma_trim_end_padding(x, post.drop_last());
    } else {
        assert(x + post =~= x);
    }
}

/// Surrounding white space does not change what trimming gives, for text that
/// neither starts nor ends with white space.
pub proof fn lemma_trim_padding(pre: Seq<char>, core: Seq<char>, post: Seq<char>)
    requires
        forall|i: int| 0 <= i < pre.len() ==> is_space(#[trigger] pre[i]),
        forall|i: int| 0 <= i < post.len() ==> is_space(#[trigger] post[i]),
        core.len() > 0 ==> !is_space(core[0]) && !is_space(core.last()),
    ensures
        trimmed(pre + core + post) == core,
{
    if core.len() > 0 {
        assert(pre + core + post =~= pre + (core + post));
        lemma_trim_start_padding(pre, core + post);
        lemma_trim_end_padding(core, post);
    } else {
        let w = pre + post;
        assert(pre + core + post =~= w + core);
        assert forall|i: int| 0 <= i < w.len() implies is_space(#[trigger] w[i]) by {
            if i >= pre.len() {
                assert(w[i] == post[i - pre.len()]);
            }
        }
        lemma_trim_start_padding(w, core);
    }
}

} // verus!
