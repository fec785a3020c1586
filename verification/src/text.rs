//! Text primitives shared by the whole crate: trimming of caller-supplied
//! fragments and separator-joining of rendered pieces.

use vstd::prelude::*;
use vstd::string::StrSliceExecFns;
use vstd::string::StringExecFns;

verus! {

/// The whitespace characters stripped from both ends of every fragment.
pub open spec fn is_space(c: char) -> bool {
    c == ' ' || c == '\t' || c == '\n' || c == '\r' || c == '\u{0C}'
}

/// The fragment text with leading and trailing whitespace removed.
pub open spec fn trimmed(s: Seq<char>) -> Seq<char>
    decreases s.len(),
{
    if s.len() == 0 {
        s
    } else if is_space(s[0]) {
        trimmed(s.drop_first())
    } else if is_space(s[s.len() - 1]) {
        trimmed(s.drop_last())
    } else {
        s
    }
}

proof fn lemma_trimmed_drop_first(s: Seq<char>)
    requires
        s.len() > 0,
        is_space(s[0]),
    ensures
        trimmed(s) == trimmed(s.drop_first()),
{
}

proof fn lemma_trimmed_drop_last(s: Seq<char>)
    requires
        s.len() > 0,
        !is_space(s[0]),
        is_space(s[s.len() - 1]),
    ensures
        trimmed(s) == trimmed(s.drop_last()),
{
}

/// Whether `c` is stripped by trimming.
pub fn is_space_char(c: char) -> (r: bool)
    ensures
        r == is_space(c),
{
    c == ' ' || c == '\t' || c == '\n' || c == '\r' || c == '\u{0C}'
}

/// Returns `s` with leading and trailing whitespace removed.
pub fn trim_str(s: &str) -> (r: String)
    ensures
        r@ == trimmed(s@),
{
    let len = s.unicode_len();
    let mut lo: usize = 0;
    let mut hi: usize = len;
    proof {
        assert(s@.subrange(0, s@.len() as int) =~= s@);
    }
    while lo < hi && is_space_char(s.get_char(lo))
        invariant
            lo <= hi <= s@.len(),
            trimmed(s@.subrange(lo as int, hi as int)) == trimmed(s@),
        decreases hi - lo,
    {
        proof {
            let sub = s@.subrange(lo as int, hi as int);
            assert(sub.drop_first() =~= s@.subrange(lo as int + 1, hi as int));
            lemma_trimmed_drop_first(sub);
        }
        lo = lo + 1;
    }
    while lo < hi && is_space_char(s.get_char(hi - 1))
        invariant
            lo <= hi <= s@.len(),
            trimmed(s@.subrange(lo as int, hi as int)) == trimmed(s@),
            lo < hi ==> !is_space(s@[lo as int]),
        decreases hi,
    {
        proof {
            let sub = s@.subrange(lo as int, hi as int);
            assert(sub.drop_last() =~= s@.subrange(lo as int, hi as int - 1));
            lemma_trimmed_drop_last(sub);
        }
        hi = hi - 1;
    }
    proof {
        let sub = s@.subrange(lo as int, hi as int);
        if lo < hi {
            assert(trimmed(sub) == sub);
        } else {
            assert(sub =~= Seq::<char>::empty());
        }
    }
    let part = s.substring_char(lo, hi);
    String::from_str(part)
}

/// The views of the strings held by `v`, in order.
pub open spec fn texts_of(v: Seq<String>) -> Seq<Seq<char>> {
    Seq::new(v.len(), |i: int| v[i]@)
}

/// The pieces of `parts` concatenated with `sep` between neighbours.
pub open spec fn joined(parts: Seq<Seq<char>>, sep: Seq<char>) -> Seq<char>
    decreases parts.len(),
{
    if parts.len() == 0 {
        Seq::empty()
    } else if parts.len() == 1 {
        parts[0]
    } else {
        joined(parts.drop_last(), sep) + sep + parts[parts.len() - 1]
    }
}

/// Appends `piece` to the pieces already joined in `out`, inserting `sep`
/// in front of it unless `out` still holds no piece.
pub fn join_push(out: &mut String, started: bool, sep: &str, piece: &str, Ghost(parts): Ghost<Seq<Seq<char>>>)
    requires
        old(out)@ == joined(parts, sep@),
        started == (parts.len() > 0),
    ensures
        final(out)@ == joined(parts.push(piece@), sep@),
{
    proof {
        let parts2 = parts.push(piece@);
        assert(parts2.drop_last() =~= parts);
        assert(parts2[parts2.len() - 1] == piece@);
    }
    if started {
        out.append(sep);
    }
    out.append(piece);
}

/// Joins the strings of `items` with `sep` between neighbours.
pub fn join_strs(items: &Vec<String>, sep: &str) -> (r: String)
    ensures
        r@ == joined(texts_of(items@), sep@),
{
    let mut out = String::new();
    let mut i: usize = 0;
    while i < items.len()
        invariant
            i <= items@.len(),
            out@ == joined(texts_of(items@).take(i as int), sep@),
        decreases items@.len() - i,
    {
        let piece = &items[i];
        proof {
            assert(texts_of(items@).take(i as int).len() == i);
        }
        join_push(&mut out, i > 0, sep, piece.as_str(), Ghost(texts_of(items@).take(i as int)));
        proof {
            assert(texts_of(items@).take(i as int).push(items@[i as int]@) =~= texts_of(
                items@,
            ).take(i as int + 1));
        }
        i = i + 1;
    }
    proof {
        assert(texts_of(items@).take(items@.len() as int) =~= texts_of(items@));
    }
    out
}

} // verus!
