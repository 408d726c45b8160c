//! Plain-text helpers.

use vstd::prelude::*;

verus! {

broadcast use vstd::string::group_string_axioms;

/// The characters of `s`, in order.
pub fn chars_of(s: &str) -> (v: Vec<char>)
    ensures
        v@ == s@,
{
    let mut v: Vec<char> = Vec::new();
    for c in iter: s.chars()
        invariant
            iter.seq() == s@,
            v@ == s@.take(iter.index() as int),
    {
        v.push(c);
        assert(s@.take(iter.index() + 1) =~= s@.take(iter.index() as int).push(c));
    }
    assert(v@ =~= s@);
    v
}


/// Whether `c` is white space as `char::is_whitespace` decides: the Unicode
/// `White_Space` characters.
pub open spec fn is_space(c: char) -> bool {
    let u = c as u32;
    (0x9 <= u <= 0xd) || u == 0x20 || u == 0x85 || u == 0xa0 || u == 0x1680 || (0x2000 <= u
        <= 0x200a) || u == 0x2028 || u == 0x2029 || u == 0x202f || u == 0x205f || u == 0x3000
}

/// Whether `c` is white space, as `char::is_whitespace` decides.
pub fn is_whitespace(c: char) -> (r: bool)
    ensures
        r == is_space(c),
{
    let u = c as u32;
    (0x9 <= u && u <= 0xd) || u == 0x20 || u == 0x85 || u == 0xa0 || u == 0x1680 || (0x2000 <= u
        && u <= 0x200a) || u == 0x2028 || u == 0x2029 || u == 0x202f || u == 0x205f || u == 0x3000
}

/// The Unicode lower-case form of a string, as `str::to_lowercase` gives it.
pub uninterp spec fn lowercase(s: Seq<char>) -> Seq<char>;

/// Calls `str::to_lowercase`; its result is named by `lowercase`.
#[verifier::external_body]
pub(crate) fn to_lowercase(s: &str) -> (r: String)
    ensures
        r@ == lowercase(s@),
{
    s.to_lowercase()
}

/// `s` with every `c` taken out.
pub open spec fn without(s: Seq<char>, c: char) -> Seq<char>
    decreases s.len(),
{
    if s.len() == 0 {
        Seq::empty()
    } else if s.last() == c {
        without(s.drop_last(), c)
    } else {
        without(s.drop_last(), c).push(s.last())
    }
}

/// Taking `c` out of a stretch without it leaves the stretch whole.
proof fn lemma_without_clean(a: Seq<char>, seg: Seq<char>, c: char)
    requires
        forall|j: int| 0 <= j < seg.len() ==> seg[j] != c,
    ensures
        without(a + seg, c) == without(a, c) + seg,
    decreases seg.len(),
{
    if seg.len() == 0 {
        assert(a + seg =~= a);
        assert(without(a, c) + seg =~= without(a, c));
    } else {
        let init = seg.drop_last();
        lemma_without_clean(a, init, c);
        assert((a + seg).drop_last() =~= a + init);
        assert(without(a, c) + init + seq![seg.last()] =~= without(a, c) + seg);
        assert((without(a, c) + init).push(seg.last()) =~= without(a, c) + seg);
    }
}

/// `s` with every `c` taken out, as collecting `s.split(c)` into a string does.
pub fn remove_char(s: &str, c: char) -> (r: String)
    ensures
        r@ == without(s@, c),
{
    let cs = chars_of(s);
    let mut out = String::new();
    let mut start: usize = 0;
    let mut i: usize = 0;
    while i < cs.len()
        invariant
            cs@ == s@,
            start <= i <= cs@.len(),
            out@ == without(s@.take(start as int), c),
            forall|j: int| start <= j < i ==> s@[j] != c,
        decreases cs@.len() - i,
    {
        if cs[i] == c {
            let piece = s.substring_char(start, i);
            out.append(piece);
            proof {
                let seg = s@.subrange(start as int, i as int);
                lemma_without_clean(s@.take(start as int), seg, c);
                assert(s@.take(start as int) + seg =~= s@.take(i as int));
                assert(s@.take(i + 1).drop_last() =~= s@.take(i as int));
            }
            start = i + 1;
        }
        i = i + 1;
    }
    let piece = s.substring_char(start, cs.len());
    out.append(piece);
    proof {
        let seg = s@.subrange(start as int, i as int);
        lemma_without_clean(s@.take(start as int), seg, c);
        assert(s@.take(start as int) + seg =~= s@);
        assert(s@.take(i as int) =~= s@);
    }
    out
}

} // verus!
