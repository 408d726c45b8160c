//! The media formats that the server accepts, read from the listing that
//! `ffmpeg -formats` prints.

use crate::comms::texts;
use crate::text::{chars_of, is_space, is_whitespace, lowercase, remove_char, to_lowercase, without};
use vstd::prelude::*;
use vstd::utf8::{decode_utf8, valid_utf8};

verus! {

/// First position at or after `i` that holds `c`, or the length when none does.
pub open spec fn find_from(xs: Seq<char>, c: char, i: nat) -> nat
    decreases xs.len() - i,
{
    if i >= xs.len() {
        xs.len()
    } else if xs[i as int] == c {
        i
    } else {
        find_from(xs, c, i + 1)
    }
}

/// First position at or after `i` that holds white space, or the length.
pub open spec fn space_from(xs: Seq<char>, i: nat) -> nat
    decreases xs.len() - i,
{
    if i >= xs.len() {
        xs.len()
    } else if is_space(xs[i as int]) {
        i
    } else {
        space_from(xs, i + 1)
    }
}

/// First position at or after `i` that holds no white space, or the length.
pub open spec fn word_from(xs: Seq<char>, i: nat) -> nat
    decreases xs.len() - i,
{
    if i >= xs.len() {
        xs.len()
    } else if !is_space(xs[i as int]) {
        i
    } else {
        word_from(xs, i + 1)
    }
}

proof fn lemma_find_from_bounds(xs: Seq<char>, c: char, i: nat)
    ensures
        find_from(xs, c, i) <= xs.len(),
        i <= xs.len() ==> i <= find_from(xs, c, i),
        find_from(xs, c, i) < xs.len() ==> xs[find_from(xs, c, i) as int] == c,
    decreases xs.len() - i,
{
    if i < xs.len() && xs[i as int] != c {
        lemma_find_from_bounds(xs, c, i + 1);
    }
}

proof fn lemma_space_from_bounds(xs: Seq<char>, i: nat)
    ensures
        space_from(xs, i) <= xs.len(),
        i <= xs.len() ==> i <= space_from(xs, i),
    decreases xs.len() - i,
{
    if i < xs.len() && !is_space(xs[i as int]) {
        lemma_space_from_bounds(xs, i + 1);
    }
}

proof fn lemma_word_from_bounds(xs: Seq<char>, i: nat)
    ensures
        word_from(xs, i) <= xs.len(),
        i <= xs.len() ==> i <= word_from(xs, i),
    decreases xs.len() - i,
{
    if i < xs.len() && is_space(xs[i as int]) {
        lemma_word_from_bounds(xs, i + 1);
    }
}

/// A line without the carriage return before its line feed.
pub open spec fn strip_cr(line: Seq<char>) -> Seq<char> {
    if line.len() > 0 && line.last() == '\r' {
        line.drop_last()
    } else {
        line
    }
}

/// The lines of a text as `str::lines` yields them: split at line feeds, a
/// carriage return before a line feed dropped, no line after a final line feed.
pub open spec fn lines(s: Seq<char>) -> Seq<Seq<char>>
    decreases s.len(),
{
    if s.len() == 0 {
        Seq::empty()
    } else {
        let e = find_from(s, '\n', 0);
        if e >= s.len() {
            seq![s]
        } else {
            seq![strip_cr(s.take(e as int))] + lines(s.skip((e + 1) as int))
        }
    }
}

/// The format a line of the listing names, if it names one that can be
/// demuxed: after leading white space the line starts with `DE` or `D `, and
/// the second word, in lower case and without commas, is the format.
pub open spec fn format_of_line(l: Seq<char>) -> Option<Seq<char>> {
    let a = word_from(l, 0);
    if a + 2 <= l.len() && l[a as int] == 'D' && (l[(a + 1) as int] == 'E' || l[(a + 1) as int] == ' ') {
        let f = space_from(l, a);
        let b = word_from(l, f);
        if b >= l.len() {
            None
        } else {
            let c = space_from(l, b);
            Some(without(lowercase(l.subrange(b as int, c as int)), ','))
        }
    } else {
        None
    }
}

/// Past a stretch of white space from `i` to `j`, the first non-space
/// position is `j` when `j` ends the text or holds no white space.
proof fn lemma_word_from_at(xs: Seq<char>, i: nat, j: nat)
    requires
        i <= j <= xs.len(),
        forall|k: int| i <= k < j ==> is_space(#[trigger] xs[k]),
        j < xs.len() ==> !is_space(xs[j as int]),
    ensures
        word_from(xs, i) == j,
    decreases j - i,
{
    if i < j {
        lemma_word_from_at(xs, i + 1, j);
    }
}

/// Past a stretch without white space from `i` to `j`, the first space is at
/// `j` when `j` ends the text or holds white space.
proof fn lemma_space_from_at(xs: Seq<char>, i: nat, j: nat)
    requires
        i <= j <= xs.len(),
        forall|k: int| i <= k < j ==> !is_space(#[trigger] xs[k]),
        j < xs.len() ==> is_space(xs[j as int]),
    ensures
        space_from(xs, i) == j,
    decreases j - i,
{
    if i < j {
        lemma_space_from_at(xs, i + 1, j);
    }
}

/// A line that, after white space, starts with `DE` or `D `, then after more
/// white space names a word, names that word as its format, in lower case
/// and without commas, whatever follows the word after white space.
pub proof fn lemma_format_line_named(pad: Seq<char>, second: char, gap: Seq<char>, word: Seq<char>, rest: Seq<char>)
    requires
        forall|k: int| 0 <= k < pad.len() ==> is_space(#[trigger] pad[k]),
        second == 'E' || second == ' ',
        second == 'E' ==> gap.len() >= 1,
        forall|k: int| 0 <= k < gap.len() ==> is_space(#[trigger] gap[k]),
        word.len() >= 1,
        forall|k: int| 0 <= k < word.len() ==> !is_space(#[trigger] word[k]),
        rest.len() == 0 || is_space(rest[0]),
    ensures
        format_of_line(pad + seq!['D', second] + gap + word + rest) == Some(
            without(lowercase(word), ','),
        ),
{
    let l = pad + seq!['D', second] + gap + word + rest;
    let a = pad.len();
    let g = a + 2;
    let b = g + gap.len();
    let c = b + word.len();
    assert forall|k: int| 0 <= k < a implies is_space(#[trigger] l[k]) by {
        assert(l[k] == pad[k]);
    }
    assert(l[a as int] == 'D');
    assert(l[(a + 1) as int] == second);
    assert(!is_space('D'));
    assert(!is_space('E'));
    assert(is_space(' '));
    lemma_word_from_at(l, 0, a);
    assert forall|k: int| g <= k < b implies is_space(#[trigger] l[k]) by {
        assert(l[k] == gap[k - g]);
    }
    assert forall|k: int| b <= k < c implies !is_space(#[trigger] l[k]) by {
        assert(l[k] == word[k - b]);
    }
    assert(l[b as int] == word[0]);
    if c < l.len() {
        assert(l[c as int] == rest[0]);
    }
    if second == 'E' {
        assert(l[g as int] == gap[0]);
        lemma_space_from_at(l, a, g);
        lemma_word_from_at(l, g, b);
    } else {
        lemma_space_from_at(l, a, (a + 1) as nat);
        assert forall|k: int| a + 1 <= k < b implies is_space(#[trigger] l[k]) by {
            if k >= g {
                assert(l[k] == gap[k - g]);
            }
        }
        lemma_word_from_at(l, (a + 1) as nat, b);
    }
    lemma_space_from_at(l, b, c);
    assert(l.subrange(b as int, c as int) =~= word);
}

/// A line whose first character after white space is not `D` followed by
/// `E` or a space names no format.
pub proof fn lemma_format_line_unnamed(pad: Seq<char>, first: char, second: char, tail: Seq<char>)
    requires
        forall|k: int| 0 <= k < pad.len() ==> is_space(#[trigger] pad[k]),
        !is_space(first),
        !(first == 'D' && (second == 'E' || second == ' ')),
    ensures
        format_of_line(pad + seq![first, second] + tail) is None,
        format_of_line(pad + seq![first]) is None,
        format_of_line(pad) is None,
{
    let l = pad + seq![first, second] + tail;
    let a = pad.len();
    assert forall|k: int| 0 <= k < a implies is_space(#[trigger] l[k]) by {
        assert(l[k] == pad[k]);
    }
    assert(l[a as int] == first);
    assert(l[(a + 1) as int] == second);
    lemma_word_from_at(l, 0, a);
    let m = pad + seq![first];
    assert forall|k: int| 0 <= k < a implies is_space(#[trigger] m[k]) by {
        assert(m[k] == pad[k]);
    }
    assert(m[a as int] == first);
    lemma_word_from_at(m, 0, a);
    lemma_word_from_at(pad, 0, a);
}

/// The formats named by a list of lines, line after line.
pub open spec fn formats_of_lines(ls: Seq<Seq<char>>) -> Seq<Seq<char>>
    decreases ls.len(),
{
    if ls.len() == 0 {
        Seq::empty()
    } else {
        match format_of_line(ls.last()) {
            Some(f) => formats_of_lines(ls.drop_last()).push(f),
            None => formats_of_lines(ls.drop_last()),
        }
    }
}

/// A list with every element after its first occurrence dropped.
pub open spec fn dedup(xs: Seq<Seq<char>>) -> Seq<Seq<char>>
    decreases xs.len(),
{
    if xs.len() == 0 {
        Seq::empty()
    } else if dedup(xs.drop_last()).contains(xs.last()) {
        dedup(xs.drop_last())
    } else {
        dedup(xs.drop_last()).push(xs.last())
    }
}

/// Dropping repeats keeps every element once and adds none: the result has
/// no repeats and holds exactly what the list holds.
pub proof fn lemma_dedup(xs: Seq<Seq<char>>)
    ensures
        forall|i: int, j: int| 0 <= i < j < dedup(xs).len() ==> dedup(xs)[i] != dedup(xs)[j],
        forall|x: Seq<char>| dedup(xs).contains(x) <==> xs.contains(x),
    decreases xs.len(),
{
    if xs.len() > 0 {
        let init = xs.drop_last();
        lemma_dedup(init);
        assert forall|x: Seq<char>| xs.contains(x) <==> init.contains(x) || x == xs.last() by {
            if xs.contains(x) {
                let k = choose|k: int| 0 <= k < xs.len() && xs[k] == x;
                if k < xs.len() - 1 {
                    assert(init[k] == x);
                }
            }
            if init.contains(x) {
                let k = choose|k: int| 0 <= k < init.len() && init[k] == x;
                assert(xs[k] == x);
            }
            if x == xs.last() {
                assert(xs[xs.len() - 1] == x);
            }
        }
        let d = dedup(init);
        if !d.contains(xs.last()) {
            let e = d.push(xs.last());
            assert forall|x: Seq<char>| e.contains(x) <==> d.contains(x) || x == xs.last() by {
                if e.contains(x) {
                    let k = choose|k: int| 0 <= k < e.len() && e[k] == x;
                    if k < d.len() {
                        assert(d[k] == x);
                    }
                }
                if d.contains(x) {
                    let k = choose|k: int| 0 <= k < d.len() && d[k] == x;
                    assert(e[k] == x);
                }
                if x == xs.last() {
                    assert(e[e.len() - 1] == x);
                }
            }
            assert forall|i: int, j: int| 0 <= i < j < e.len() implies e[i] != e[j] by {
                if j == e.len() - 1 {
                    assert(d[i] == e[i]);
                }
            }
        }
    }
}

/// The formats of a listing, each once, in the order they first appear.
pub open spec fn formats_of(listing: Seq<char>) -> Seq<Seq<char>> {
    dedup(formats_of_lines(lines(listing)))
}

/// First position at or after `from` that holds `c`, or the length.
fn find_char(xs: &[char], c: char, from: usize) -> (r: usize)
    requires
        from <= xs@.len(),
    ensures
        r == find_from(xs@, c, from as nat),
{
    let mut i = from;
    while i < xs.len()
        invariant
            from <= i <= xs@.len(),
            find_from(xs@, c, from as nat) == find_from(xs@, c, i as nat),
        decreases xs@.len() - i,
    {
        if xs[i] == c {
            return i;
        }
        i = i + 1;
    }
    i
}

/// First position at or after `from` that holds white space, or the length.
fn find_space(xs: &[char], from: usize) -> (r: usize)
    requires
        from <= xs@.len(),
    ensures
        r == space_from(xs@, from as nat),
{
    let mut i = from;
    while i < xs.len()
        invariant
            from <= i <= xs@.len(),
            space_from(xs@, from as nat) == space_from(xs@, i as nat),
        decreases xs@.len() - i,
    {
        if is_whitespace(xs[i]) {
            return i;
        }
        i = i + 1;
    }
    i
}

/// First position at or after `from` that holds no white space, or the length.
fn find_word(xs: &[char], from: usize) -> (r: usize)
    requires
        from <= xs@.len(),
    ensures
        r == word_from(xs@, from as nat),
{
    let mut i = from;
    while i < xs.len()
        invariant
            from <= i <= xs@.len(),
            word_from(xs@, from as nat) == word_from(xs@, i as nat),
        decreases xs@.len() - i,
    {
        if !is_whitespace(xs[i]) {
            return i;
        }
        i = i + 1;
    }
    i
}

/// The format a line names, if any; the line is `line`, found at character
/// `offset` of `listing`.
fn line_format(listing: &str, offset: usize, line: &[char]) -> (r: Option<String>)
    requires
        offset + line@.len() <= listing@.len(),
        offset + line@.len() <= usize::MAX,
        line@ == listing@.subrange(offset as int, offset + line@.len()),
    ensures
        match r {
            Some(f) => format_of_line(line@) == Some(f@),
            None => format_of_line(line@) is None,
        },
{
    let a = find_word(line, 0);
    proof {
        lemma_word_from_bounds(line@, 0);
    }
    if a < line.len() && line.len() - a >= 2 && line[a] == 'D' && (line[a + 1] == 'E' || line[a + 1] == ' ') {
        let f = find_space(line, a);
        proof {
            lemma_space_from_bounds(line@, a as nat);
        }
        let b = find_word(line, f);
        proof {
            lemma_word_from_bounds(line@, f as nat);
        }
        if b >= line.len() {
            None
        } else {
            let c = find_space(line, b);
            proof {
                lemma_space_from_bounds(line@, b as nat);
            }
            let word = listing.substring_char(offset + b, offset + c);
            assert(word@ =~= line@.subrange(b as int, c as int));
            let lower = to_lowercase(word);
            Some(remove_char(lower.as_str(), ','))
        }
    } else {
        None
    }
}

/// Whether `xs` holds a string equal to `x`.
fn holds(xs: &Vec<String>, x: &String) -> (r: bool)
    ensures
        r == texts(xs@).contains(x@),
{
    let mut i: usize = 0;
    while i < xs.len()
        invariant
            i <= xs@.len(),
            forall|j: int| 0 <= j < i ==> xs@[j]@ != x@,
        decreases xs@.len() - i,
    {
        if xs[i] == *x {
            assert(texts(xs@)[i as int] == x@);
            return true;
        }
        i = i + 1;
    }
    proof {
        if texts(xs@).contains(x@) {
            let j = choose|j: int| 0 <= j < texts(xs@).len() && texts(xs@)[j] == x@;
            assert(xs@[j]@ == x@);
        }
    }
    false
}

/// The formats that a `ffmpeg -formats` listing offers for demuxing: of each
/// line that starts, after white space, with `DE` or `D `, the second word in
/// lower case with its commas taken out; each format once, in the order in
/// which they first appear.
pub fn supported_formats(listing: &str) -> (r: Vec<String>)
    ensures
        texts(r@) == formats_of(listing@),
{
    let cs = chars_of(listing);
    let n = cs.len();
    let mut p: usize = 0;
    let mut out: Vec<String> = Vec::new();
    let ghost mut done: Seq<Seq<char>> = Seq::empty();
    assert(listing@.skip(0) =~= listing@);
    assert(done + lines(listing@) =~= lines(listing@));
    assert(texts(out@) =~= dedup(formats_of_lines(done)));
    while p < n
        invariant
            cs@ == listing@,
            n == cs@.len(),
            p <= n,
            lines(listing@) == done + lines(listing@.skip(p as int)),
            texts(out@) == dedup(formats_of_lines(done)),
        decreases n - p,
    {
        let rest = &cs.as_slice()[p..n];
        assert(rest@ =~= listing@.skip(p as int));
        let e = find_char(rest, '\n', 0);
        proof {
            lemma_find_from_bounds(rest@, '\n', 0);
        }
        let line_end: usize;
        let next: usize;
        if e < rest.len() {
            line_end = if e > 0 && rest[e - 1] == '\r' {
                e - 1
            } else {
                e
            };
            next = p + e + 1;
        } else {
            line_end = e;
            next = n;
        }
        let line = &rest[0..line_end];
        let ghost this_line = line@;
        assert(line@ =~= listing@.subrange(p as int, p + line@.len()));
        proof {
            if e < rest@.len() {
                assert(line@ =~= strip_cr(rest@.take(e as int)));
                assert(rest@.skip((e + 1) as int) =~= listing@.skip(next as int));
            } else {
                assert(line@ =~= rest@);
                assert(listing@.skip(next as int) =~= Seq::<char>::empty());
            }
            assert(lines(rest@) == seq![this_line] + lines(listing@.skip(next as int)));
            assert(done + lines(rest@) =~= done.push(this_line) + lines(listing@.skip(next as int)));
            assert(done.push(this_line).drop_last() =~= done);
        }
        let ghost old_fs = formats_of_lines(done);
        assert(formats_of_lines(done.push(this_line)) == match format_of_line(this_line) {
            Some(g) => old_fs.push(g),
            None => old_fs,
        });
        match line_format(listing, p, line) {
            Some(f) => {
                assert(old_fs.push(f@).drop_last() =~= old_fs);
                if !holds(&out, &f) {
                    let ghost before = out@;
                    out.push(f);
                    assert(texts(out@) =~= texts(before).push(f@));
                }
            },
            None => {},
        }
        proof {
            done = done.push(this_line);
        }
        p = next;
    }
    assert(listing@.skip(p as int) =~= Seq::<char>::empty());
    assert(done + Seq::<Seq<char>>::empty() =~= done);
    out
}

/// The text of `bytes` as `String::from_utf8_lossy` reads it: each stretch
/// that is no UTF-8 becomes U+FFFD.
pub uninterp spec fn lossy_text(bytes: Seq<u8>) -> Seq<char>;

/// Calls `String::from_utf8_lossy`; its text is named by `lossy_text`, and
/// std documents that valid UTF-8 comes back as it is.
#[verifier::external_body]
fn lossy_utf8(bytes: &[u8]) -> (t: String)
    ensures
        t@ == lossy_text(bytes@),
        valid_utf8(bytes@) ==> t@ == decode_utf8(bytes@),
{
    String::from_utf8_lossy(bytes).into_owned()
}

/// The formats that the output of `ffmpeg -formats` offers for demuxing,
/// the output read as UTF-8 with any invalid stretch replaced.
pub fn formats_of_output(output: &[u8]) -> (r: Vec<String>)
    ensures
        texts(r@) == formats_of(lossy_text(output@)),
        valid_utf8(output@) ==> texts(r@) == formats_of(decode_utf8(output@)),
{
    let listing = lossy_utf8(output);
    supported_formats(listing.as_str())
}

} // verus!
