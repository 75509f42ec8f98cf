//! The bookkeeping of the camera system: the cameras that the detection script
//! lists, which streams to stop and start when the list changes, and the UDP
//! ports the streams are sent to.

use vstd::prelude::*;

verus! {

/// The first UDP port a camera stream is sent to.
pub const FIRST_STREAM_PORT: u16 = 1024;

/// The position of the first line feed in `s`, or its length when there is
/// none.
pub open spec fn first_newline(s: Seq<char>) -> int
    decreases s.len(),
{
    if s.len() == 0 {
        0
    } else if s[0] == '\n' {
        0
    } else {
        1 + first_newline(s.drop_first())
    }
}

/// A line without its carriage return, if it ends with one.
pub open spec fn strip_cr(line: Seq<char>) -> Seq<char> {
    if line.len() > 0 && line.last() == '\r' {
        line.drop_last()
    } else {
        line
    }
}

/// The lines of a text, as `str::lines` gives them: split at line feeds, each
/// line that a line feed ends without a trailing carriage return, and no
/// empty line after a final line feed.
pub open spec fn lines_of(s: Seq<char>) -> Seq<Seq<char>>
    decreases s.len(),
{
    if s.len() == 0 {
        Seq::empty()
    } else {
        let k = first_newline(s);
        if k < 0 || k >= s.len() {
            seq![s]
        } else {
            seq![strip_cr(s.subrange(0, k))] + lines_of(s.subrange(k + 1, s.len() as int))
        }
    }
}

proof fn lemma_first_newline_at(s: Seq<char>, k: int)
    requires
        0 <= k <= s.len(),
        k < s.len() ==> s[k] == '\n',
        forall|j: int| 0 <= j < k ==> s[j] != '\n',
    ensures
        first_newline(s) == k,
    decreases s.len(),
{
    if s.len() > 0 && k > 0 {
        assert forall|j: int| 0 <= j < k - 1 implies s.drop_first()[j] != '\n' by {
            assert(s.drop_first()[j] == s[j + 1]);
        }
        lemma_first_newline_at(s.drop_first(), k - 1);
    }
}

/// A line of `text` (from `from` to `to`) without its carriage return.
fn line_between(text: &str, from: usize, to: usize) -> (line: String)
    requires
        from <= to <= text@.len(),
    ensures
        line@ == strip_cr(text@.subrange(from as int, to as int)),
{
    let mut end = to;
    if to > from && text.get_char(to - 1) == '\r' {
        end = to - 1;
    }
    let piece = text.substring_char(from, end);
    assert(piece@ =~= strip_cr(text@.subrange(from as int, to as int)));
    piece.to_owned()
}

/// The lines of the detection script's output, one camera device per line.
pub fn split_lines(text: &str) -> (lines: Vec<String>)
    ensures
        names_of(lines@) == lines_of(text@),
{
    let n = text.unicode_len();
    let ghost s = text@;
    let mut lines: Vec<String> = Vec::new();
    let mut start: usize = 0;
    let mut i: usize = 0;
    assert(s.subrange(0, n as int) =~= s);
    while i < n
        invariant
            n == s.len(),
            s == text@,
            start <= i <= n,
            forall|j: int| start <= j < i ==> s[j] != '\n',
            names_of(lines@) + lines_of(s.subrange(start as int, n as int)) == lines_of(s),
        decreases n - i,
    {
        if text.get_char(i) == '\n' {
            let line = line_between(text, start, i);
            let ghost rest = s.subrange(start as int, n as int);
            proof {
                assert forall|j: int| 0 <= j < i - start implies rest[j] != '\n' by {
                    assert(rest[j] == s[start + j]);
                }
                lemma_first_newline_at(rest, i - start);
                assert(rest.subrange(0, i - start) =~= s.subrange(start as int, i as int));
                assert(rest.subrange(i - start + 1, rest.len() as int) =~= s.subrange(i + 1, n as int));
            }
            let ghost before = names_of(lines@);
            lines.push(line);
            assert(names_of(lines@) =~= before.push(line@));
            assert(before.push(line@) + lines_of(s.subrange(i + 1, n as int))
                =~= before + lines_of(rest));
            start = i + 1;
        }
        i = i + 1;
    }
    let ghost rest = s.subrange(start as int, n as int);
    if start < n {
        let line = text.substring_char(start, n).to_owned();
        proof {
            assert forall|j: int| 0 <= j < n - start implies rest[j] != '\n' by {
                assert(rest[j] == s[start + j]);
            }
            lemma_first_newline_at(rest, n - start);
            assert(rest.subrange(0, n - start) =~= rest);
        }
        let ghost before = names_of(lines@);
        lines.push(line);
        assert(names_of(lines@) =~= before.push(line@));
        assert(before + lines_of(rest) =~= before.push(line@));
    } else {
        assert(lines_of(rest) =~= Seq::<Seq<char>>::empty());
        assert(names_of(lines@) + lines_of(rest) =~= names_of(lines@));
    }
    lines
}

/// The texts of some strings.
pub open spec fn names_of(v: Seq<String>) -> Seq<Seq<char>> {
    v.map_values(|l: String| l@)
}

/// Whether `names` holds `name`.
fn holds(names: &Vec<String>, name: &String) -> (r: bool)
    ensures
        r == names_of(names@).contains(name@),
{
    let n = names.len();
    let mut i: usize = 0;
    while i < n
        invariant
            i <= n,
            n == names.len(),
            forall|j: int| 0 <= j < i ==> (#[trigger] names@[j])@ != name@,
        decreases n - i,
    {
        if names[i] == *name {
            assert(names_of(names@)[i as int] == name@);
            return true;
        }
        i = i + 1;
    }
    assert(!names_of(names@).contains(name@)) by {
        if names_of(names@).contains(name@) {
            let k = choose|k: int| 0 <= k < n && #[trigger] names_of(names@)[k] == name@;
            assert(names@[k]@ == name@);
        }
    }
    false
}

/// The names of `a` that `b` does not hold, in the order of `a`.
pub open spec fn names_missing(a: Seq<Seq<char>>, b: Seq<Seq<char>>) -> Seq<Seq<char>> {
    a.filter(not_in(b))
}

/// Whether a name is missing from `b`.
pub open spec fn not_in(b: Seq<Seq<char>>) -> spec_fn(Seq<char>) -> bool {
    |x: Seq<char>| !b.contains(x)
}

/// The names of `a` that `b` does not hold, in the order of `a`.
pub fn difference(a: &Vec<String>, b: &Vec<String>) -> (d: Vec<String>)
    ensures
        names_of(d@) == names_missing(names_of(a@), names_of(b@)),
{
    let ghost av = names_of(a@);
    let ghost bv = names_of(b@);
    let mut d: Vec<String> = Vec::new();
    let n = a.len();
    let mut i: usize = 0;
    while i < n
        invariant
            i <= n,
            n == a.len(),
            av == names_of(a@),
            bv == names_of(b@),
            names_of(d@) == names_missing(av.subrange(0, i as int), bv),
        decreases n - i,
    {
        let ghost before = names_of(d@);
        let keep = !holds(b, &a[i]);
        assert(av.subrange(0, i + 1).drop_last() =~= av.subrange(0, i as int));
        assert(av.subrange(0, i + 1).last() == a[i as int]@);
        proof {
            av.subrange(0, i as int).lemma_filter_push(a[i as int]@, not_in(bv));
            assert(av.subrange(0, i as int).push(a[i as int]@) =~= av.subrange(0, i + 1));
        }
        assert(names_missing(av.subrange(0, i + 1), bv) == if keep {
            names_missing(av.subrange(0, i as int), bv).push(a[i as int]@)
        } else {
            names_missing(av.subrange(0, i as int), bv)
        });
        if keep {
            d.push(a[i].clone());
            assert(names_of(d@) =~= before.push(a[i as int]@));
        }
        i = i + 1;
    }
    assert(av.subrange(0, n as int) =~= av);
    d
}

/// The change from the cameras found last time to the ones found now: the
/// cameras to stop (gone) and the cameras to start (new).
pub fn camera_changes(last: &Vec<String>, next: &Vec<String>) -> (changes: (Vec<String>, Vec<String>))
    ensures
        names_of(changes.0@) == names_missing(names_of(last@), names_of(next@)),
        names_of(changes.1@) == names_missing(names_of(next@), names_of(last@)),
{
    (difference(last, next), difference(next, last))
}

/// Camera law: after the change, exactly the cameras found now are streaming:
/// a camera streams afterwards if and only if it was found now.
pub proof fn lemma_changes_reach_next(last: Seq<Seq<char>>, next: Seq<Seq<char>>, x: Seq<char>)
    ensures
        ((last.contains(x) && !names_missing(last, next).contains(x)) || names_missing(next, last).contains(x))
            <==> next.contains(x),
{
    let p = not_in(next);
    let q = not_in(last);
    if last.filter(p).contains(x) {
        last.lemma_filter_contains_rev(p, x);
        last.lemma_filter_pred(p, last.filter(p).index_of(x));
    }
    if next.filter(q).contains(x) {
        next.lemma_filter_contains_rev(q, x);
    }
    if last.contains(x) && !next.contains(x) {
        last.lemma_filter_contains(p, last.index_of(x));
    }
    if next.contains(x) && !last.contains(x) {
        next.lemma_filter_contains(q, next.index_of(x));
    }
}

/// The port after a stream was started on `port`; `None` when there is no
/// further port.
pub fn next_stream_port(port: u16) -> (r: Option<u16>)
    ensures
        r == (if port < u16::MAX { Some((port + 1) as u16) } else { None::<u16> }),
{
    port.checked_add(1)
}

} // verus!
