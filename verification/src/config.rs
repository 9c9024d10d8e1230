use vstd::prelude::*;
use vstd::slice::{slice_subrange, slice_to_vec};
use crate::route::RouteDefinition;

verus! {

/// The byte that separates lines of the route list.
pub const LINE_FEED: u8 = 10;

/// A carriage return just before a line feed is not part of the line.
pub const CARRIAGE_RETURN: u8 = 13;

/// The byte that separates the two addresses of a route line.
pub const SPACE: u8 = 32;

/// A route line with no space in it cannot be split into a listen address
/// and a destination; the payload is the index of the first such line,
/// counting from zero.
#[derive(Clone, Copy, PartialEq, Eq, Structural, Debug)]
pub enum ConfigError {
    MalformedLine(usize),
}

/// The index of the first occurrence of `b` in `s`, or `s.len()` if `b`
/// does not occur.
pub open spec fn first_index(s: Seq<u8>, b: u8) -> int
    decreases s.len(),
{
    if s.len() == 0 {
        0
    } else if s[0] == b {
        0
    } else {
        1 + first_index(s.skip(1), b)
    }
}

/// What `first_index` returns: a position within the sequence, holding `b`
/// if within bounds, with no occurrence of `b` before it.
pub proof fn lemma_first_index(s: Seq<u8>, b: u8)
    ensures
        0 <= first_index(s, b) <= s.len(),
        first_index(s, b) < s.len() ==> s[first_index(s, b)] == b,
        forall|j: int| 0 <= j < first_index(s, b) ==> s[j] != b,
    decreases s.len(),
{
    if s.len() == 0 {
    } else if s[0] == b {
    } else {
        lemma_first_index(s.skip(1), b);
        let f: int = first_index(s, b);
        assert forall|j: int| 0 <= j < f implies s[j] != b by {
            if j > 0 {
                assert(s.skip(1)[j - 1] == s[j]);
            }
        }
        if f < s.len() {
            assert(s.skip(1)[f - 1] == s[f]);
        }
    }
}

/// One line with a single trailing carriage return removed.
pub open spec fn strip_cr(l: Seq<u8>) -> Seq<u8> {
    if l.len() > 0 && l.last() == CARRIAGE_RETURN {
        l.drop_last()
    } else {
        l
    }
}

/// The lines of the route list text: split on line feeds, one trailing
/// carriage return per line removed, and no empty final line when the text
/// ends with a line feed.
pub open spec fn spec_lines(s: Seq<u8>) -> Seq<Seq<u8>>
    decreases s.len(),
{
    if s.len() == 0 {
        Seq::empty()
    } else {
        let i = first_index(s, LINE_FEED);
        if 0 <= i < s.len() {
            seq![strip_cr(s.take(i))] + spec_lines(s.skip(i + 1))
        } else {
            seq![strip_cr(s)]
        }
    }
}

/// Splitting one route line at its first space: the part before it is the
/// listen address, everything after it the destination. A line without a
/// space cannot be split.
pub open spec fn spec_split_line(l: Seq<u8>) -> Option<(Seq<u8>, Seq<u8>)> {
    let i = first_index(l, SPACE);
    if 0 <= i < l.len() {
        Some((l.take(i), l.skip(i + 1)))
    } else {
        None
    }
}

/// Whether a route line is well formed, that is, holds a space.
pub open spec fn line_ok(l: Seq<u8>) -> bool {
    spec_split_line(l) is Some
}

/// Finds the first occurrence of `b` in `text` at or after `from`,
/// returning `text.len()` if there is none.
fn scan_to(text: &[u8], from: usize, b: u8) -> (q: usize)
    requires
        from <= text@.len(),
    ensures
        from <= q <= text@.len(),
        forall|j: int| from <= j < q ==> text@[j] != b,
        q < text@.len() ==> text@[q as int] == b,
{
    let mut q: usize = from;
    while q < text.len()
        invariant
            from <= q <= text@.len(),
            forall|j: int| from <= j < q ==> text@[j] != b,
        decreases text@.len() - q,
    {
        if text[q] == b {
            return q;
        }
        q = q + 1;
    }
    q
}

/// Splits one route line at its first space into a route, or reports that
/// the line holds no space.
pub fn parse_route_line(line: &[u8]) -> (r: Option<RouteDefinition>)
    ensures
        r is Some <==> line_ok(line@),
        r matches Some(rd) ==> ({
            let i = first_index(line@, SPACE);
            rd.source@ == line@.take(i) && rd.destination@ == line@.skip(i + 1)
        }),
{
    proof {
        lemma_first_index(line@, SPACE);
    }
    let q: usize = scan_to(line, 0, SPACE);
    proof {
        assert(first_index(line@, SPACE) == q);
    }
    if q == line.len() {
        None
    } else {
        let src = slice_to_vec(slice_subrange(line, 0, q));
        let dst = slice_to_vec(slice_subrange(line, q + 1, line.len()));
        proof {
            assert(line@.subrange(0, q as int) =~= line@.take(q as int));
            assert(line@.subrange(q + 1, line@.len() as int) =~= line@.skip(q + 1));
        }
        Some(RouteDefinition::new(src, dst))
    }
}

/// Parses the whole route list: one route per line, the listen address and
/// the destination separated by the first space of the line. Returns the
/// routes in file order, or the index of the first line that holds no
/// space; nothing else is rejected, and an empty text yields no routes.
pub fn parse_config(text: &[u8]) -> (r: Result<Vec<RouteDefinition>, ConfigError>)
    ensures
        r is Ok <==> (forall|k: int|
            0 <= k < spec_lines(text@).len() ==> line_ok(#[trigger] spec_lines(text@)[k])),
        r matches Ok(v) ==> v@.len() == spec_lines(text@).len() && (forall|k: int|
            0 <= k < v@.len() ==> ({
                let line = spec_lines(text@)[k];
                let i = first_index(line, SPACE);
                &&& (#[trigger] v@[k]).source@ == line.take(i)
                &&& v@[k].destination@ == line.skip(i + 1)
            })),
        r matches Err(ConfigError::MalformedLine(kk)) ==> ({
            &&& 0 <= kk < spec_lines(text@).len()
            &&& !line_ok(spec_lines(text@)[kk as int])
            &&& forall|j: int| 0 <= j < kk ==> line_ok(#[trigger] spec_lines(text@)[j])
        }),
{
    let ghost all = spec_lines(text@);
    let mut routes: Vec<RouteDefinition> = Vec::new();
    let mut pos: usize = 0;
    proof {
        assert(text@.skip(0) =~= text@);
        assert(all.skip(0) =~= all);
    }
    while pos < text.len()
        invariant
            all == spec_lines(text@),
            pos <= text@.len(),
            routes@.len() <= all.len(),
            spec_lines(text@.skip(pos as int)) == all.skip(routes@.len() as int),
            pos == text@.len() ==> routes@.len() == all.len(),
            forall|k: int| 0 <= k < routes@.len() ==> line_ok(#[trigger] all[k]),
            forall|k: int|
                0 <= k < routes@.len() ==> ({
                    let line = all[k];
                    let i = first_index(line, SPACE);
                    &&& (#[trigger] routes@[k]).source@ == line.take(i)
                    &&& routes@[k].destination@ == line.skip(i + 1)
                }),
        decreases text@.len() - pos,
    {
        let ghost s = text@.skip(pos as int);
        let ghost k = routes@.len() as int;
        proof {
            lemma_first_index(s, LINE_FEED);
        }
        let q: usize = scan_to(text, pos, LINE_FEED);
        proof {
            assert forall|j: int| 0 <= j < q - pos implies s[j] != LINE_FEED by {
                assert(s[j] == text@[pos + j]);
            }
            if q < text@.len() {
                assert(s[q - pos] == text@[q as int]);
            }
            assert(first_index(s, LINE_FEED) == q - pos);
        }
        let mut end: usize = q;
        if end > pos && text[end - 1] == CARRIAGE_RETURN {
            end = end - 1;
        }
        let ghost line = all[k];
        proof {
            if q < text@.len() {
                assert(spec_lines(s) == seq![strip_cr(s.take(q - pos))] + spec_lines(
                    s.skip(q - pos + 1),
                ));
                assert(strip_cr(s.take(q - pos)) =~= text@.subrange(pos as int, end as int));
                assert(s.skip(q - pos + 1) =~= text@.skip(q + 1));
            } else {
                assert(spec_lines(s) == seq![strip_cr(s)]);
                assert(strip_cr(s) =~= text@.subrange(pos as int, end as int));
            }
            assert(all.skip(k)[0] == all[k]);
            assert(line == text@.subrange(pos as int, end as int));
        }
        let line_slice = slice_subrange(text, pos, end);
        match parse_route_line(line_slice) {
            Some(rd) => {
                proof {
                    assert(line_ok(line));
                }
                routes.push(rd);
                proof {
                    assert(routes@[k] == rd);
                    assert(routes@[k].source@ == line.take(first_index(line, SPACE)));
                    assert(routes@[k].destination@ == line.skip(first_index(line, SPACE) + 1));
                }
            },
            None => {
                proof {
                    assert(!line_ok(line));
                    assert(0 <= k < all.len());
                    assert(!line_ok(spec_lines(text@)[k]));
                }
                return Err(ConfigError::MalformedLine(routes.len()));
            },
        }
        proof {
            if q < text@.len() {
                let tail = spec_lines(s.skip(q - pos + 1));
                assert((seq![line] + tail).skip(1) =~= tail);
                assert(all.skip(k + 1) =~= all.skip(k).skip(1));
                assert(spec_lines(text@.skip(q + 1)) == all.skip(k + 1));
            } else {
                assert(all.skip(k) =~= seq![line]);
                assert(all.skip(k).len() == all.len() - k);
                assert(all.len() == k + 1);
                assert(text@.skip(q as int).len() == 0);
                assert(spec_lines(text@.skip(q as int)) == Seq::<Seq<u8>>::empty());
                assert(all.skip(k + 1) =~= Seq::<Seq<u8>>::empty());
            }
        }
        if q < text.len() {
            pos = q + 1;
        } else {
            pos = q;
        }
    }
    proof {
        assert(spec_lines(text@.skip(pos as int)) == Seq::<Seq<u8>>::empty());
    }
    Ok(routes)
}

} // verus!
