//! Boundary polygon files: a simple delimited text format with a header
//! line followed by one `x,y` integer record per line. Lines end with a
//! newline, an optional carriage return before it is dropped, and blank
//! lines are skipped; any other malformed line rejects the whole file.

use vstd::prelude::*;
use vstd::slice::{slice_index_get, slice_subrange};
use crate::geometry::Point;

verus! {

/// ASCII codes the grammar mentions.
pub const NEWLINE: u8 = 10;

pub const CARRIAGE_RETURN: u8 = 13;

pub const COMMA: u8 = 44;

pub const MINUS: u8 = 45;

pub open spec fn is_digit(b: u8) -> bool {
    48 <= b <= 57
}

/// The value of a sequence of decimal digit bytes, most significant first.
pub open spec fn digits_val(s: Seq<u8>) -> int
    decreases s.len(),
{
    if s.len() == 0 {
        0
    } else {
        digits_val(s.drop_last()) * 10 + (s.last() - 48)
    }
}

pub open spec fn all_digits(s: Seq<u8>) -> bool {
    forall|i: int| 0 <= i < s.len() ==> is_digit(#[trigger] s[i])
}

/// The value of a decimal token with an optional leading minus; nothing
/// when the token is empty, holds a non-digit, or does not fit an `i32`.
pub open spec fn int_token(s: Seq<u8>) -> Option<int> {
    if s.len() > 0 && s[0] == MINUS {
        let mag = s.skip(1);
        if mag.len() > 0 && all_digits(mag) && -digits_val(mag) >= i32::MIN {
            Some(-digits_val(mag))
        } else {
            None
        }
    } else if s.len() > 0 && all_digits(s) && digits_val(s) <= i32::MAX {
        Some(digits_val(s))
    } else {
        None
    }
}

/// The position of the first `b` at or after `i`, or the length when there
/// is none.
pub open spec fn find_from(s: Seq<u8>, i: int, b: u8) -> int
    decreases s.len() - i,
{
    if i < 0 || i >= s.len() {
        s.len() as int
    } else if s[i] == b {
        i
    } else {
        find_from(s, i + 1, b)
    }
}

pub proof fn lemma_find_from_bounds(s: Seq<u8>, i: int, b: u8)
    requires
        0 <= i <= s.len(),
    ensures
        i <= find_from(s, i, b) <= s.len(),
    decreases s.len() - i,
{
    if i < s.len() && s[i] != b {
        lemma_find_from_bounds(s, i + 1, b);
    }
}

/// A line without its trailing carriage return, if it has one.
pub open spec fn trim_cr(l: Seq<u8>) -> Seq<u8> {
    if l.len() > 0 && l[l.len() - 1] == CARRIAGE_RETURN {
        l.drop_last()
    } else {
        l
    }
}

/// The point a line denotes: an integer token up to the first comma, and
/// one after it; nothing when there is no comma or either token is bad.
pub open spec fn line_point(l: Seq<u8>) -> Option<(int, int)> {
    let c = find_from(l, 0, COMMA);
    if c == l.len() {
        None
    } else {
        match (int_token(l.subrange(0, c)), int_token(l.subrange(c + 1, l.len() as int))) {
            (Some(x), Some(y)) => Some((x, y)),
            _ => None,
        }
    }
}

/// The lines of `s` from position `i` on, split at newlines; a trailing
/// newline does not open a final empty line.
pub open spec fn lines_from(s: Seq<u8>, i: int) -> Seq<Seq<u8>>
    decreases s.len() - i,
    when true
    via lines_from_decreases
{
    if i < 0 || i >= s.len() {
        Seq::empty()
    } else {
        let e = find_from(s, i, NEWLINE);
        let nxt = if e < s.len() {
            e + 1
        } else {
            s.len() as int
        };
        seq![s.subrange(i, e)] + lines_from(s, nxt)
    }
}

#[via_fn]
proof fn lines_from_decreases(s: Seq<u8>, i: int) {
    if 0 <= i && i < s.len() {
        lemma_find_from_bounds(s, i, NEWLINE);
    }
}

/// The points of a list of lines: blank lines (after dropping a carriage
/// return) are skipped, and every other line must denote a point.
pub open spec fn points_of_lines(ls: Seq<Seq<u8>>) -> Option<Seq<(int, int)>>
    decreases ls.len(),
{
    if ls.len() == 0 {
        Some(Seq::empty())
    } else {
        let l = trim_cr(ls[0]);
        if l.len() == 0 {
            points_of_lines(ls.drop_first())
        } else {
            match (line_point(l), points_of_lines(ls.drop_first())) {
                (Some(p), Some(r)) => Some(seq![p] + r),
                _ => None,
            }
        }
    }
}

/// The polygon a whole file denotes: the points of every line after the
/// header line.
pub open spec fn parse_polygon_spec(s: Seq<u8>) -> Option<Seq<(int, int)>> {
    let ls = lines_from(s, 0);
    if ls.len() == 0 {
        Some(Seq::empty())
    } else {
        points_of_lines(ls.drop_first())
    }
}

proof fn lemma_digits_val_nonneg(s: Seq<u8>)
    requires
        all_digits(s),
    ensures
        digits_val(s) >= 0,
    decreases s.len(),
{
    if s.len() > 0 {
        assert(all_digits(s.drop_last()));
        lemma_digits_val_nonneg(s.drop_last());
    }
}

/// With every byte a digit, a longer prefix never has a smaller value.
proof fn lemma_digits_val_extend(s: Seq<u8>, k: int)
    requires
        0 <= k <= s.len(),
        all_digits(s),
    ensures
        digits_val(s.subrange(0, k)) <= digits_val(s),
    decreases s.len() - k,
{
    if k < s.len() {
        assert(s.subrange(0, k + 1).drop_last() =~= s.subrange(0, k));
        assert(all_digits(s.subrange(0, k)));
        lemma_digits_val_nonneg(s.subrange(0, k));
        assert(digits_val(s.subrange(0, k + 1)) == digits_val(s.subrange(0, k)) * 10 + (s[k]
            - 48));
        lemma_digits_val_extend(s, k + 1);
    } else {
        assert(s.subrange(0, k) =~= s);
    }
}

/// The position of the first `b` at or after `from`, or the slice's length.
fn find_byte(l: &[u8], from: usize, b: u8) -> (r: usize)
    requires
        from <= l@.len(),
    ensures
        r == find_from(l@, from as int, b),
        from <= r <= l@.len(),
        r < l@.len() ==> l@[r as int] == b,
    decreases l@.len() - from,
{
    proof {
        lemma_find_from_bounds(l@, from as int, b);
    }
    if from >= l.len() {
        l.len()
    } else if *slice_index_get(l, from) == b {
        from
    } else {
        find_byte(l, from + 1, b)
    }
}

/// The `i32` an integer token denotes, exactly as `int_token` states it.
fn parse_i32(l: &[u8]) -> (r: Option<i32>)
    ensures
        match int_token(l@) {
            Some(v) => r matches Some(x) && x as int == v,
            None => r is None,
        },
{
    let n: usize = l.len();
    if n == 0 {
        return None;
    }
    let neg: bool = *slice_index_get(l, 0) == MINUS;
    let start: usize = if neg {
        1
    } else {
        0
    };
    let ghost mag_seq = if neg {
        l@.skip(1)
    } else {
        l@
    };
    if start >= n {
        return None;
    }
    let mut i: usize = start;
    let mut mag: u64 = 0;
    while i < n
        invariant
            start <= i <= n,
            0 < n == l@.len(),
            neg == (l@[0] == MINUS),
            start == if neg {
                1int
            } else {
                0int
            },
            mag_seq == if neg {
                l@.skip(1)
            } else {
                l@
            },
            mag_seq.len() == n - start,
            all_digits(mag_seq.subrange(0, i - start)),
            mag == digits_val(mag_seq.subrange(0, i - start)),
            mag <= 0x80000000,
        decreases n - i,
    {
        let b: u8 = *slice_index_get(l, i);
        proof {
            assert(mag_seq[i - start] == l@[i as int]);
        }
        if b < 48 || b > 57 {
            proof {
                assert(!is_digit(mag_seq[i - start]));
                assert(!all_digits(mag_seq));
                if neg {
                    assert(l@[0] == MINUS);
                    assert(int_token(l@) is None);
                } else {
                    assert(l@[0] != MINUS);
                    assert(int_token(l@) is None);
                }
            }
            return None;
        }
        let d: u64 = (b - 48) as u64;
        let next: u64 = mag * 10 + d;
        proof {
            assert(mag_seq.subrange(0, i - start + 1).drop_last() =~= mag_seq.subrange(
                0,
                i - start,
            ));
            assert(mag_seq.subrange(0, i - start + 1).last() == b);
        }
        if next > 0x80000000 {
            proof {
                if all_digits(mag_seq) {
                    lemma_digits_val_extend(mag_seq, i - start + 1);
                    assert(digits_val(mag_seq) > 0x80000000);
                }
            }
            return None;
        }
        mag = next;
        i = i + 1;
    }
    proof {
        assert(mag_seq.subrange(0, mag_seq.len() as int) =~= mag_seq);
    }
    if neg {
        if mag == 0x80000000 {
            Some(i32::MIN)
        } else {
            Some(-(mag as i32))
        }
    } else {
        if mag > 0x7fffffff {
            None
        } else {
            Some(mag as i32)
        }
    }
}

/// The point one line denotes, exactly as `line_point` states it.
fn parse_line(l: &[u8]) -> (r: Option<Point>)
    ensures
        match line_point(l@) {
            Some(p) => r matches Some(q) && q.x == p.0 && q.y == p.1,
            None => r is None,
        },
{
    let n: usize = l.len();
    let c: usize = find_byte(l, 0, COMMA);
    if c == n {
        return None;
    }
    let xs: &[u8] = slice_subrange(l, 0, c);
    let ys: &[u8] = slice_subrange(l, c + 1, n);
    let x = parse_i32(xs);
    let y = parse_i32(ys);
    match (x, y) {
        (Some(x), Some(y)) => Some(Point::new(x, y)),
        _ => None,
    }
}

/// The points of every line from byte `pos` on, exactly as
/// `points_of_lines` of `lines_from` states it.
fn parse_lines(src: &Vec<u8>, pos: usize) -> (r: Option<Vec<Point>>)
    requires
        pos <= src@.len(),
    ensures
        match points_of_lines(lines_from(src@, pos as int)) {
            Some(ps) => r matches Some(v) && v@.map_values(|q: Point| (q.x as int, q.y as int))
                == ps,
            None => r is None,
        },
    decreases src@.len() - pos,
{
    let n: usize = src.len();
    if pos >= n {
        proof {
            assert(Seq::<Point>::empty().map_values(|q: Point| (q.x as int, q.y as int)) =~= Seq::<
                (int, int),
            >::empty());
        }
        return Some(Vec::new());
    }
    let e: usize = find_byte(src.as_slice(), pos, NEWLINE);
    let tail_pos: usize = if e >= n {
        n
    } else {
        e + 1
    };
    let ghost ls = lines_from(src@, pos as int);
    proof {
        assert(ls[0] == src@.subrange(pos as int, e as int));
        assert(ls.drop_first() =~= lines_from(src@, tail_pos as int));
    }
    let end: usize = if e > pos && *slice_index_get(src.as_slice(), e - 1) == CARRIAGE_RETURN {
        e - 1
    } else {
        e
    };
    proof {
        if e > pos && src@[e as int - 1] == CARRIAGE_RETURN {
            assert(src@.subrange(pos as int, e as int).drop_last() =~= src@.subrange(
                pos as int,
                e as int - 1,
            ));
        }
        assert(trim_cr(ls[0]) =~= src@.subrange(pos as int, end as int));
    }
    if end == pos {
        return parse_lines(src, tail_pos);
    }
    let line: &[u8] = slice_subrange(src.as_slice(), pos, end);
    let p = parse_line(line);
    match p {
        None => None,
        Some(p) => {
            let rest = parse_lines(src, tail_pos);
            match rest {
                None => None,
                Some(mut v) => {
                    v.insert(0, p);
                    proof {
                        let f = |q: Point| (q.x as int, q.y as int);
                        assert(v@.map_values(f) =~= seq![f(p)] + v@.drop_first().map_values(f));
                    }
                    Some(v)
                },
            }
        },
    }
}

/// Parses a whole polygon file: a header line, then one `x,y` record per
/// line. Succeeds if and only if every record line is well formed, with
/// exactly the points the file lists, in order.
pub fn parse_polygon(src: &Vec<u8>) -> (r: Option<Vec<Point>>)
    ensures
        match parse_polygon_spec(src@) {
            Some(ps) => r matches Some(v) && v@.map_values(|q: Point| (q.x as int, q.y as int))
                == ps,
            None => r is None,
        },
{
    let n: usize = src.len();
    if n == 0 {
        proof {
            assert(Seq::<Point>::empty().map_values(|q: Point| (q.x as int, q.y as int)) =~= Seq::<
                (int, int),
            >::empty());
        }
        return Some(Vec::new());
    }
    let e: usize = find_byte(src.as_slice(), 0, NEWLINE);
    let tail_pos: usize = if e >= n {
        n
    } else {
        e + 1
    };
    proof {
        let ls = lines_from(src@, 0);
        assert(ls.len() > 0);
        assert(ls.drop_first() =~= lines_from(src@, tail_pos as int));
    }
    parse_lines(src, tail_pos)
}

} // verus!
