use vstd::prelude::*;

use crate::text::{
    all_whitespace, chars_of, find_char, lemma_comma_is_no_integer, lemma_parse_signed_text,
    lemma_position_of, lemma_trim_ignores_padding, lemma_trim_keeps, parse_i16, parse_i16_range,
    position_of, signed_text, split_once, trim, trim_range,
};

verus! {

/// A point in camera pixel coordinates.
#[derive(Debug, Default, Clone, Copy, PartialEq, Eq, Structural)]
pub struct Point {
    pub x: i16,
    pub y: i16,
}

/// A point together with the moment it was observed, in nanoseconds on a
/// monotonic clock whose origin the caller fixes.
#[derive(Debug, Clone, Copy, PartialEq, Eq, Structural)]
pub struct PointRecord {
    pub point: Point,
    pub time: u64,
}

/// The point that the text `s` describes: two integers separated by the
/// first comma, each part and the whole allowed surrounding whitespace.
pub open spec fn point_from_text(s: Seq<char>) -> Option<Point> {
    match split_once(trim(s), ',') {
        Some((xs, ys)) => match (parse_i16(trim(xs)), parse_i16(trim(ys))) {
            (Some(x), Some(y)) => Some(Point { x, y }),
            _ => None,
        },
        None => None,
    }
}

impl Point {
    /// Parses `"x,y"`, e.g. `" 10 , -20 "`.
    pub fn parse(input: &str) -> (r: Option<Point>)
        ensures
            r == point_from_text(input@),
    {
        let v = chars_of(input);
        let (a, b) = trim_range(&v, 0, v.len());
        let ghost t = v@.subrange(a as int, b as int);
        assert(v@.subrange(0, v.len() as int) =~= input@);
        proof {
            lemma_position_of(t, ',');
        }
        match find_char(&v, a, b, ',') {
            None => None,
            Some(k) => {
                assert(t.take(k - a) =~= v@.subrange(a as int, k as int));
                assert(t.skip(k - a + 1) =~= v@.subrange(k + 1, b as int));
                let (xa, xb) = trim_range(&v, a, k);
                let (ya, yb) = trim_range(&v, k + 1, b);
                let x = parse_i16_range(&v, xa, xb);
                let y = parse_i16_range(&v, ya, yb);
                match (x, y) {
                    (Some(x), Some(y)) => Some(Point { x, y }),
                    _ => None,
                }
            },
        }
    }
}

/// Whitespace before and after a point's text does not change what it
/// parses to.
pub proof fn law_parse_ignores_padding(p: Seq<char>, s: Seq<char>, q: Seq<char>)
    requires
        all_whitespace(p),
        all_whitespace(q),
    ensures
        point_from_text(p + s + q) == point_from_text(s),
{
    lemma_trim_ignores_padding(p, s, q);
}

/// A point written the way `Display` writes integers, `"{x},{y}"`.
pub open spec fn point_text(p: Point) -> Seq<char> {
    signed_text(p.x as int) + seq![','] + signed_text(p.y as int)
}

/// Parsing a point's `"{x},{y}"` text gives the point back.
pub proof fn law_parse_inverts_display(p: Point)
    ensures
        point_from_text(point_text(p)) == Some(p),
{
    let xs = signed_text(p.x as int);
    let ys = signed_text(p.y as int);
    let t = point_text(p);
    lemma_parse_signed_text(p.x);
    lemma_parse_signed_text(p.y);
    assert(t[0] == xs[0]);
    assert(t.last() == ys.last());
    assert(trim(xs) == xs);
    assert(trim(ys) == ys);
    assert(trim(t) == t);
    lemma_position_of(t, ',');
    assert(t[xs.len() as int] == ',');
    assert forall|j: int| 0 <= j < xs.len() implies t[j] != ',' by {
        assert(t[j] == xs[j]);
    }
    assert(position_of(t, ',') == Some(xs.len() as int));
    assert(t.take(xs.len() as int) =~= xs);
    assert(t.skip(xs.len() as int + 1) =~= ys);
}

/// A text with a second comma is no point: a point has exactly two
/// components.
pub proof fn law_parse_rejects_extra_components(s: Seq<char>, i: int, j: int)
    requires
        0 <= i < j < trim(s).len(),
        trim(s)[i] == ',',
        trim(s)[j] == ',',
    ensures
        point_from_text(s) is None,
{
    let t = trim(s);
    lemma_position_of(t, ',');
    let k = position_of(t, ',').unwrap();
    let ys = t.skip(k + 1);
    assert(k <= i);
    assert(ys[j - k - 1] == ',');
    lemma_trim_keeps(ys, j - k - 1);
    lemma_comma_is_no_integer(trim(ys));
}

} // verus!
