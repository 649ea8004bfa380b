//! A reader of well-known text, as the reference that the encoder is held
//! to: the text of a geometry is read back as the same geometry.

use vstd::prelude::*;
use crate::geometry::{
    bracketed, keyword, line_ok, line_text, points_text, polygons_filled, polygons_ok,
    polygons_text, position_ok, position_text, rings_filled, rings_ok, rings_text, separator,
    wkt_text, Coords, Line, Polygons, Rings, Shape,
};
use crate::number::{is_number_text, lemma_number_text_chars};
use crate::text::{join, lemma_join_first};

verus! {

/// The characters that end a word or a number.
pub open spec fn is_delimiter(c: char) -> bool {
    c == ' ' || c == ',' || c == '(' || c == ')'
}

/// Reads up to the next delimiter, or to the end.
pub open spec fn read_token(s: Seq<char>) -> (Seq<char>, Seq<char>)
    decreases s.len(),
{
    if s.len() == 0 || is_delimiter(s[0]) {
        (Seq::empty(), s)
    } else {
        let (token, rest) = read_token(s.skip(1));
        (seq![s[0]] + token, rest)
    }
}

/// Reads `x y`, two numbers with one space between them.
pub open spec fn read_position(s: Seq<char>) -> Option<(Coords, Seq<char>)> {
    let (x, after_x) = read_token(s);
    if is_number_text(x) && after_x.len() > 0 && after_x[0] == ' ' {
        let (y, rest) = read_token(after_x.skip(1));
        if is_number_text(y) {
            Some((seq![x, y], rest))
        } else {
            None
        }
    } else {
        None
    }
}

/// Reads one or more items with `, ` between them.
pub open spec fn read_list<T>(
    item: spec_fn(Seq<char>) -> Option<(T, Seq<char>)>,
    s: Seq<char>,
) -> Option<(Seq<T>, Seq<char>)>
    decreases s.len(),
{
    match item(s) {
        None => None,
        Some((first, rest)) => {
            if rest.len() >= 2 && rest[0] == ',' && rest[1] == ' ' && rest.len() <= s.len() {
                match read_list(item, rest.skip(2)) {
                    Some((others, end)) => Some((seq![first] + others, end)),
                    None => None,
                }
            } else {
                Some((seq![first], rest))
            }
        },
    }
}

/// Reads an item that stands in round brackets.
pub open spec fn read_bracketed<T>(
    item: spec_fn(Seq<char>) -> Option<(T, Seq<char>)>,
    s: Seq<char>,
) -> Option<(T, Seq<char>)> {
    if s.len() > 0 && s[0] == '(' {
        match item(s.skip(1)) {
            Some((value, rest)) => {
                if rest.len() > 0 && rest[0] == ')' {
                    Some((value, rest.skip(1)))
                } else {
                    None
                }
            },
            None => None,
        }
    } else {
        None
    }
}

/// The readers of the parts of a text, from a position up to the polygons
/// of a multi-polygon: each reads its part and gives what follows it.
pub open spec fn position_reader() -> spec_fn(Seq<char>) -> Option<(Coords, Seq<char>)> {
    |s: Seq<char>| read_position(s)
}

/// `(x y)`.
pub open spec fn point_reader() -> spec_fn(Seq<char>) -> Option<(Coords, Seq<char>)> {
    |s: Seq<char>| read_bracketed(position_reader(), s)
}

/// `x y, x y, ...`.
pub open spec fn line_reader() -> spec_fn(Seq<char>) -> Option<(Line, Seq<char>)> {
    |s: Seq<char>| read_list(position_reader(), s)
}

/// `(x y), (x y), ...`.
pub open spec fn points_reader() -> spec_fn(Seq<char>) -> Option<(Line, Seq<char>)> {
    |s: Seq<char>| read_list(point_reader(), s)
}

/// `(x y, x y, ...)`.
pub open spec fn ring_reader() -> spec_fn(Seq<char>) -> Option<(Line, Seq<char>)> {
    |s: Seq<char>| read_bracketed(line_reader(), s)
}

/// `(x y, ...), (x y, ...), ...`.
pub open spec fn rings_reader() -> spec_fn(Seq<char>) -> Option<(Rings, Seq<char>)> {
    |s: Seq<char>| read_list(ring_reader(), s)
}

/// `((x y, ...), ...)`.
pub open spec fn polygon_reader() -> spec_fn(Seq<char>) -> Option<(Rings, Seq<char>)> {
    |s: Seq<char>| read_bracketed(rings_reader(), s)
}

/// `((x y, ...), ...), ((x y, ...), ...), ...`.
pub open spec fn polygons_reader() -> spec_fn(Seq<char>) -> Option<(Polygons, Seq<char>)> {
    |s: Seq<char>| read_list(polygon_reader(), s)
}

/// The value that a reader finds in brackets, if the text ends behind them.
pub open spec fn read_whole<T>(
    item: spec_fn(Seq<char>) -> Option<(T, Seq<char>)>,
    s: Seq<char>,
) -> Option<T> {
    match read_bracketed(item, s) {
        Some((value, rest)) => if rest.len() == 0 {
            Some(value)
        } else {
            None
        },
        None => None,
    }
}

/// Reads a well-known text: the keyword of one of the six shapes, and its
/// coordinates in brackets.
pub open spec fn read_wkt(s: Seq<char>) -> Option<Shape> {
    let (word, rest) = read_token(s);
    if word == keyword(Shape::Point(Seq::empty())) {
        match read_whole(position_reader(), rest) {
            Some(p) => Some(Shape::Point(p)),
            None => None,
        }
    } else if word == keyword(Shape::MultiPoint(Seq::empty())) {
        match read_whole(points_reader(), rest) {
            Some(l) => Some(Shape::MultiPoint(l)),
            None => None,
        }
    } else if word == keyword(Shape::LineString(Seq::empty())) {
        match read_whole(line_reader(), rest) {
            Some(l) => Some(Shape::LineString(l)),
            None => None,
        }
    } else if word == keyword(Shape::MultiLineString(Seq::empty())) {
        match read_whole(rings_reader(), rest) {
            Some(r) => Some(Shape::MultiLineString(r)),
            None => None,
        }
    } else if word == keyword(Shape::Polygon(Seq::empty())) {
        match read_whole(rings_reader(), rest) {
            Some(r) => Some(Shape::Polygon(r)),
            None => None,
        }
    } else if word == keyword(Shape::MultiPolygon(Seq::empty())) {
        match read_whole(polygons_reader(), rest) {
            Some(ps) => Some(Shape::MultiPolygon(ps)),
            None => None,
        }
    } else {
        None
    }
}

/// A position of exactly two components.
pub open spec fn is_pair(p: Coords) -> bool {
    p.len() == 2
}

/// Every position of the line is a pair.
pub open spec fn line_of_pairs(l: Line) -> bool {
    forall|i: int| 0 <= i < l.len() ==> is_pair(#[trigger] l[i])
}

/// Every position of every ring is a pair.
pub open spec fn rings_of_pairs(r: Rings) -> bool {
    forall|i: int| 0 <= i < r.len() ==> line_of_pairs(#[trigger] r[i])
}

/// Every position of every polygon is a pair.
pub open spec fn polygons_of_pairs(ps: Polygons) -> bool {
    forall|i: int| 0 <= i < ps.len() ==> rings_of_pairs(#[trigger] ps[i])
}

/// Every position of the shape has an x and a y and nothing else.
pub open spec fn planar(shape: Shape) -> bool {
    match shape {
        Shape::Point(p) => is_pair(p),
        Shape::MultiPoint(l) => line_of_pairs(l),
        Shape::LineString(l) => line_of_pairs(l),
        Shape::MultiLineString(r) => rings_of_pairs(r),
        Shape::Polygon(r) => rings_of_pairs(r),
        Shape::MultiPolygon(ps) => polygons_of_pairs(ps),
        Shape::Unsupported(_) => true,
    }
}

/// What may follow an item of a list: a comma or a closing bracket.
pub open spec fn ends_item(tail: Seq<char>) -> bool {
    tail.len() > 0 && (tail[0] == ',' || tail[0] == ')')
}

proof fn lemma_read_token(word: Seq<char>, tail: Seq<char>)
    requires
        forall|i: int| 0 <= i < word.len() ==> !is_delimiter(#[trigger] word[i]),
        tail.len() == 0 || is_delimiter(tail[0]),
    ensures
        read_token(word + tail) == (word, tail),
    decreases word.len(),
{
    let s = word + tail;
    if word.len() == 0 {
        assert(s =~= tail);
    } else {
        let others = word.drop_first();
        assert(!is_delimiter(word[0]));
        assert forall|i: int| 0 <= i < others.len() implies !is_delimiter(#[trigger] others[i]) by {
            assert(others[i] == word[i + 1]);
        }
        lemma_read_token(others, tail);
        assert(s.skip(1) =~= others + tail);
        assert(seq![s[0]] + others =~= word);
    }
}

proof fn lemma_number_has_no_delimiter(x: Seq<char>)
    requires
        is_number_text(x),
    ensures
        forall|i: int| 0 <= i < x.len() ==> !is_delimiter(#[trigger] x[i]),
{
    lemma_number_text_chars(x);
}

proof fn lemma_read_position(p: Coords, tail: Seq<char>)
    requires
        position_ok(p),
        is_pair(p),
        ends_item(tail),
    ensures
        read_position(position_text(p) + tail) == Some((p, tail)),
{
    let s = position_text(p) + tail;
    let after_x = seq![' '] + p[1] + tail;
    lemma_number_has_no_delimiter(p[0]);
    lemma_number_has_no_delimiter(p[1]);
    assert(s =~= p[0] + after_x);
    lemma_read_token(p[0], after_x);
    assert(after_x.skip(1) =~= p[1] + tail);
    lemma_read_token(p[1], tail);
    assert(seq![p[0], p[1]] =~= p);
}

proof fn lemma_read_bracketed<T>(
    item: spec_fn(Seq<char>) -> Option<(T, Seq<char>)>,
    value: T,
    text: Seq<char>,
    tail: Seq<char>,
)
    requires
        item(text + (seq![')'] + tail)) == Some((value, seq![')'] + tail)),
    ensures
        read_bracketed(item, bracketed(text) + tail) == Some((value, tail)),
{
    let s = bracketed(text) + tail;
    let inner_tail = seq![')'] + tail;
    assert(s.skip(1) =~= text + inner_tail);
    assert(inner_tail.skip(1) =~= tail);
}

proof fn lemma_read_list<T>(
    item: spec_fn(Seq<char>) -> Option<(T, Seq<char>)>,
    values: Seq<T>,
    parts: Seq<Seq<char>>,
    tail: Seq<char>,
)
    requires
        values.len() > 0,
        parts.len() == values.len(),
        tail.len() > 0 && tail[0] == ')',
        forall|i: int, t: Seq<char>|
            0 <= i < values.len() && ends_item(t) ==> #[trigger] item(parts[i] + t) == Some(
                (values[i], t),
            ),
    ensures
        read_list(item, join(parts, separator()) + tail) == Some((values, tail)),
    decreases values.len(),
{
    let s = join(parts, separator()) + tail;
    if values.len() == 1 {
        assert(s =~= parts[0] + tail);
        assert(item(parts[0] + tail) == Some((values[0], tail)));
        assert(seq![values[0]] =~= values);
    } else {
        let other_values = values.drop_first();
        let other_parts = parts.drop_first();
        lemma_join_first(parts, separator());
        let rest = separator() + join(other_parts, separator()) + tail;
        assert(s =~= parts[0] + rest);
        assert(ends_item(rest));
        assert(item(parts[0] + rest) == Some((values[0], rest)));
        assert(rest.skip(2) =~= join(other_parts, separator()) + tail);
        assert forall|i: int, t: Seq<char>|
            0 <= i < other_values.len() && ends_item(t) implies #[trigger] item(other_parts[i] + t)
            == Some((other_values[i], t)) by {
            assert(other_parts[i] == parts[i + 1]);
            assert(item(parts[i + 1] + t) == Some((values[i + 1], t)));
        }
        lemma_read_list(item, other_values, other_parts, tail);
        assert(seq![values[0]] + other_values =~= values);
    }
}

proof fn lemma_read_line(l: Line, tail: Seq<char>)
    requires
        l.len() > 0,
        line_ok(l),
        line_of_pairs(l),
        tail.len() > 0 && tail[0] == ')',
    ensures
        read_list(position_reader(), line_text(l) + tail) == Some((l, tail)),
{
    let parts = Seq::new(l.len(), |i: int| position_text(l[i]));
    assert forall|i: int, t: Seq<char>| 0 <= i < l.len() && ends_item(t) implies #[trigger] position_reader()(
        parts[i] + t,
    ) == Some((l[i], t)) by {
        lemma_read_position(l[i], t);
    }
    lemma_read_list(position_reader(), l, parts, tail);
}

proof fn lemma_read_points(l: Line, tail: Seq<char>)
    requires
        l.len() > 0,
        line_ok(l),
        line_of_pairs(l),
        tail.len() > 0 && tail[0] == ')',
    ensures
        read_list(point_reader(), points_text(l) + tail) == Some((l, tail)),
{
    let parts = Seq::new(l.len(), |i: int| bracketed(position_text(l[i])));
    assert forall|i: int, t: Seq<char>| 0 <= i < l.len() && ends_item(t) implies #[trigger] point_reader()(
        parts[i] + t,
    ) == Some((l[i], t)) by {
        lemma_read_position(l[i], seq![')'] + t);
        lemma_read_bracketed(position_reader(), l[i], position_text(l[i]), t);
    }
    lemma_read_list(point_reader(), l, parts, tail);
}

proof fn lemma_read_rings(r: Rings, tail: Seq<char>)
    requires
        rings_filled(r),
        rings_ok(r),
        rings_of_pairs(r),
        tail.len() > 0 && tail[0] == ')',
    ensures
        read_list(ring_reader(), rings_text(r) + tail) == Some((r, tail)),
{
    let parts = Seq::new(r.len(), |i: int| bracketed(line_text(r[i])));
    assert forall|i: int, t: Seq<char>| 0 <= i < r.len() && ends_item(t) implies #[trigger] ring_reader()(
        parts[i] + t,
    ) == Some((r[i], t)) by {
        lemma_read_line(r[i], seq![')'] + t);
        lemma_read_bracketed(line_reader(), r[i], line_text(r[i]), t);
    }
    lemma_read_list(ring_reader(), r, parts, tail);
}

proof fn lemma_read_polygons(ps: Polygons, tail: Seq<char>)
    requires
        polygons_filled(ps),
        polygons_ok(ps),
        polygons_of_pairs(ps),
        tail.len() > 0 && tail[0] == ')',
    ensures
        read_list(polygon_reader(), polygons_text(ps) + tail) == Some((ps, tail)),
{
    let parts = Seq::new(ps.len(), |i: int| bracketed(rings_text(ps[i])));
    assert forall|i: int, t: Seq<char>| 0 <= i < ps.len() && ends_item(t) implies #[trigger] polygon_reader()(
        parts[i] + t,
    ) == Some((ps[i], t)) by {
        lemma_read_rings(ps[i], seq![')'] + t);
        lemma_read_bracketed(rings_reader(), ps[i], rings_text(ps[i]), t);
    }
    lemma_read_list(polygon_reader(), ps, parts, tail);
}

proof fn lemma_read_keyword(shape: Shape)
    requires
        shape.supported(),
    ensures
        read_token(wkt_text(shape)) == (keyword(shape), bracketed(crate::geometry::body_text(shape))),
{
    let rest = bracketed(crate::geometry::body_text(shape));
    assert(rest[0] == '(');
    lemma_read_token(keyword(shape), rest);
}

proof fn lemma_read_whole<T>(
    item: spec_fn(Seq<char>) -> Option<(T, Seq<char>)>,
    value: T,
    text: Seq<char>,
)
    requires
        item(text + seq![')']) == Some((value, seq![')'])),
    ensures
        read_whole(item, bracketed(text)) == Some(value),
{
    let end = Seq::<char>::empty();
    assert(seq![')'] + end =~= seq![')']);
    assert(bracketed(text) + end =~= bracketed(text));
    lemma_read_bracketed(item, value, text, end);
}

/// What is found in the brackets behind the keyword of a shape.
spec fn body_read(shape: Shape) -> Option<Shape> {
    let body = bracketed(crate::geometry::body_text(shape));
    match shape {
        Shape::Point(_) => match read_whole(position_reader(), body) {
            Some(p) => Some(Shape::Point(p)),
            None => None,
        },
        Shape::MultiPoint(_) => match read_whole(points_reader(), body) {
            Some(l) => Some(Shape::MultiPoint(l)),
            None => None,
        },
        Shape::LineString(_) => match read_whole(line_reader(), body) {
            Some(l) => Some(Shape::LineString(l)),
            None => None,
        },
        Shape::MultiLineString(_) => match read_whole(rings_reader(), body) {
            Some(r) => Some(Shape::MultiLineString(r)),
            None => None,
        },
        Shape::Polygon(_) => match read_whole(rings_reader(), body) {
            Some(r) => Some(Shape::Polygon(r)),
            None => None,
        },
        Shape::MultiPolygon(_) => match read_whole(polygons_reader(), body) {
            Some(ps) => Some(Shape::MultiPolygon(ps)),
            None => None,
        },
        Shape::Unsupported(_) => None,
    }
}

proof fn lemma_body_read(shape: Shape)
    requires
        shape.well_formed(),
        planar(shape),
    ensures
        body_read(shape) == Some(shape),
{
    let close = seq![')'];
    match shape {
        Shape::Point(p) => {
            lemma_read_position(p, close);
            lemma_read_whole(position_reader(), p, position_text(p));
        },
        Shape::MultiPoint(l) => {
            lemma_read_points(l, close);
            lemma_read_whole(points_reader(), l, points_text(l));
        },
        Shape::LineString(l) => {
            lemma_read_line(l, close);
            lemma_read_whole(line_reader(), l, line_text(l));
        },
        Shape::MultiLineString(r) => {
            lemma_read_rings(r, close);
            lemma_read_whole(rings_reader(), r, rings_text(r));
        },
        Shape::Polygon(r) => {
            lemma_read_rings(r, close);
            lemma_read_whole(rings_reader(), r, rings_text(r));
        },
        Shape::MultiPolygon(ps) => {
            lemma_read_polygons(ps, close);
            lemma_read_whole(polygons_reader(), ps, polygons_text(ps));
        },
        Shape::Unsupported(_) => {},
    }
}

/// The keywords of the six shapes differ from one another, so that the
/// keyword of a text tells its shape.
proof fn lemma_keyword_tells_shape(shape: Shape)
    requires
        shape.supported(),
    ensures
        (keyword(shape) == keyword(Shape::Point(Seq::empty()))) == (shape is Point),
        (keyword(shape) == keyword(Shape::MultiPoint(Seq::empty()))) == (shape is MultiPoint),
        (keyword(shape) == keyword(Shape::LineString(Seq::empty()))) == (shape is LineString),
        (keyword(shape) == keyword(Shape::MultiLineString(Seq::empty())))
            == (shape is MultiLineString),
        (keyword(shape) == keyword(Shape::Polygon(Seq::empty()))) == (shape is Polygon),
        (keyword(shape) == keyword(Shape::MultiPolygon(Seq::empty()))) == (shape is MultiPolygon),
{
    let point = keyword(Shape::Point(Seq::empty()));
    let multipoint = keyword(Shape::MultiPoint(Seq::empty()));
    let linestring = keyword(Shape::LineString(Seq::empty()));
    let multilinestring = keyword(Shape::MultiLineString(Seq::empty()));
    let polygon = keyword(Shape::Polygon(Seq::empty()));
    let multipolygon = keyword(Shape::MultiPolygon(Seq::empty()));
    assert(point.len() == 5);
    assert(multipoint.len() == 10 && multipoint[0] == 'M');
    assert(linestring.len() == 10 && linestring[0] == 'L');
    assert(multilinestring.len() == 15);
    assert(polygon.len() == 7);
    assert(multipolygon.len() == 12);
}

/// Encoding loses nothing: the text of a well-formed geometry whose
/// positions have an x and a y, and nothing else, is read back as that
/// geometry.
pub proof fn lemma_read_wkt(shape: Shape)
    requires
        shape.well_formed(),
        planar(shape),
    ensures
        read_wkt(wkt_text(shape)) == Some(shape),
{
    lemma_read_keyword(shape);
    lemma_keyword_tells_shape(shape);
    lemma_body_read(shape);
}

/// The x and the y of a position.
pub open spec fn position_xy(p: Coords) -> Coords {
    seq![p[0], p[1]]
}

/// The x and the y of each position of a line.
pub open spec fn line_xy(l: Line) -> Line {
    Seq::new(l.len(), |i: int| position_xy(l[i]))
}

/// The x and the y of each position of the rings.
pub open spec fn rings_xy(r: Rings) -> Rings {
    Seq::new(r.len(), |i: int| line_xy(r[i]))
}

/// The x and the y of each position of the polygons.
pub open spec fn polygons_xy(ps: Polygons) -> Polygons {
    Seq::new(ps.len(), |i: int| rings_xy(ps[i]))
}

/// The shape with the x and the y of each position and nothing else.
pub open spec fn planar_part(shape: Shape) -> Shape {
    match shape {
        Shape::Point(p) => Shape::Point(position_xy(p)),
        Shape::MultiPoint(l) => Shape::MultiPoint(line_xy(l)),
        Shape::LineString(l) => Shape::LineString(line_xy(l)),
        Shape::MultiLineString(r) => Shape::MultiLineString(rings_xy(r)),
        Shape::Polygon(r) => Shape::Polygon(rings_xy(r)),
        Shape::MultiPolygon(ps) => Shape::MultiPolygon(polygons_xy(ps)),
        Shape::Unsupported(name) => Shape::Unsupported(name),
    }
}

proof fn lemma_line_xy(l: Line)
    ensures
        line_text(line_xy(l)) == line_text(l),
        points_text(line_xy(l)) == points_text(l),
        line_of_pairs(line_xy(l)),
        line_ok(l) ==> line_ok(line_xy(l)),
{
    let flat = line_xy(l);
    assert(Seq::new(flat.len(), |i: int| position_text(flat[i])) =~= Seq::new(
        l.len(),
        |i: int| position_text(l[i]),
    ));
    assert(Seq::new(flat.len(), |i: int| bracketed(position_text(flat[i]))) =~= Seq::new(
        l.len(),
        |i: int| bracketed(position_text(l[i])),
    ));
    if line_ok(l) {
        assert forall|i: int| 0 <= i < flat.len() implies position_ok(#[trigger] flat[i]) by {
            assert(position_ok(l[i]));
        }
    }
}

proof fn lemma_rings_xy(r: Rings)
    ensures
        rings_text(rings_xy(r)) == rings_text(r),
        rings_of_pairs(rings_xy(r)),
        rings_ok(r) ==> rings_ok(rings_xy(r)),
        rings_filled(r) ==> rings_filled(rings_xy(r)),
{
    let flat = rings_xy(r);
    assert forall|i: int| 0 <= i < r.len() implies bracketed(line_text(flat[i])) == bracketed(
        line_text(r[i]),
    ) && line_of_pairs(#[trigger] flat[i]) && (line_ok(r[i]) ==> line_ok(flat[i])) by {
        lemma_line_xy(r[i]);
    }
    assert(Seq::new(flat.len(), |i: int| bracketed(line_text(flat[i]))) =~= Seq::new(
        r.len(),
        |i: int| bracketed(line_text(r[i])),
    ));
    if rings_ok(r) {
        assert forall|i: int| 0 <= i < flat.len() implies line_ok(#[trigger] flat[i]) by {
            assert(line_ok(r[i]));
        }
    }
    if rings_filled(r) {
        assert forall|i: int| 0 <= i < flat.len() implies (#[trigger] flat[i]).len() > 0 by {
            assert(r[i].len() > 0);
        }
    }
}

proof fn lemma_polygons_xy(ps: Polygons)
    ensures
        polygons_text(polygons_xy(ps)) == polygons_text(ps),
        polygons_of_pairs(polygons_xy(ps)),
        polygons_ok(ps) ==> polygons_ok(polygons_xy(ps)),
        polygons_filled(ps) ==> polygons_filled(polygons_xy(ps)),
{
    let flat = polygons_xy(ps);
    assert forall|i: int| 0 <= i < ps.len() implies bracketed(rings_text(flat[i])) == bracketed(
        rings_text(ps[i]),
    ) && rings_of_pairs(#[trigger] flat[i]) && (rings_ok(ps[i]) ==> rings_ok(flat[i])) && (
    rings_filled(ps[i]) ==> rings_filled(flat[i])) by {
        lemma_rings_xy(ps[i]);
    }
    assert(Seq::new(flat.len(), |i: int| bracketed(rings_text(flat[i]))) =~= Seq::new(
        ps.len(),
        |i: int| bracketed(rings_text(ps[i])),
    ));
    if polygons_ok(ps) {
        assert forall|i: int| 0 <= i < flat.len() implies rings_ok(#[trigger] flat[i]) by {
            assert(rings_ok(ps[i]));
        }
    }
    if polygons_filled(ps) {
        assert forall|i: int| 0 <= i < flat.len() implies rings_filled(#[trigger] flat[i]) by {
            assert(rings_filled(ps[i]));
        }
    }
}

/// The text of a geometry depends on the x and the y of its positions
/// alone: further components leave it unchanged.
pub proof fn lemma_wkt_of_planar_part(shape: Shape)
    ensures
        wkt_text(planar_part(shape)) == wkt_text(shape),
        planar(planar_part(shape)),
        shape.well_formed() ==> planar_part(shape).well_formed(),
{
    match shape {
        Shape::Point(p) => {},
        Shape::MultiPoint(l) => {
            lemma_line_xy(l);
        },
        Shape::LineString(l) => {
            lemma_line_xy(l);
        },
        Shape::MultiLineString(r) => {
            lemma_rings_xy(r);
        },
        Shape::Polygon(r) => {
            lemma_rings_xy(r);
        },
        Shape::MultiPolygon(ps) => {
            lemma_polygons_xy(ps);
        },
        Shape::Unsupported(_) => {},
    }
}

/// What the encoder writes is always well-known text: the text of any
/// well-formed geometry is read back as that geometry with the x and the y
/// of each position.
pub proof fn lemma_read_wkt_of_any(shape: Shape)
    requires
        shape.well_formed(),
    ensures
        read_wkt(wkt_text(shape)) == Some(planar_part(shape)),
{
    lemma_wkt_of_planar_part(shape);
    lemma_read_wkt(planar_part(shape));
}

} // verus!
