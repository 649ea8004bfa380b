//! Geometries and their well-known text.
//!
//! A position is the list of its components, each the decimal text of a
//! number; the first two are x and y. Lines and rings are lists of positions,
//! a polygon is a list of rings with the exterior ring first, and the
//! multi-geometries are lists of the singular forms.

use vstd::prelude::*;
use vstd::string::StringExecFns;
use crate::number::{is_number, is_number_text};
use crate::text::{join, join_with, texts};
use crate::wkt_reader::{lemma_read_wkt_of_any, planar_part, read_wkt};

verus! {

/// The components of one coordinate pair, x first.
pub type Position = Vec<String>;

/// A geometry of one of the six supported shapes, or the name of a shape
/// that is not supported.
#[derive(Debug, Clone)]
pub enum Geometry {
    Point(Position),
    MultiPoint(Vec<Position>),
    LineString(Vec<Position>),
    MultiLineString(Vec<Vec<Position>>),
    Polygon(Vec<Vec<Position>>),
    MultiPolygon(Vec<Vec<Vec<Position>>>),
    Unsupported(String),
}

/// Why a geometry has no well-known text.
#[derive(Debug, Clone)]
pub enum GeometryError {
    /// The shape, named here, is not one of the six supported ones.
    UnsupportedGeometry(String),
    /// Some list of positions, lines, rings or polygons is empty.
    EmptyCoordinates,
    /// Some position has fewer than two components, or an x or y that is
    /// not the decimal text of a number.
    InvalidPosition,
}

/// The model of a position: the texts of its components.
pub type Coords = Seq<Seq<char>>;

/// A line or ring: a list of positions.
pub type Line = Seq<Coords>;

/// The rings of a polygon, or the lines of a multi-line.
pub type Rings = Seq<Line>;

/// The polygons of a multi-polygon.
pub type Polygons = Seq<Rings>;

/// The model of a geometry.
pub enum Shape {
    Point(Coords),
    MultiPoint(Line),
    LineString(Line),
    MultiLineString(Rings),
    Polygon(Rings),
    MultiPolygon(Polygons),
    Unsupported(Seq<char>),
}

/// The model of an error.
pub enum Fault {
    UnsupportedGeometry(Seq<char>),
    EmptyCoordinates,
    InvalidPosition,
}

impl View for Geometry {
    type V = Shape;

    open spec fn view(&self) -> Shape {
        match *self {
            Geometry::Point(p) => Shape::Point(p.deep_view()),
            Geometry::MultiPoint(l) => Shape::MultiPoint(l.deep_view()),
            Geometry::LineString(l) => Shape::LineString(l.deep_view()),
            Geometry::MultiLineString(r) => Shape::MultiLineString(r.deep_view()),
            Geometry::Polygon(r) => Shape::Polygon(r.deep_view()),
            Geometry::MultiPolygon(ps) => Shape::MultiPolygon(ps.deep_view()),
            Geometry::Unsupported(name) => Shape::Unsupported(name@),
        }
    }
}

impl View for GeometryError {
    type V = Fault;

    open spec fn view(&self) -> Fault {
        match *self {
            GeometryError::UnsupportedGeometry(name) => Fault::UnsupportedGeometry(name@),
            GeometryError::EmptyCoordinates => Fault::EmptyCoordinates,
            GeometryError::InvalidPosition => Fault::InvalidPosition,
        }
    }
}

/// A position with an x and a y, both numbers.
pub open spec fn position_ok(p: Coords) -> bool {
    p.len() >= 2 && is_number_text(p[0]) && is_number_text(p[1])
}

/// Every position of the line is one.
pub open spec fn line_ok(l: Line) -> bool {
    forall|i: int| 0 <= i < l.len() ==> position_ok(#[trigger] l[i])
}

/// Every position of every ring is one.
pub open spec fn rings_ok(r: Rings) -> bool {
    forall|i: int| 0 <= i < r.len() ==> line_ok(#[trigger] r[i])
}

/// Every position of every polygon is one.
pub open spec fn polygons_ok(ps: Polygons) -> bool {
    forall|i: int| 0 <= i < ps.len() ==> rings_ok(#[trigger] ps[i])
}

/// No list of lines in it, nor the list itself, is empty.
pub open spec fn rings_filled(r: Rings) -> bool {
    r.len() > 0 && forall|i: int| 0 <= i < r.len() ==> (#[trigger] r[i]).len() > 0
}

/// No list of rings or lines in it, nor the list itself, is empty.
pub open spec fn polygons_filled(ps: Polygons) -> bool {
    ps.len() > 0 && forall|i: int| 0 <= i < ps.len() ==> rings_filled(#[trigger] ps[i])
}

impl Shape {
    /// Whether the shape is one of the six that have a well-known text.
    pub open spec fn supported(self) -> bool {
        !(self is Unsupported)
    }

    /// No list of coordinates in the shape is empty.
    pub open spec fn filled(self) -> bool {
        match self {
            Shape::Point(_) => true,
            Shape::MultiPoint(l) => l.len() > 0,
            Shape::LineString(l) => l.len() > 0,
            Shape::MultiLineString(r) => rings_filled(r),
            Shape::Polygon(r) => rings_filled(r),
            Shape::MultiPolygon(ps) => polygons_filled(ps),
            Shape::Unsupported(_) => true,
        }
    }

    /// Every position of the shape has an x and a y that are numbers.
    pub open spec fn positions_ok(self) -> bool {
        match self {
            Shape::Point(p) => position_ok(p),
            Shape::MultiPoint(l) => line_ok(l),
            Shape::LineString(l) => line_ok(l),
            Shape::MultiLineString(r) => rings_ok(r),
            Shape::Polygon(r) => rings_ok(r),
            Shape::MultiPolygon(ps) => polygons_ok(ps),
            Shape::Unsupported(_) => true,
        }
    }

    /// What keeps the shape from being encoded, if anything does. An
    /// unsupported shape is reported before an empty list, and an empty list
    /// before a bad position.
    pub open spec fn fault(self) -> Option<Fault> {
        if let Shape::Unsupported(name) = self {
            Some(Fault::UnsupportedGeometry(name))
        } else if !self.filled() {
            Some(Fault::EmptyCoordinates)
        } else if !self.positions_ok() {
            Some(Fault::InvalidPosition)
        } else {
            None
        }
    }

    /// A supported shape without an empty list or a bad position.
    pub open spec fn well_formed(self) -> bool {
        self.fault() is None
    }
}

/// `, `: what stands between the items of a list.
pub open spec fn separator() -> Seq<char> {
    seq![',', ' ']
}

/// The text in round brackets.
pub open spec fn bracketed(s: Seq<char>) -> Seq<char> {
    seq!['('] + s + seq![')']
}

/// `x y`.
pub open spec fn position_text(p: Coords) -> Seq<char> {
    p[0] + seq![' '] + p[1]
}

/// `x y, x y, ...`.
pub open spec fn line_text(l: Line) -> Seq<char> {
    join(Seq::new(l.len(), |i: int| position_text(l[i])), separator())
}

/// `(x y), (x y), ...`.
pub open spec fn points_text(l: Line) -> Seq<char> {
    join(Seq::new(l.len(), |i: int| bracketed(position_text(l[i]))), separator())
}

/// `(x y, ...), (x y, ...), ...`.
pub open spec fn rings_text(r: Rings) -> Seq<char> {
    join(Seq::new(r.len(), |i: int| bracketed(line_text(r[i]))), separator())
}

/// `((x y, ...), ...), ((x y, ...), ...), ...`.
pub open spec fn polygons_text(ps: Polygons) -> Seq<char> {
    join(Seq::new(ps.len(), |i: int| bracketed(rings_text(ps[i]))), separator())
}

/// The keyword that opens the text of a supported shape.
pub open spec fn keyword(shape: Shape) -> Seq<char> {
    match shape {
        Shape::Point(_) => seq!['P', 'O', 'I', 'N', 'T'],
        Shape::MultiPoint(_) => seq!['M', 'U', 'L', 'T', 'I', 'P', 'O', 'I', 'N', 'T'],
        Shape::LineString(_) => seq!['L', 'I', 'N', 'E', 'S', 'T', 'R', 'I', 'N', 'G'],
        Shape::MultiLineString(_) => seq![
            'M', 'U', 'L', 'T', 'I', 'L', 'I', 'N', 'E', 'S', 'T', 'R', 'I', 'N', 'G',
        ],
        Shape::Polygon(_) => seq!['P', 'O', 'L', 'Y', 'G', 'O', 'N'],
        Shape::MultiPolygon(_) => seq![
            'M', 'U', 'L', 'T', 'I', 'P', 'O', 'L', 'Y', 'G', 'O', 'N',
        ],
        Shape::Unsupported(_) => Seq::empty(),
    }
}

/// What stands between the brackets that follow the keyword.
pub open spec fn body_text(shape: Shape) -> Seq<char> {
    match shape {
        Shape::Point(p) => position_text(p),
        Shape::MultiPoint(l) => points_text(l),
        Shape::LineString(l) => line_text(l),
        Shape::MultiLineString(r) => rings_text(r),
        Shape::Polygon(r) => rings_text(r),
        Shape::MultiPolygon(ps) => polygons_text(ps),
        Shape::Unsupported(_) => Seq::empty(),
    }
}

/// The well-known text of a supported shape.
pub open spec fn wkt_text(shape: Shape) -> Seq<char> {
    keyword(shape) + bracketed(body_text(shape))
}

fn position_valid(p: &Position) -> (b: bool)
    ensures
        b == position_ok(p.deep_view()),
{
    p.len() >= 2 && is_number(p[0].as_str()) && is_number(p[1].as_str())
}

fn line_valid(l: &Vec<Position>) -> (b: bool)
    ensures
        b == line_ok(l.deep_view()),
{
    let mut i: usize = 0;
    while i < l.len()
        invariant
            i <= l.len(),
            forall|j: int| 0 <= j < i ==> position_ok(#[trigger] l.deep_view()[j]),
        decreases l.len() - i,
    {
        if !position_valid(&l[i]) {
            assert(!position_ok(l.deep_view()[i as int]));
            return false;
        }
        i += 1;
    }
    true
}

fn rings_valid(r: &Vec<Vec<Position>>) -> (b: bool)
    ensures
        b == rings_ok(r.deep_view()),
{
    let mut i: usize = 0;
    while i < r.len()
        invariant
            i <= r.len(),
            forall|j: int| 0 <= j < i ==> line_ok(#[trigger] r.deep_view()[j]),
        decreases r.len() - i,
    {
        if !line_valid(&r[i]) {
            assert(!line_ok(r.deep_view()[i as int]));
            return false;
        }
        i += 1;
    }
    true
}

fn polygons_valid(ps: &Vec<Vec<Vec<Position>>>) -> (b: bool)
    ensures
        b == polygons_ok(ps.deep_view()),
{
    let mut i: usize = 0;
    while i < ps.len()
        invariant
            i <= ps.len(),
            forall|j: int| 0 <= j < i ==> rings_ok(#[trigger] ps.deep_view()[j]),
        decreases ps.len() - i,
    {
        if !rings_valid(&ps[i]) {
            assert(!rings_ok(ps.deep_view()[i as int]));
            return false;
        }
        i += 1;
    }
    true
}

fn rings_are_filled(r: &Vec<Vec<Position>>) -> (b: bool)
    ensures
        b == rings_filled(r.deep_view()),
{
    if r.len() == 0 {
        return false;
    }
    let mut i: usize = 0;
    while i < r.len()
        invariant
            i <= r.len(),
            forall|j: int| 0 <= j < i ==> (#[trigger] r.deep_view()[j]).len() > 0,
        decreases r.len() - i,
    {
        if r[i].len() == 0 {
            assert(r.deep_view()[i as int].len() == 0);
            return false;
        }
        i += 1;
    }
    true
}

fn polygons_are_filled(ps: &Vec<Vec<Vec<Position>>>) -> (b: bool)
    ensures
        b == polygons_filled(ps.deep_view()),
{
    if ps.len() == 0 {
        return false;
    }
    let mut i: usize = 0;
    while i < ps.len()
        invariant
            i <= ps.len(),
            forall|j: int| 0 <= j < i ==> rings_filled(#[trigger] ps.deep_view()[j]),
        decreases ps.len() - i,
    {
        if !rings_are_filled(&ps[i]) {
            assert(!rings_filled(ps.deep_view()[i as int]));
            return false;
        }
        i += 1;
    }
    true
}

impl Geometry {
    /// Whether no list of coordinates in the geometry is empty.
    pub fn is_filled(&self) -> (b: bool)
        ensures
            b == self@.filled(),
    {
        match self {
            Geometry::Point(_) => true,
            Geometry::MultiPoint(l) => l.len() > 0,
            Geometry::LineString(l) => l.len() > 0,
            Geometry::MultiLineString(r) => rings_are_filled(r),
            Geometry::Polygon(r) => rings_are_filled(r),
            Geometry::MultiPolygon(ps) => polygons_are_filled(ps),
            Geometry::Unsupported(_) => true,
        }
    }

    /// Whether every position has an x and a y that are numbers.
    pub fn has_valid_positions(&self) -> (b: bool)
        ensures
            b == self@.positions_ok(),
    {
        match self {
            Geometry::Point(p) => position_valid(p),
            Geometry::MultiPoint(l) => line_valid(l),
            Geometry::LineString(l) => line_valid(l),
            Geometry::MultiLineString(r) => rings_valid(r),
            Geometry::Polygon(r) => rings_valid(r),
            Geometry::MultiPolygon(ps) => polygons_valid(ps),
            Geometry::Unsupported(_) => true,
        }
    }

    /// Checks that the geometry can be encoded, and says why if it cannot.
    pub fn validate(&self) -> (res: Result<(), GeometryError>)
        ensures
            match res {
                Ok(_) => self@.fault() is None,
                Err(e) => self@.fault() == Some(e@),
            },
    {
        if let Geometry::Unsupported(name) = self {
            Err(GeometryError::UnsupportedGeometry(name.clone()))
        } else if !self.is_filled() {
            Err(GeometryError::EmptyCoordinates)
        } else if !self.has_valid_positions() {
            Err(GeometryError::InvalidPosition)
        } else {
            Ok(())
        }
    }
}

fn bracket(s: &str) -> (out: String)
    ensures
        out@ == bracketed(s@),
{
    proof {
        reveal_strlit("(");
        reveal_strlit(")");
    }
    let mut out = String::from_str("(");
    out.append(s);
    out.append(")");
    assert(out@ =~= bracketed(s@));
    out
}

fn position_wkt(p: &Position) -> (out: String)
    requires
        p.len() >= 2,
    ensures
        out@ == position_text(p.deep_view()),
{
    proof {
        reveal_strlit(" ");
    }
    let mut out = String::from_str(p[0].as_str());
    out.append(" ");
    out.append(p[1].as_str());
    assert(out@ =~= position_text(p.deep_view()));
    out
}

fn line_wkt(l: &Vec<Position>) -> (out: String)
    requires
        line_ok(l.deep_view()),
    ensures
        out@ == line_text(l.deep_view()),
{
    let mut parts: Vec<String> = Vec::new();
    let mut i: usize = 0;
    while i < l.len()
        invariant
            i <= l.len(),
            line_ok(l.deep_view()),
            parts.len() == i,
            forall|j: int| 0 <= j < i ==> (#[trigger] parts[j])@ == position_text(l.deep_view()[j]),
        decreases l.len() - i,
    {
        assert(position_ok(l.deep_view()[i as int]));
        parts.push(position_wkt(&l[i]));
        i += 1;
    }
    proof {
        reveal_strlit(", ");
        assert(", "@ =~= separator());
        assert(texts(parts@) =~= Seq::new(
            l.deep_view().len(),
            |i: int| position_text(l.deep_view()[i]),
        ));
    }
    join_with(&parts, ", ")
}

fn points_wkt(l: &Vec<Position>) -> (out: String)
    requires
        line_ok(l.deep_view()),
    ensures
        out@ == points_text(l.deep_view()),
{
    let mut parts: Vec<String> = Vec::new();
    let mut i: usize = 0;
    while i < l.len()
        invariant
            i <= l.len(),
            line_ok(l.deep_view()),
            parts.len() == i,
            forall|j: int|
                0 <= j < i ==> (#[trigger] parts[j])@ == bracketed(
                    position_text(l.deep_view()[j]),
                ),
        decreases l.len() - i,
    {
        assert(position_ok(l.deep_view()[i as int]));
        let inner = position_wkt(&l[i]);
        parts.push(bracket(inner.as_str()));
        i += 1;
    }
    proof {
        reveal_strlit(", ");
        assert(", "@ =~= separator());
        assert(texts(parts@) =~= Seq::new(
            l.deep_view().len(),
            |i: int| bracketed(position_text(l.deep_view()[i])),
        ));
    }
    join_with(&parts, ", ")
}

fn rings_wkt(r: &Vec<Vec<Position>>) -> (out: String)
    requires
        rings_ok(r.deep_view()),
    ensures
        out@ == rings_text(r.deep_view()),
{
    let mut parts: Vec<String> = Vec::new();
    let mut i: usize = 0;
    while i < r.len()
        invariant
            i <= r.len(),
            rings_ok(r.deep_view()),
            parts.len() == i,
            forall|j: int|
                0 <= j < i ==> (#[trigger] parts[j])@ == bracketed(line_text(r.deep_view()[j])),
        decreases r.len() - i,
    {
        assert(line_ok(r.deep_view()[i as int]));
        let inner = line_wkt(&r[i]);
        parts.push(bracket(inner.as_str()));
        i += 1;
    }
    proof {
        reveal_strlit(", ");
        assert(", "@ =~= separator());
        assert(texts(parts@) =~= Seq::new(
            r.deep_view().len(),
            |i: int| bracketed(line_text(r.deep_view()[i])),
        ));
    }
    join_with(&parts, ", ")
}

fn polygons_wkt(ps: &Vec<Vec<Vec<Position>>>) -> (out: String)
    requires
        polygons_ok(ps.deep_view()),
    ensures
        out@ == polygons_text(ps.deep_view()),
{
    let mut parts: Vec<String> = Vec::new();
    let mut i: usize = 0;
    while i < ps.len()
        invariant
            i <= ps.len(),
            polygons_ok(ps.deep_view()),
            parts.len() == i,
            forall|j: int|
                0 <= j < i ==> (#[trigger] parts[j])@ == bracketed(
                    rings_text(ps.deep_view()[j]),
                ),
        decreases ps.len() - i,
    {
        assert(rings_ok(ps.deep_view()[i as int]));
        let inner = rings_wkt(&ps[i]);
        parts.push(bracket(inner.as_str()));
        i += 1;
    }
    proof {
        reveal_strlit(", ");
        assert(", "@ =~= separator());
        assert(texts(parts@) =~= Seq::new(
            ps.deep_view().len(),
            |i: int| bracketed(rings_text(ps.deep_view()[i])),
        ));
    }
    join_with(&parts, ", ")
}

fn tagged(tag: &str, body: &str) -> (out: String)
    ensures
        out@ == tag@ + bracketed(body@),
{
    let inner = bracket(body);
    let mut out = String::from_str(tag);
    out.append(inner.as_str());
    out
}

fn well_formed_to_wkt(geom: &Geometry) -> (text: String)
    requires
        geom@.well_formed(),
    ensures
        text@ == wkt_text(geom@),
{
    proof {
        reveal_strlit("POINT");
        reveal_strlit("MULTIPOINT");
        reveal_strlit("LINESTRING");
        reveal_strlit("MULTILINESTRING");
        reveal_strlit("POLYGON");
        reveal_strlit("MULTIPOLYGON");
    }
    match geom {
        Geometry::Point(p) => {
            let body = position_wkt(p);
            assert("POINT"@ =~= keyword(geom@));
            tagged("POINT", body.as_str())
        },
        Geometry::MultiPoint(l) => {
            let body = points_wkt(l);
            assert("MULTIPOINT"@ =~= keyword(geom@));
            tagged("MULTIPOINT", body.as_str())
        },
        Geometry::LineString(l) => {
            let body = line_wkt(l);
            assert("LINESTRING"@ =~= keyword(geom@));
            tagged("LINESTRING", body.as_str())
        },
        Geometry::MultiLineString(r) => {
            let body = rings_wkt(r);
            assert("MULTILINESTRING"@ =~= keyword(geom@));
            tagged("MULTILINESTRING", body.as_str())
        },
        Geometry::Polygon(r) => {
            let body = rings_wkt(r);
            assert("POLYGON"@ =~= keyword(geom@));
            tagged("POLYGON", body.as_str())
        },
        Geometry::MultiPolygon(ps) => {
            let body = polygons_wkt(ps);
            assert("MULTIPOLYGON"@ =~= keyword(geom@));
            tagged("MULTIPOLYGON", body.as_str())
        },
        Geometry::Unsupported(_) => String::new(),
    }
}

/// The well-known text of a geometry.
///
/// A geometry that is not well formed has none: the error says what is
/// wrong with it, an unsupported shape by its name. The text of a
/// well-formed geometry is read back as the geometry, with the x and the y
/// of each position.
pub fn geometry_to_wkt(geom: &Geometry) -> (res: Result<String, GeometryError>)
    ensures
        match res {
            Ok(text) => {
                &&& geom@.fault() is None
                &&& text@ == wkt_text(geom@)
                &&& read_wkt(text@) == Some(planar_part(geom@))
            },
            Err(e) => geom@.fault() == Some(e@),
        },
{
    match geom.validate() {
        Err(e) => Err(e),
        Ok(_) => {
            proof {
                lemma_read_wkt_of_any(geom@);
            }
            Ok(well_formed_to_wkt(geom))
        },
    }
}

} // verus!
