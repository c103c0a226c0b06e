//! A configuration together with its place in a planner's graph.
use vstd::prelude::*;
use geo_types::{Geometry, Line};
use wkt::ToWkt;
use crate::space::{wkt_text, Point};
use crate::text::decimal;

verus! {

/// A node in two dimensions: its coordinates and its id in the graph of
/// the planner that holds it.
#[derive(Debug, Copy, Clone)]
pub struct Node2D {
    pub x: i64,
    pub y: i64,
    pub idx: usize,
}

/// The well-known text of the straight line from `(x0, y0)` to `(x1, y1)`:
/// the word LINESTRING, then both ends between round brackets, a comma
/// between them, each as its two coordinates in decimal with a space
/// between.
pub open spec fn line_text(x0: i64, y0: i64, x1: i64, y1: i64) -> Seq<char> {
    seq!['L', 'I', 'N', 'E', 'S', 'T', 'R', 'I', 'N', 'G', '('] + decimal(x0 as int) + seq![' ']
        + decimal(y0 as int) + seq![','] + decimal(x1 as int) + seq![' '] + decimal(y1 as int)
        + seq![')']
}

/// `ToWkt::wkt_string` on a `geo_types::Point` of whole coordinates: the
/// word POINT, then the two coordinates as `Display` writes them, in round
/// brackets with a space between.
#[verifier::external_body]
fn point_wkt(x: i64, y: i64) -> (text: String)
    ensures
        text@ == wkt_text(Point { x, y }),
{
    geo_types::Point::new(x, y).wkt_string()
}

/// `ToWkt::wkt_string` on a `geo_types::Line` of whole coordinates, which
/// is written as a line string of its two ends.
#[verifier::external_body]
fn line_wkt(x0: i64, y0: i64, x1: i64, y1: i64) -> (text: String)
    ensures
        text@ == line_text(x0, y0, x1, y1),
{
    Geometry::Line(Line::new((x0, y0), (x1, y1))).wkt_string()
}

impl Node2D {
    /// The node at the given coordinates, with id zero.
    pub fn new(x: i64, y: i64) -> (node: Self)
        ensures
            node.x == x,
            node.y == y,
            node.idx == 0,
    {
        let idx: usize = 0;
        Node2D { x, y, idx }
    }

    /// The node at the given coordinates with the given id.
    pub fn new_index(x: i64, y: i64, idx: usize) -> (node: Self)
        ensures
            node.x == x,
            node.y == y,
            node.idx == idx,
    {
        Node2D { x, y, idx }
    }

    /// The node with the given id, placed at the origin.
    pub fn from_graph_node(index: usize) -> (node: Self)
        ensures
            node.x == 0,
            node.y == 0,
            node.idx == index,
    {
        Node2D { x: 0, y: 0, idx: index }
    }

    /// The id of this node in the graph.
    pub fn get_index_type(&self) -> (index: usize)
        ensures
            index == self.idx,
    {
        self.idx
    }

    /// The well-known text of this node's position.
    pub fn get_wkt(&self) -> (text: String)
        ensures
            text@ == wkt_text(Point { x: self.x, y: self.y }),
    {
        point_wkt(self.x, self.y)
    }

    /// The well-known text of the straight line from this node to
    /// `other`.
    pub fn get_line_wkt(&self, other: &Node2D) -> (text: String)
        ensures
            text@ == line_text(self.x, self.y, other.x, other.y),
    {
        line_wkt(self.x, self.y, other.x, other.y)
    }
}

} // verus!
