//! Indexes of the grid (cells, directed edges, vertexes), read from text and
//! decoded into their components.

use vstd::prelude::*;

verus! {

/// A cell index of the grid-indexing crate.
#[verifier::external_type_specification]
#[verifier::external_body]
pub struct ExCellIndex(h3o::CellIndex);

/// A directed edge index of the grid-indexing crate.
#[verifier::external_type_specification]
#[verifier::external_body]
pub struct ExDirectedEdgeIndex(h3o::DirectedEdgeIndex);

/// A vertex index of the grid-indexing crate.
#[verifier::external_type_specification]
#[verifier::external_body]
pub struct ExVertexIndex(h3o::VertexIndex);

/// What reading text as a cell index gives.
pub uninterp spec fn cell_from_text(s: Seq<char>) -> Option<h3o::CellIndex>;

/// What reading text as a directed edge index gives.
pub uninterp spec fn edge_from_text(s: Seq<char>) -> Option<h3o::DirectedEdgeIndex>;

/// What reading text as a vertex index gives.
pub uninterp spec fn vertex_from_text(s: Seq<char>) -> Option<h3o::VertexIndex>;

/// The resolution of a cell.
pub uninterp spec fn cell_resolution(c: h3o::CellIndex) -> u8;

/// The base cell of a cell.
pub uninterp spec fn cell_base_cell(c: h3o::CellIndex) -> u8;

/// The direction that a cell takes at a resolution from 1 to its own.
pub uninterp spec fn cell_direction(c: h3o::CellIndex, res: u8) -> u8;

/// The cell from which a directed edge starts.
pub uninterp spec fn edge_origin(e: h3o::DirectedEdgeIndex) -> h3o::CellIndex;

/// The number of a directed edge around its origin.
pub uninterp spec fn edge_number(e: h3o::DirectedEdgeIndex) -> u8;

/// The cell that owns a vertex.
pub uninterp spec fn vertex_owner(v: h3o::VertexIndex) -> h3o::CellIndex;

/// The number of a vertex around its owner.
pub uninterp spec fn vertex_number(v: h3o::VertexIndex) -> u8;

/// Relies on `CellIndex::from_str`: the text as a cell index, if it is one.
#[verifier::external_body]
fn read_cell(s: &str) -> (r: Option<h3o::CellIndex>)
    ensures
        r == cell_from_text(s@),
{
    s.parse::<h3o::CellIndex>().ok()
}

/// Relies on `DirectedEdgeIndex::from_str`: the text as a directed edge
/// index, if it is one.
#[verifier::external_body]
fn read_edge(s: &str) -> (r: Option<h3o::DirectedEdgeIndex>)
    ensures
        r == edge_from_text(s@),
{
    s.parse::<h3o::DirectedEdgeIndex>().ok()
}

/// Relies on `VertexIndex::from_str`: the text as a vertex index, if it is
/// one.
#[verifier::external_body]
fn read_vertex(s: &str) -> (r: Option<h3o::VertexIndex>)
    ensures
        r == vertex_from_text(s@),
{
    s.parse::<h3o::VertexIndex>().ok()
}

/// Relies on `CellIndex::resolution` and `u8::from(Resolution)`, a value
/// from 0 to 15.
#[verifier::external_body]
fn resolution_of(c: &h3o::CellIndex) -> (r: u8)
    ensures
        r == cell_resolution(*c),
        r <= 15,
{
    u8::from(c.resolution())
}

/// Relies on `CellIndex::base_cell` and `u8::from(BaseCell)`.
#[verifier::external_body]
fn base_cell_of(c: &h3o::CellIndex) -> (r: u8)
    ensures
        r == cell_base_cell(*c),
{
    u8::from(c.base_cell())
}

/// Relies on `CellIndex::direction_at` and `u8::from(Direction)`: a
/// direction (from 0 to 6) exactly for the resolutions from 1 to the cell's
/// own.
#[verifier::external_body]
fn direction_of(c: &h3o::CellIndex, res: u8) -> (r: Option<u8>)
    requires
        res <= 15,
    ensures
        r == (if 1 <= res <= cell_resolution(*c) {
            Some(cell_direction(*c, res))
        } else {
            None::<u8>
        }),
        r is Some ==> r->0 <= 6,
{
    let resolution = h3o::Resolution::try_from(res).expect("resolution in 0..=15");
    c.direction_at(resolution).map(u8::from)
}

/// Relies on `DirectedEdgeIndex::origin`.
#[verifier::external_body]
fn origin_of(e: &h3o::DirectedEdgeIndex) -> (r: h3o::CellIndex)
    ensures
        r == edge_origin(*e),
{
    e.origin()
}

/// Relies on `DirectedEdgeIndex::edge` and `u8::from(Edge)`.
#[verifier::external_body]
fn edge_number_of(e: &h3o::DirectedEdgeIndex) -> (r: u8)
    ensures
        r == edge_number(*e),
{
    u8::from(e.edge())
}

/// Relies on `VertexIndex::owner`.
#[verifier::external_body]
fn owner_of(v: &h3o::VertexIndex) -> (r: h3o::CellIndex)
    ensures
        r == vertex_owner(*v),
{
    v.owner()
}

/// Relies on `VertexIndex::vertex` and `u8::from(Vertex)`.
#[verifier::external_body]
fn vertex_number_of(v: &h3o::VertexIndex) -> (r: u8)
    ensures
        r == vertex_number(*v),
{
    u8::from(v.vertex())
}

/// An index of the grid.
#[derive(Clone, Copy, Debug)]
pub enum Index {
    Cell(h3o::CellIndex),
    DirectedEdge(h3o::DirectedEdgeIndex),
    Vertex(h3o::VertexIndex),
}

/// The index that text denotes: read as a cell first, then as a directed
/// edge, then as a vertex.
pub open spec fn index_from_text(s: Seq<char>) -> Option<Index> {
    match cell_from_text(s) {
        Some(c) => Some(Index::Cell(c)),
        None => match edge_from_text(s) {
            Some(e) => Some(Index::DirectedEdge(e)),
            None => match vertex_from_text(s) {
                Some(v) => Some(Index::Vertex(v)),
                None => None,
            },
        },
    }
}

impl Index {
    /// Reads an index from text: a cell if the text is one, else a directed
    /// edge, else a vertex; `None` if it is none of them.
    pub fn parse(s: &str) -> (r: Option<Index>)
        ensures
            r == index_from_text(s@),
    {
        if let Some(c) = read_cell(s) {
            return Some(Index::Cell(c));
        }
        if let Some(e) = read_edge(s) {
            return Some(Index::DirectedEdge(e));
        }
        match read_vertex(s) {
            Some(v) => Some(Index::Vertex(v)),
            None => None,
        }
    }

    /// The code of the index's mode: 1 for a cell, 2 for a directed edge,
    /// 4 for a vertex.
    pub open spec fn mode_spec(self) -> u8 {
        match self {
            Index::Cell(_) => 1,
            Index::DirectedEdge(_) => 2,
            Index::Vertex(_) => 4,
        }
    }

    /// The code of the index's mode: 1 for a cell, 2 for a directed edge,
    /// 4 for a vertex.
    pub fn mode(&self) -> (r: u8)
        ensures
            r == self.mode_spec(),
    {
        match self {
            Index::Cell(_) => 1,
            Index::DirectedEdge(_) => 2,
            Index::Vertex(_) => 4,
        }
    }

    /// The cell that the index belongs to: the cell itself, an edge's
    /// origin, a vertex's owner.
    pub open spec fn cell_spec(self) -> h3o::CellIndex {
        match self {
            Index::Cell(c) => c,
            Index::DirectedEdge(e) => edge_origin(e),
            Index::Vertex(v) => vertex_owner(v),
        }
    }

    /// The edge or vertex number that a directed edge or a vertex carries.
    pub open spec fn custom_spec(self) -> Option<CustomField> {
        match self {
            Index::Cell(_) => None,
            Index::DirectedEdge(e) => Some(CustomField::Edge(edge_number(e))),
            Index::Vertex(v) => Some(CustomField::Vertex(vertex_number(v))),
        }
    }
}

/// The number that an edge or a vertex index carries besides its cell.
#[derive(Clone, Copy, Debug, PartialEq, Eq, Structural)]
pub enum CustomField {
    Edge(u8),
    Vertex(u8),
}

impl CustomField {
    /// The number carried.
    pub fn value(&self) -> (r: u8)
        ensures
            r == match *self {
                CustomField::Edge(n) => n,
                CustomField::Vertex(n) => n,
            },
    {
        match self {
            CustomField::Edge(n) => *n,
            CustomField::Vertex(n) => *n,
        }
    }
}

/// An index decoded into its components.
#[derive(Debug)]
pub struct Components {
    pub index: Index,
    /// The mode code (see `Index::mode`).
    pub mode: u8,
    /// The edge or vertex number, for an edge or a vertex.
    pub custom: Option<CustomField>,
    /// The resolution of the index's cell.
    pub resolution: u8,
    /// The base cell of the index's cell.
    pub base_cell: u8,
    /// The directions of the index's cell at resolutions 1 to its own.
    pub directions: Vec<u8>,
}

impl Components {
    /// Decodes an index: its mode, its edge or vertex number, and the
    /// resolution, base cell and directions of its cell.
    pub fn from_index(index: Index) -> (r: Components)
        ensures
            r.index == index,
            r.mode == index.mode_spec(),
            r.custom == index.custom_spec(),
            r.resolution == cell_resolution(index.cell_spec()),
            r.base_cell == cell_base_cell(index.cell_spec()),
            r.directions@ == Seq::new(
                r.resolution as nat,
                |i: int| cell_direction(index.cell_spec(), (i + 1) as u8),
            ),
            forall|i: int| 0 <= i < r.directions@.len() ==> #[trigger] r.directions@[i] <= 6,
    {
        let (cell, custom) = match &index {
            Index::Cell(c) => (*c, None),
            Index::DirectedEdge(e) => (origin_of(e), Some(CustomField::Edge(edge_number_of(e)))),
            Index::Vertex(v) => (owner_of(v), Some(CustomField::Vertex(vertex_number_of(v)))),
        };
        let resolution = resolution_of(&cell);
        let mut directions: Vec<u8> = Vec::new();
        let mut res: u8 = 1;
        while res <= resolution
            invariant
                1 <= res <= resolution + 1,
                resolution == cell_resolution(cell),
                resolution <= 15,
                directions@ == Seq::new(
                    (res - 1) as nat,
                    |i: int| cell_direction(cell, (i + 1) as u8),
                ),
                forall|i: int| 0 <= i < directions@.len() ==> #[trigger] directions@[i] <= 6,
            decreases resolution + 1 - res,
        {
            if let Some(d) = direction_of(&cell, res) {
                directions.push(d);
            }
            assert(directions@ =~= Seq::new(
                res as nat,
                |i: int| cell_direction(cell, (i + 1) as u8),
            ));
            res = res + 1;
        }
        Components {
            index,
            mode: index.mode(),
            custom,
            resolution,
            base_cell: base_cell_of(&cell),
            directions,
        }
    }
}

} // verus!
