//! KiCad board-outline conversion. Only graphics on the `Edge.Cuts` layer are
//! board geometry; lines and arcs are kept as canonical primitives.

use vstd::prelude::*;

use super::native::{
    kicad_id, kicad_object_id, native_id_or_unknown, native_or_unknown, source_ref,
    spec_source_ref,
};
use super::sexpr::{
    child_text, children, required_point, spec_child_text, spec_children, spec_required_point,
    text_equals, tree_refs, SExpr, SpecSExpr,
};
use crate::adapter::error::{result_view, AdapterError, SpecAdapterError};
use crate::model::common::ObjectId;
use crate::model::pcb::{BoardEdge, SpecBoardEdge};

verus! {

/// A graphic lies on the `Edge.Cuts` layer.
pub open spec fn spec_is_edge_cut(v: SpecSExpr) -> bool {
    spec_child_text(v, "layer"@) == Some("Edge.Cuts"@)
}

/// The board edge that a `gr_line` entry describes.
pub open spec fn spec_line(v: SpecSExpr, path: Seq<char>) -> Result<SpecBoardEdge, SpecAdapterError> {
    let native = native_or_unknown(v);
    match spec_required_point(v, "start"@) {
        Err(e) => Err(e),
        Ok(start) => match spec_required_point(v, "end"@) {
            Err(e) => Err(e),
            Ok(end) => Ok(
                SpecBoardEdge::Line {
                    id: kicad_id(native),
                    start,
                    end,
                    source: spec_source_ref(path, native),
                },
            ),
        },
    }
}

/// The board edge that a `gr_arc` entry describes.
pub open spec fn spec_arc(v: SpecSExpr, path: Seq<char>) -> Result<SpecBoardEdge, SpecAdapterError> {
    let native = native_or_unknown(v);
    match spec_required_point(v, "start"@) {
        Err(e) => Err(e),
        Ok(start) => match spec_required_point(v, "mid"@) {
            Err(e) => Err(e),
            Ok(mid) => match spec_required_point(v, "end"@) {
                Err(e) => Err(e),
                Ok(end) => Ok(
                    SpecBoardEdge::Arc {
                        id: kicad_id(native),
                        start,
                        mid,
                        end,
                        source: spec_source_ref(path, native),
                    },
                ),
            },
        },
    }
}

/// The board edges of the `Edge.Cuts` graphics among `nodes[..n]`, lines when
/// `arcs` is false and arcs otherwise, or the first error.
pub open spec fn edges_upto(nodes: Seq<SpecSExpr>, path: Seq<char>, arcs: bool, n: int) -> Result<
    Seq<SpecBoardEdge>,
    SpecAdapterError,
>
    decreases n,
{
    if n <= 0 {
        Ok(seq![])
    } else {
        match edges_upto(nodes, path, arcs, n - 1) {
            Err(e) => Err(e),
            Ok(edges) => if spec_is_edge_cut(nodes[n - 1]) {
                match if arcs {
                    spec_arc(nodes[n - 1], path)
                } else {
                    spec_line(nodes[n - 1], path)
                } {
                    Ok(edge) => Ok(edges.push(edge)),
                    Err(e) => Err(e),
                }
            } else {
                Ok(edges)
            },
        }
    }
}

/// The board outline of a board: its `Edge.Cuts` lines, then its `Edge.Cuts`
/// arcs, each in file order; or the first error.
pub open spec fn spec_outline(root: SpecSExpr, path: Seq<char>) -> Result<
    Seq<SpecBoardEdge>,
    SpecAdapterError,
> {
    let lines = spec_children(root, "gr_line"@);
    let arcs = spec_children(root, "gr_arc"@);
    match edges_upto(lines, path, false, lines.len() as int) {
        Err(e) => Err(e),
        Ok(ls) => match edges_upto(arcs, path, true, arcs.len() as int) {
            Err(e) => Err(e),
            Ok(cs) => Ok(ls + cs),
        },
    }
}

pub open spec fn edges_view(edges: Seq<BoardEdge>) -> Seq<SpecBoardEdge> {
    edges.map_values(|e: BoardEdge| e@)
}

proof fn lemma_edges_error_stays(
    nodes: Seq<SpecSExpr>,
    path: Seq<char>,
    arcs: bool,
    n: int,
    m: int,
)
    requires
        0 <= n <= m,
        edges_upto(nodes, path, arcs, n) is Err,
    ensures
        edges_upto(nodes, path, arcs, m) == edges_upto(nodes, path, arcs, n),
    decreases m - n,
{
    if n < m {
        lemma_edges_error_stays(nodes, path, arcs, n, m - 1);
    }
}

/// Whether a graphic lies on the `Edge.Cuts` layer.
pub fn is_edge_cut(value: &SExpr) -> (r: bool)
    ensures
        r == spec_is_edge_cut(value@),
{
    proof {
        reveal_strlit("Edge.Cuts");
    }
    match child_text(value, "layer") {
        Some(layer) => text_equals(layer, "Edge.Cuts"),
        None => false,
    }
}

/// Converts a `gr_line` entry.
pub fn parse_line(value: &SExpr, path: &str) -> (r: Result<BoardEdge, AdapterError>)
    ensures
        result_view(r) == spec_line(value@, path@),
{
    let native_id = native_id_or_unknown(value);
    let start = match required_point(value, "start") {
        Ok(p) => p,
        Err(e) => return Err(e),
    };
    let end = match required_point(value, "end") {
        Ok(p) => p,
        Err(e) => return Err(e),
    };
    Ok(
        BoardEdge::Line {
            id: ObjectId(kicad_object_id(native_id.as_str())),
            start,
            end,
            source: source_ref(path, native_id),
        },
    )
}

/// Converts a `gr_arc` entry.
pub fn parse_arc(value: &SExpr, path: &str) -> (r: Result<BoardEdge, AdapterError>)
    ensures
        result_view(r) == spec_arc(value@, path@),
{
    let native_id = native_id_or_unknown(value);
    let start = match required_point(value, "start") {
        Ok(p) => p,
        Err(e) => return Err(e),
    };
    let mid = match required_point(value, "mid") {
        Ok(p) => p,
        Err(e) => return Err(e),
    };
    let end = match required_point(value, "end") {
        Ok(p) => p,
        Err(e) => return Err(e),
    };
    Ok(
        BoardEdge::Arc {
            id: ObjectId(kicad_object_id(native_id.as_str())),
            start,
            mid,
            end,
            source: source_ref(path, native_id),
        },
    )
}

/// Appends the board edges of the `Edge.Cuts` graphics among `nodes` to `edges`.
fn collect_edges(nodes: &Vec<&SExpr>, path: &str, arcs: bool, edges: &mut Vec<BoardEdge>) -> (r:
    Result<(), AdapterError>)
    ensures
        match edges_upto(tree_refs(nodes@), path@, arcs, nodes@.len() as int) {
            Ok(found) => r is Ok && edges_view(final(edges)@) == edges_view(old(edges)@) + found,
            Err(e) => r matches Err(x) && x@ == e,
        },
{
    let ghost ns = tree_refs(nodes@);
    let ghost start = edges_view(edges@);
    let mut i: usize = 0;
    while i < nodes.len()
        invariant
            i <= nodes@.len(),
            ns == tree_refs(nodes@),
            edges_upto(ns, path@, arcs, i as int) matches Ok(found) && edges_view(edges@) == start
                + found,
        decreases nodes@.len() - i,
    {
        let node = nodes[i];
        assert(node@ == ns[i as int]);
        let ghost prev = edges@;
        let ghost found = edges_upto(ns, path@, arcs, i as int)->Ok_0;
        if is_edge_cut(node) {
            let parsed = if arcs {
                parse_arc(node, path)
            } else {
                parse_line(node, path)
            };
            match parsed {
                Ok(edge) => {
                    edges.push(edge);
                    assert(edges_view(edges@) =~= edges_view(prev).push(edge@));
                    assert(found.push(edge@) == edges_upto(ns, path@, arcs, i + 1)->Ok_0);
                },
                Err(e) => {
                    proof {
                        lemma_edges_error_stays(ns, path@, arcs, i + 1, nodes@.len() as int);
                    }
                    return Err(e);
                },
            }
        }
        i = i + 1;
    }
    Ok(())
}

/// The board outline of a board: its `Edge.Cuts` lines, then its `Edge.Cuts`
/// arcs, each in file order.
pub fn parse(root: &SExpr, path: &str) -> (r: Result<Vec<BoardEdge>, AdapterError>)
    ensures
        match r {
            Ok(edges) => spec_outline(root@, path@) == Ok::<Seq<SpecBoardEdge>, SpecAdapterError>(
                edges_view(edges@),
            ),
            Err(e) => spec_outline(root@, path@) == Err::<Seq<SpecBoardEdge>, SpecAdapterError>(
                e@,
            ),
        },
{
    let mut edges: Vec<BoardEdge> = Vec::new();
    assert(edges_view(edges@) =~= seq![]);
    let lines = children(root, "gr_line");
    match collect_edges(&lines, path, false, &mut edges) {
        Ok(()) => {},
        Err(e) => return Err(e),
    }
    let arcs = children(root, "gr_arc");
    match collect_edges(&arcs, path, true, &mut edges) {
        Ok(()) => {},
        Err(e) => return Err(e),
    }
    Ok(edges)
}

} // verus!
