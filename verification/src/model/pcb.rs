//! Canonical PCB model: board-level geometry and connectivity independent of
//! any vendor file format.

use vstd::prelude::*;

use super::common::{ObjectId, Point, Real, Rotation, Size};
use super::source::{SourceRef, SpecSourceRef};

verus! {

#[derive(Clone, Debug)]
pub struct Pcb {
    pub layers: Vec<PcbLayer>,
    pub footprints: Vec<Footprint>,
    pub tracks: Vec<Track>,
    pub vias: Vec<Via>,
    pub nets: Vec<Net>,
    pub board_outline: Vec<BoardEdge>,
}

#[derive(Clone, Debug)]
pub struct PcbLayer {
    pub name: String,
    pub kind: PcbLayerKind,
}

#[derive(Clone, Copy, Debug, PartialEq, Eq, Structural)]
pub enum PcbLayerKind {
    Copper,
    Technical,
    User,
    Other,
}

#[derive(Clone, Debug)]
pub struct Footprint {
    pub id: ObjectId,
    pub reference: String,
    pub value: String,
    pub library_link: Option<String>,
    pub position: Point,
    pub rotation: Rotation,
    pub layer: String,
    pub pads: Vec<Pad>,
    pub source: SourceRef,
}

#[derive(Clone, Debug)]
pub struct Pad {
    pub id: ObjectId,
    pub number: String,
    pub kind: String,
    pub shape: String,
    pub position: Point,
    pub rotation: Rotation,
    pub size: Size,
    pub drill_mm: Option<Real>,
    pub layers: Vec<String>,
    pub net_id: Option<ObjectId>,
    pub source: SourceRef,
}

#[derive(Clone, Debug)]
pub struct Track {
    pub id: ObjectId,
    pub start: Point,
    pub end: Point,
    pub width_mm: Real,
    pub layer: String,
    pub net_id: Option<ObjectId>,
    pub source: SourceRef,
}

#[derive(Clone, Debug)]
pub struct Via {
    pub id: ObjectId,
    pub position: Point,
    pub diameter_mm: Real,
    pub drill_mm: Real,
    pub layers: Vec<String>,
    pub net_id: Option<ObjectId>,
    pub source: SourceRef,
}

#[derive(Clone, Debug)]
pub enum BoardEdge {
    Line { id: ObjectId, start: Point, end: Point, source: SourceRef },
    Arc { id: ObjectId, start: Point, mid: Point, end: Point, source: SourceRef },
}

#[derive(Clone, Debug)]
pub struct Net {
    pub id: ObjectId,
    pub name: String,
}

// ---------------------------------------------------------------------------
// What each PCB value says, with texts as character sequences.

pub struct SpecPcb {
    pub layers: Seq<SpecPcbLayer>,
    pub footprints: Seq<SpecFootprint>,
    pub tracks: Seq<SpecTrack>,
    pub vias: Seq<SpecVia>,
    pub nets: Seq<SpecNet>,
    pub board_outline: Seq<SpecBoardEdge>,
}

pub struct SpecPcbLayer {
    pub name: Seq<char>,
    pub kind: PcbLayerKind,
}

pub struct SpecFootprint {
    pub id: Seq<char>,
    pub reference: Seq<char>,
    pub value: Seq<char>,
    pub library_link: Option<Seq<char>>,
    pub position: Point,
    pub rotation: Rotation,
    pub layer: Seq<char>,
    pub pads: Seq<SpecPad>,
    pub source: SpecSourceRef,
}

pub struct SpecPad {
    pub id: Seq<char>,
    pub number: Seq<char>,
    pub kind: Seq<char>,
    pub shape: Seq<char>,
    pub position: Point,
    pub rotation: Rotation,
    pub size: Size,
    pub drill_mm: Option<Real>,
    pub layers: Seq<Seq<char>>,
    pub net_id: Option<Seq<char>>,
    pub source: SpecSourceRef,
}

pub struct SpecTrack {
    pub id: Seq<char>,
    pub start: Point,
    pub end: Point,
    pub width_mm: Real,
    pub layer: Seq<char>,
    pub net_id: Option<Seq<char>>,
    pub source: SpecSourceRef,
}

pub struct SpecVia {
    pub id: Seq<char>,
    pub position: Point,
    pub diameter_mm: Real,
    pub drill_mm: Real,
    pub layers: Seq<Seq<char>>,
    pub net_id: Option<Seq<char>>,
    pub source: SpecSourceRef,
}

pub enum SpecBoardEdge {
    Line { id: Seq<char>, start: Point, end: Point, source: SpecSourceRef },
    Arc { id: Seq<char>, start: Point, mid: Point, end: Point, source: SpecSourceRef },
}

pub struct SpecNet {
    pub id: Seq<char>,
    pub name: Seq<char>,
}

/// The view of an optional object identifier.
pub open spec fn id_view(id: Option<ObjectId>) -> Option<Seq<char>> {
    match id {
        Some(i) => Some(i@),
        None => None,
    }
}

impl View for PcbLayer {
    type V = SpecPcbLayer;

    open spec fn view(&self) -> SpecPcbLayer {
        SpecPcbLayer { name: self.name@, kind: self.kind }
    }
}

impl View for Pad {
    type V = SpecPad;

    open spec fn view(&self) -> SpecPad {
        SpecPad {
            id: self.id@,
            number: self.number@,
            kind: self.kind@,
            shape: self.shape@,
            position: self.position,
            rotation: self.rotation,
            size: self.size,
            drill_mm: self.drill_mm,
            layers: self.layers.deep_view(),
            net_id: id_view(self.net_id),
            source: self.source@,
        }
    }
}

impl View for Footprint {
    type V = SpecFootprint;

    open spec fn view(&self) -> SpecFootprint {
        SpecFootprint {
            id: self.id@,
            reference: self.reference@,
            value: self.value@,
            library_link: self.library_link.deep_view(),
            position: self.position,
            rotation: self.rotation,
            layer: self.layer@,
            pads: self.pads@.map_values(|p: Pad| p@),
            source: self.source@,
        }
    }
}

impl View for Track {
    type V = SpecTrack;

    open spec fn view(&self) -> SpecTrack {
        SpecTrack {
            id: self.id@,
            start: self.start,
            end: self.end,
            width_mm: self.width_mm,
            layer: self.layer@,
            net_id: id_view(self.net_id),
            source: self.source@,
        }
    }
}

impl View for Via {
    type V = SpecVia;

    open spec fn view(&self) -> SpecVia {
        SpecVia {
            id: self.id@,
            position: self.position,
            diameter_mm: self.diameter_mm,
            drill_mm: self.drill_mm,
            layers: self.layers.deep_view(),
            net_id: id_view(self.net_id),
            source: self.source@,
        }
    }
}

impl View for BoardEdge {
    type V = SpecBoardEdge;

    open spec fn view(&self) -> SpecBoardEdge {
        match self {
            BoardEdge::Line { id, start, end, source } => SpecBoardEdge::Line {
                id: id@,
                start: *start,
                end: *end,
                source: source@,
            },
            BoardEdge::Arc { id, start, mid, end, source } => SpecBoardEdge::Arc {
                id: id@,
                start: *start,
                mid: *mid,
                end: *end,
                source: source@,
            },
        }
    }
}

impl View for Net {
    type V = SpecNet;

    open spec fn view(&self) -> SpecNet {
        SpecNet { id: self.id@, name: self.name@ }
    }
}

impl View for Pcb {
    type V = SpecPcb;

    open spec fn view(&self) -> SpecPcb {
        SpecPcb {
            layers: self.layers@.map_values(|l: PcbLayer| l@),
            footprints: self.footprints@.map_values(|f: Footprint| f@),
            tracks: self.tracks@.map_values(|t: Track| t@),
            vias: self.vias@.map_values(|v: Via| v@),
            nets: self.nets@.map_values(|n: Net| n@),
            board_outline: self.board_outline@.map_values(|e: BoardEdge| e@),
        }
    }
}

impl SpecBoardEdge {
    pub open spec fn id(self) -> Seq<char> {
        match self {
            SpecBoardEdge::Line { id, .. } => id,
            SpecBoardEdge::Arc { id, .. } => id,
        }
    }
}

impl Pcb {
    pub fn empty() -> (pcb: Pcb)
        ensures
            pcb@.layers.len() == 0,
            pcb@.footprints.len() == 0,
            pcb@.tracks.len() == 0,
            pcb@.vias.len() == 0,
            pcb@.nets.len() == 0,
            pcb@.board_outline.len() == 0,
    {
        Pcb {
            layers: Vec::new(),
            footprints: Vec::new(),
            tracks: Vec::new(),
            vias: Vec::new(),
            nets: Vec::new(),
            board_outline: Vec::new(),
        }
    }
}

} // verus!
