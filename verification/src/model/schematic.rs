//! Canonical schematic model: format-independent electrical concepts that
//! adapters convert native schematic data into.

use vstd::prelude::*;

use super::common::{ObjectId, Point, Real, Rotation};
use super::source::{SourceRef, SpecSourceRef};

verus! {

#[derive(Clone, Debug)]
pub struct Schematic {
    pub symbol_definitions: Vec<SymbolDefinition>,
    pub symbols: Vec<Symbol>,
    pub wires: Vec<Wire>,
    pub junctions: Vec<Junction>,
    pub labels: Vec<Label>,
    pub nets: Vec<Net>,
}

/// A library symbol embedded in a schematic file.
#[derive(Clone, Debug)]
pub struct SymbolDefinition {
    pub library_id: String,
    pub units: Vec<SymbolUnit>,
}

/// The drawing of one unit (and body style) of a library symbol.
#[derive(Clone, Debug)]
pub struct SymbolUnit {
    pub unit: u32,
    pub style: u32,
    pub graphics: Vec<SymbolGraphic>,
    pub pins: Vec<SymbolPin>,
}

#[derive(Clone, Copy, Debug, PartialEq, Eq, Structural)]
pub enum SymbolFill {
    Unfilled,
    Outline,
    Background,
}

#[derive(Clone, Debug)]
pub enum SymbolGraphic {
    Rectangle { start: Point, end: Point, stroke_width_mm: Real, fill: SymbolFill },
    Polyline { points: Vec<Point>, stroke_width_mm: Real, fill: SymbolFill },
    Circle { center: Point, radius_mm: Real, stroke_width_mm: Real, fill: SymbolFill },
    Arc { start: Point, mid: Point, end: Point, stroke_width_mm: Real, fill: SymbolFill },
}

#[derive(Clone, Debug)]
pub struct SymbolPin {
    pub number: String,
    pub name: String,
    pub electrical_type: String,
    pub graphic_style: String,
    pub position: Point,
    pub rotation: Rotation,
    pub length_mm: Real,
}

/// A placed symbol.
#[derive(Clone, Debug)]
pub struct Symbol {
    pub id: ObjectId,
    pub reference: String,
    pub value: String,
    pub library_id: Option<String>,
    pub footprint: Option<String>,
    pub unit: u32,
    pub position: Point,
    pub rotation: Rotation,
    pub mirror_x: bool,
    pub mirror_y: bool,
    pub source: SourceRef,
}

#[derive(Clone, Debug)]
pub struct Wire {
    pub id: ObjectId,
    pub points: Vec<Point>,
    pub source: SourceRef,
}

#[derive(Clone, Debug)]
pub struct Junction {
    pub id: ObjectId,
    pub position: Point,
    pub source: SourceRef,
}

#[derive(Clone, Copy, Debug, PartialEq, Eq, Structural)]
pub enum LabelKind {
    Local,
    Global,
    Hierarchical,
}

#[derive(Clone, Debug)]
pub struct Label {
    pub id: ObjectId,
    pub name: String,
    pub kind: LabelKind,
    pub position: Point,
    pub rotation: Rotation,
    pub electrical_shape: Option<String>,
    pub source: SourceRef,
}

#[derive(Clone, Debug)]
pub struct Net {
    pub id: ObjectId,
    pub name: String,
}

// ---------------------------------------------------------------------------
// What each schematic value says, with texts as character sequences.

pub struct SpecSchematic {
    pub symbol_definitions: Seq<SpecSymbolDefinition>,
    pub symbols: Seq<SpecSymbol>,
    pub wires: Seq<SpecWire>,
    pub junctions: Seq<SpecJunction>,
    pub labels: Seq<SpecLabel>,
    pub nets: Seq<SpecNet>,
}

pub struct SpecSymbolDefinition {
    pub library_id: Seq<char>,
    pub units: Seq<SpecSymbolUnit>,
}

pub struct SpecSymbolUnit {
    pub unit: u32,
    pub style: u32,
    pub graphics: Seq<SpecSymbolGraphic>,
    pub pins: Seq<SpecSymbolPin>,
}

pub enum SpecSymbolGraphic {
    Rectangle { start: Point, end: Point, stroke_width_mm: Real, fill: SymbolFill },
    Polyline { points: Seq<Point>, stroke_width_mm: Real, fill: SymbolFill },
    Circle { center: Point, radius_mm: Real, stroke_width_mm: Real, fill: SymbolFill },
    Arc { start: Point, mid: Point, end: Point, stroke_width_mm: Real, fill: SymbolFill },
}

pub struct SpecSymbolPin {
    pub number: Seq<char>,
    pub name: Seq<char>,
    pub electrical_type: Seq<char>,
    pub graphic_style: Seq<char>,
    pub position: Point,
    pub rotation: Rotation,
    pub length_mm: Real,
}

pub struct SpecSymbol {
    pub id: Seq<char>,
    pub reference: Seq<char>,
    pub value: Seq<char>,
    pub library_id: Option<Seq<char>>,
    pub footprint: Option<Seq<char>>,
    pub unit: u32,
    pub position: Point,
    pub rotation: Rotation,
    pub mirror_x: bool,
    pub mirror_y: bool,
    pub source: SpecSourceRef,
}

pub struct SpecWire {
    pub id: Seq<char>,
    pub points: Seq<Point>,
    pub source: SpecSourceRef,
}

pub struct SpecJunction {
    pub id: Seq<char>,
    pub position: Point,
    pub source: SpecSourceRef,
}

pub struct SpecLabel {
    pub id: Seq<char>,
    pub name: Seq<char>,
    pub kind: LabelKind,
    pub position: Point,
    pub rotation: Rotation,
    pub electrical_shape: Option<Seq<char>>,
    pub source: SpecSourceRef,
}

pub struct SpecNet {
    pub id: Seq<char>,
    pub name: Seq<char>,
}

impl View for SymbolGraphic {
    type V = SpecSymbolGraphic;

    open spec fn view(&self) -> SpecSymbolGraphic {
        match self {
            SymbolGraphic::Rectangle { start, end, stroke_width_mm, fill } =>
                SpecSymbolGraphic::Rectangle {
                start: *start,
                end: *end,
                stroke_width_mm: *stroke_width_mm,
                fill: *fill,
            },
            SymbolGraphic::Polyline { points, stroke_width_mm, fill } =>
                SpecSymbolGraphic::Polyline {
                points: points@,
                stroke_width_mm: *stroke_width_mm,
                fill: *fill,
            },
            SymbolGraphic::Circle { center, radius_mm, stroke_width_mm, fill } =>
                SpecSymbolGraphic::Circle {
                center: *center,
                radius_mm: *radius_mm,
                stroke_width_mm: *stroke_width_mm,
                fill: *fill,
            },
            SymbolGraphic::Arc { start, mid, end, stroke_width_mm, fill } =>
                SpecSymbolGraphic::Arc {
                start: *start,
                mid: *mid,
                end: *end,
                stroke_width_mm: *stroke_width_mm,
                fill: *fill,
            },
        }
    }
}

impl View for SymbolPin {
    type V = SpecSymbolPin;

    open spec fn view(&self) -> SpecSymbolPin {
        SpecSymbolPin {
            number: self.number@,
            name: self.name@,
            electrical_type: self.electrical_type@,
            graphic_style: self.graphic_style@,
            position: self.position,
            rotation: self.rotation,
            length_mm: self.length_mm,
        }
    }
}

impl View for SymbolUnit {
    type V = SpecSymbolUnit;

    open spec fn view(&self) -> SpecSymbolUnit {
        SpecSymbolUnit {
            unit: self.unit,
            style: self.style,
            graphics: self.graphics@.map_values(|g: SymbolGraphic| g@),
            pins: self.pins@.map_values(|p: SymbolPin| p@),
        }
    }
}

impl View for SymbolDefinition {
    type V = SpecSymbolDefinition;

    open spec fn view(&self) -> SpecSymbolDefinition {
        SpecSymbolDefinition {
            library_id: self.library_id@,
            units: self.units@.map_values(|u: SymbolUnit| u@),
        }
    }
}

impl View for Symbol {
    type V = SpecSymbol;

    open spec fn view(&self) -> SpecSymbol {
        SpecSymbol {
            id: self.id@,
            reference: self.reference@,
            value: self.value@,
            library_id: self.library_id.deep_view(),
            footprint: self.footprint.deep_view(),
            unit: self.unit,
            position: self.position,
            rotation: self.rotation,
            mirror_x: self.mirror_x,
            mirror_y: self.mirror_y,
            source: self.source@,
        }
    }
}

impl View for Wire {
    type V = SpecWire;

    open spec fn view(&self) -> SpecWire {
        SpecWire { id: self.id@, points: self.points@, source: self.source@ }
    }
}

impl View for Junction {
    type V = SpecJunction;

    open spec fn view(&self) -> SpecJunction {
        SpecJunction { id: self.id@, position: self.position, source: self.source@ }
    }
}

impl View for Label {
    type V = SpecLabel;

    open spec fn view(&self) -> SpecLabel {
        SpecLabel {
            id: self.id@,
            name: self.name@,
            kind: self.kind,
            position: self.position,
            rotation: self.rotation,
            electrical_shape: self.electrical_shape.deep_view(),
            source: self.source@,
        }
    }
}

impl View for Net {
    type V = SpecNet;

    open spec fn view(&self) -> SpecNet {
        SpecNet { id: self.id@, name: self.name@ }
    }
}

impl View for Schematic {
    type V = SpecSchematic;

    open spec fn view(&self) -> SpecSchematic {
        SpecSchematic {
            symbol_definitions: self.symbol_definitions@.map_values(|d: SymbolDefinition| d@),
            symbols: self.symbols@.map_values(|s: Symbol| s@),
            wires: self.wires@.map_values(|w: Wire| w@),
            junctions: self.junctions@.map_values(|j: Junction| j@),
            labels: self.labels@.map_values(|l: Label| l@),
            nets: self.nets@.map_values(|n: Net| n@),
        }
    }
}

impl Schematic {
    pub fn empty() -> (schematic: Schematic)
        ensures
            schematic@.symbol_definitions.len() == 0,
            schematic@.symbols.len() == 0,
            schematic@.wires.len() == 0,
            schematic@.junctions.len() == 0,
            schematic@.labels.len() == 0,
            schematic@.nets.len() == 0,
    {
        Schematic {
            symbol_definitions: Vec::new(),
            symbols: Vec::new(),
            wires: Vec::new(),
            junctions: Vec::new(),
            labels: Vec::new(),
            nets: Vec::new(),
        }
    }
}

} // verus!
