//! Laws of the KiCad adapter on what each entry of a schematic is read as:
//! placed symbols, wires, junctions and labels, one per entry, in file order,
//! with the fields their entries give.

use vstd::prelude::*;

use super::entry_laws::lemma_converted;
use super::native::{or_empty, spec_native_id, spec_property};
use super::schematic::{
    spec_junction, spec_label, spec_schematic, spec_symbol, spec_to_u32, spec_wire,
};
use super::sexpr::{
    spec_argument, spec_child_number, spec_child_rotation, spec_child_text, spec_child_xy_points,
    spec_children, spec_head, spec_point, text_of, SpecSExpr,
};
use super::symbol::spec_definitions;
use crate::adapter::error::SpecAdapterError;
use crate::model::schematic::{
    Junction, LabelKind, SpecJunction, SpecSymbol, SpecWire, Symbol, Wire,
};

verus! {

/// The library identifier of a placed symbol: the text of its `lib_id`
/// entry, else the text of its first argument.
pub open spec fn library_id_read(v: SpecSExpr) -> Option<Seq<char>> {
    match spec_child_text(v, "lib_id"@) {
        Some(t) => Some(t),
        None => text_of(spec_argument(v, 0)),
    }
}

/// A placed symbol is read from a `symbol` entry that has a native
/// identifier and `at` coordinates, and only then. Its reference and value
/// are its `Reference` and `Value` properties (empty without them); its
/// library identifier as `library_id_read` says; its footprint its
/// `Footprint` property where that is not empty; its unit the number of its
/// `unit` entry, 1 without one; its position and rotation those of `at`; it
/// is mirrored about x exactly when its `mirror` entry says `x`, about y
/// exactly when it says `y`.
pub proof fn lemma_symbol_read(v: SpecSExpr, path: Seq<char>)
    ensures
        spec_symbol(v, path) is Ok <==> (spec_native_id(v) is Some && spec_point(v, "at"@) is Some),
        spec_native_id(v) is None ==> spec_symbol(v, path) matches Err(
            SpecAdapterError::MissingField(_),
        ),
        spec_symbol(v, path) matches Ok(s) ==> {
            &&& s.reference == or_empty(spec_property(v, "Reference"@))
            &&& s.value == or_empty(spec_property(v, "Value"@))
            &&& s.library_id == library_id_read(v)
            &&& (s.footprint is Some <==> (spec_property(v, "Footprint"@) is Some
                && spec_property(v, "Footprint"@)->0.len() > 0))
            &&& (s.footprint is Some ==> s.footprint == spec_property(v, "Footprint"@))
            &&& (spec_child_number(v, "unit"@) is None ==> s.unit == 1)
            &&& (spec_child_number(v, "unit"@) is Some ==> s.unit == spec_to_u32(
                spec_child_number(v, "unit"@)->0,
            ))
            &&& Some(s.position) == spec_point(v, "at"@)
            &&& s.rotation.degrees == spec_child_rotation(v, "at"@)
            &&& (s.mirror_x <==> spec_child_text(v, "mirror"@) == Some("x"@))
            &&& (s.mirror_y <==> spec_child_text(v, "mirror"@) == Some("y"@))
            &&& s.id == "kicad:"@ + spec_native_id(v)->0
            &&& s.source.file_path == path
            &&& s.source.native_id == spec_native_id(v)
        },
{
}

/// A wire is read from a `wire` entry that has a native identifier and at
/// least two `xy` points under `pts`, and only then; its points are those.
pub proof fn lemma_wire_read(v: SpecSExpr, path: Seq<char>)
    ensures
        spec_wire(v, path) is Ok <==> (spec_native_id(v) is Some && spec_child_xy_points(
            v,
            "pts"@,
        ).len() >= 2),
        spec_wire(v, path) matches Ok(w) ==> w.points == spec_child_xy_points(v, "pts"@) && w.id
            == "kicad:"@ + spec_native_id(v)->0,
{
}

/// A junction is read from a `junction` entry that has a native identifier
/// and `at` coordinates, and only then; it stands at those coordinates.
pub proof fn lemma_junction_read(v: SpecSExpr, path: Seq<char>)
    ensures
        spec_junction(v, path) is Ok <==> (spec_native_id(v) is Some && spec_point(v, "at"@)
            is Some),
        spec_junction(v, path) matches Ok(j) ==> Some(j.position) == spec_point(v, "at"@) && j.id
            == "kicad:"@ + spec_native_id(v)->0,
{
}

/// A label is read from a label entry that has a native identifier and `at`
/// coordinates, and only then. Its name is the text of the entry's first
/// argument, its kind the one asked for, its position and rotation those of
/// `at`, its electrical shape the text of its `shape` entry.
pub proof fn lemma_label_read(v: SpecSExpr, path: Seq<char>, kind: LabelKind)
    ensures
        spec_label(v, path, kind) is Ok <==> (spec_native_id(v) is Some && spec_point(v, "at"@)
            is Some),
        spec_label(v, path, kind) matches Ok(l) ==> {
            &&& l.name == or_empty(text_of(spec_argument(v, 0)))
            &&& l.kind == kind
            &&& Some(l.position) == spec_point(v, "at"@)
            &&& l.rotation.degrees == spec_child_rotation(v, "at"@)
            &&& l.electrical_shape == spec_child_text(v, "shape"@)
            &&& l.id == "kicad:"@ + spec_native_id(v)->0
        },
{
}

/// A schematic is read from a `kicad_sch` tree, and is refused as of another
/// format otherwise. Its placed symbols, wires and junctions come one per
/// `symbol`, `wire` and `junction` entry, in file order, each read as the
/// laws above say; its symbol definitions are those of its `lib_symbols`
/// entry; it lists no nets.
pub proof fn lemma_schematic_read(root: SpecSExpr, path: Seq<char>)
    ensures
        spec_head(root) != Some("kicad_sch"@) ==> spec_schematic(root, path) matches Err(
            SpecAdapterError::UnsupportedFormat(_),
        ),
        spec_schematic(root, path) matches Ok(s) ==> {
            &&& s.symbols.len() == spec_children(root, "symbol"@).len()
            &&& forall|i: int|
                0 <= i < s.symbols.len() ==> spec_symbol(spec_children(root, "symbol"@)[i], path)
                    == Ok::<SpecSymbol, SpecAdapterError>(#[trigger] s.symbols[i])
            &&& s.wires.len() == spec_children(root, "wire"@).len()
            &&& forall|i: int|
                0 <= i < s.wires.len() ==> spec_wire(spec_children(root, "wire"@)[i], path) == Ok::<
                    SpecWire,
                    SpecAdapterError,
                >(#[trigger] s.wires[i])
            &&& s.junctions.len() == spec_children(root, "junction"@).len()
            &&& forall|i: int|
                0 <= i < s.junctions.len() ==> spec_junction(
                    spec_children(root, "junction"@)[i],
                    path,
                ) == Ok::<SpecJunction, SpecAdapterError>(#[trigger] s.junctions[i])
            &&& s.symbol_definitions == spec_definitions(root)
            &&& s.nets.len() == 0
        },
{
    lemma_converted::<Symbol>(spec_children(root, "symbol"@), path, seq![]);
    lemma_converted::<Wire>(spec_children(root, "wire"@), path, seq![]);
    lemma_converted::<Junction>(spec_children(root, "junction"@), path, seq![]);
}

} // verus!
