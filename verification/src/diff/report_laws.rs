//! Laws of the report on a pair of objects: the report is unchanged exactly
//! when the two objects agree on every compared attribute, and each attribute
//! on which they differ is listed as a field change with its two values.

use vstd::prelude::*;

use super::objects::Comparable;
use super::matcher::MatchedIndex;
use super::pcb::{pad_display, pad_entry_reports};
use super::types::{
    field_check, same_edge, same_value, ChangeKind, MatchMethod, SpecFieldChange, SpecFieldValue,
    SpecObjectChange,
};
use crate::model::common::{same_optional_real, same_points};
use crate::model::pcb::{
    BoardEdge, Footprint, Net as PcbNet, SpecBoardEdge, SpecFootprint, SpecNet as SpecPcbNet,
    SpecTrack, SpecVia, Track, Via,
};
use crate::model::schematic::{
    Junction, Label, Net as SchematicNet, SpecJunction, SpecLabel, SpecNet as SpecSchematicNet,
    SpecSymbol, SpecWire, Symbol, Wire,
};

verus! {

/// `fields` lists a change of the field `name` from `before` to `after`.
pub open spec fn lists_change(
    fields: Seq<SpecFieldChange>,
    name: Seq<char>,
    before: SpecFieldValue,
    after: SpecFieldValue,
) -> bool {
    exists|k: int|
        0 <= k < fields.len() && #[trigger] fields[k] == (SpecFieldChange {
            field: name,
            before,
            after,
        })
}

proof fn lemma_field_check_facts()
    ensures
        forall|name: Seq<char>, a: SpecFieldValue, b: SpecFieldValue|
            (#[trigger] field_check(name, a, b)).len() == 0 <==> same_value(a, b),
        forall|name: Seq<char>, a: SpecFieldValue, b: SpecFieldValue|
            !same_value(a, b) ==> lists_change(#[trigger] field_check(name, a, b), name, a, b),
        forall|
            x: Seq<SpecFieldChange>,
            y: Seq<SpecFieldChange>,
            name: Seq<char>,
            a: SpecFieldValue,
            b: SpecFieldValue,
        |
            lists_change(x, name, a, b) || lists_change(y, name, a, b) ==> #[trigger] lists_change(
                x + y,
                name,
                a,
                b,
            ),
{
    assert forall|name: Seq<char>, a: SpecFieldValue, b: SpecFieldValue|
        !same_value(a, b) implies lists_change(#[trigger] field_check(name, a, b), name, a, b) by {
        assert(field_check(name, a, b)[0] == SpecFieldChange { field: name, before: a, after: b });
    }
    assert forall|
        x: Seq<SpecFieldChange>,
        y: Seq<SpecFieldChange>,
        name: Seq<char>,
        a: SpecFieldValue,
        b: SpecFieldValue,
    |
        lists_change(x, name, a, b) || lists_change(y, name, a, b) implies #[trigger] lists_change(
        x + y,
        name,
        a,
        b,
    ) by {
        let c = SpecFieldChange { field: name, before: a, after: b };
        if lists_change(x, name, a, b) {
            let k = choose|k: int| 0 <= k < x.len() && #[trigger] x[k] == c;
            assert((x + y)[k] == c);
        } else {
            let k = choose|k: int| 0 <= k < y.len() && #[trigger] y[k] == c;
            assert((x + y)[x.len() + k] == c);
        }
    }
}

/// A pair of tracks is reported as one `pcb-track` report of the two
/// identifiers and the method they were matched by. It is unchanged exactly
/// when the tracks agree on start, end, width, layer and net; each of these on
/// which they differ is listed as a field change with both values.
pub proof fn lemma_track_report(o: SpecTrack, n: SpecTrack, m: MatchMethod)
    ensures
        <Track as Comparable>::spec_pair_reports(o, n, m).len() == 1,
        <Track as Comparable>::spec_pair_reports(o, n, m)[0].object_type == "pcb-track"@,
        <Track as Comparable>::spec_pair_reports(o, n, m)[0].before_id == Some(o.id),
        <Track as Comparable>::spec_pair_reports(o, n, m)[0].after_id == Some(n.id),
        <Track as Comparable>::spec_pair_reports(o, n, m)[0].match_method == Some(m),
        (<Track as Comparable>::spec_pair_reports(o, n, m)[0].kind == ChangeKind::Unchanged) <==> (
        o.start.same(n.start) && o.end.same(n.end) && o.width_mm.same(n.width_mm) && o.layer
            == n.layer && o.net_id == n.net_id),
        !o.start.same(n.start) ==> lists_change(
            <Track as Comparable>::spec_pair_reports(o, n, m)[0].fields,
            "start"@,
            SpecFieldValue::Position(o.start),
            SpecFieldValue::Position(n.start),
        ),
        !o.end.same(n.end) ==> lists_change(
            <Track as Comparable>::spec_pair_reports(o, n, m)[0].fields,
            "end"@,
            SpecFieldValue::Position(o.end),
            SpecFieldValue::Position(n.end),
        ),
        !o.width_mm.same(n.width_mm) ==> lists_change(
            <Track as Comparable>::spec_pair_reports(o, n, m)[0].fields,
            "width-mm"@,
            SpecFieldValue::Length(o.width_mm),
            SpecFieldValue::Length(n.width_mm),
        ),
        o.layer != n.layer ==> lists_change(
            <Track as Comparable>::spec_pair_reports(o, n, m)[0].fields,
            "layer"@,
            SpecFieldValue::Text(o.layer),
            SpecFieldValue::Text(n.layer),
        ),
        o.net_id != n.net_id ==> lists_change(
            <Track as Comparable>::spec_pair_reports(o, n, m)[0].fields,
            "net-id"@,
            SpecFieldValue::OptionalId(o.net_id),
            SpecFieldValue::OptionalId(n.net_id),
        ),
{
    lemma_field_check_facts();
}


/// A pair of symbols is reported first by one `schematic-symbol` report of the two
/// identifiers and the method they were matched by. It is unchanged exactly
/// when the two agree on reference, value, library id, footprint, unit, position, rotation and mirror flags; each of these on which they differ is listed
/// as a field change with both values.
pub proof fn lemma_symbol_report(o: SpecSymbol, n: SpecSymbol, m: MatchMethod)
    ensures
        <Symbol as Comparable>::spec_pair_reports(o, n, m).len() == 1,
        <Symbol as Comparable>::spec_pair_reports(o, n, m)[0].object_type == "schematic-symbol"@,
        <Symbol as Comparable>::spec_pair_reports(o, n, m)[0].before_id == Some(o.id),
        <Symbol as Comparable>::spec_pair_reports(o, n, m)[0].after_id == Some(n.id),
        <Symbol as Comparable>::spec_pair_reports(o, n, m)[0].match_method == Some(m),
        (<Symbol as Comparable>::spec_pair_reports(o, n, m)[0].kind == ChangeKind::Unchanged) <==> ((o.reference == n.reference) && (o.value == n.value) && (o.library_id == n.library_id) && (o.footprint == n.footprint) && (o.unit == n.unit) && (o.position.same(n.position)) && (o.rotation.same(n.rotation)) && (o.mirror_x == n.mirror_x) && (o.mirror_y == n.mirror_y)),
        !(o.reference == n.reference) ==> lists_change(<Symbol as Comparable>::spec_pair_reports(o, n, m)[0].fields, "reference"@, SpecFieldValue::Text(o.reference), SpecFieldValue::Text(n.reference)),
        !(o.value == n.value) ==> lists_change(<Symbol as Comparable>::spec_pair_reports(o, n, m)[0].fields, "value"@, SpecFieldValue::Text(o.value), SpecFieldValue::Text(n.value)),
        !(o.library_id == n.library_id) ==> lists_change(<Symbol as Comparable>::spec_pair_reports(o, n, m)[0].fields, "library-id"@, SpecFieldValue::OptionalText(o.library_id), SpecFieldValue::OptionalText(n.library_id)),
        !(o.footprint == n.footprint) ==> lists_change(<Symbol as Comparable>::spec_pair_reports(o, n, m)[0].fields, "footprint"@, SpecFieldValue::OptionalText(o.footprint), SpecFieldValue::OptionalText(n.footprint)),
        !(o.unit == n.unit) ==> lists_change(<Symbol as Comparable>::spec_pair_reports(o, n, m)[0].fields, "unit"@, SpecFieldValue::Count(o.unit), SpecFieldValue::Count(n.unit)),
        !(o.position.same(n.position)) ==> lists_change(<Symbol as Comparable>::spec_pair_reports(o, n, m)[0].fields, "position"@, SpecFieldValue::Position(o.position), SpecFieldValue::Position(n.position)),
        !(o.rotation.same(n.rotation)) ==> lists_change(<Symbol as Comparable>::spec_pair_reports(o, n, m)[0].fields, "rotation"@, SpecFieldValue::Angle(o.rotation), SpecFieldValue::Angle(n.rotation)),
        !(o.mirror_x == n.mirror_x) ==> lists_change(<Symbol as Comparable>::spec_pair_reports(o, n, m)[0].fields, "mirror-x"@, SpecFieldValue::Flag(o.mirror_x), SpecFieldValue::Flag(n.mirror_x)),
        !(o.mirror_y == n.mirror_y) ==> lists_change(<Symbol as Comparable>::spec_pair_reports(o, n, m)[0].fields, "mirror-y"@, SpecFieldValue::Flag(o.mirror_y), SpecFieldValue::Flag(n.mirror_y)),
{
    lemma_field_check_facts();
}

/// A pair of wires is reported first by one `schematic-wire` report of the two
/// identifiers and the method they were matched by. It is unchanged exactly
/// when the two agree on points; each of these on which they differ is listed
/// as a field change with both values.
pub proof fn lemma_wire_report(o: SpecWire, n: SpecWire, m: MatchMethod)
    ensures
        <Wire as Comparable>::spec_pair_reports(o, n, m).len() == 1,
        <Wire as Comparable>::spec_pair_reports(o, n, m)[0].object_type == "schematic-wire"@,
        <Wire as Comparable>::spec_pair_reports(o, n, m)[0].before_id == Some(o.id),
        <Wire as Comparable>::spec_pair_reports(o, n, m)[0].after_id == Some(n.id),
        <Wire as Comparable>::spec_pair_reports(o, n, m)[0].match_method == Some(m),
        (<Wire as Comparable>::spec_pair_reports(o, n, m)[0].kind == ChangeKind::Unchanged) <==> ((same_points(o.points, n.points))),
        !(same_points(o.points, n.points)) ==> lists_change(<Wire as Comparable>::spec_pair_reports(o, n, m)[0].fields, "points"@, SpecFieldValue::Points(o.points), SpecFieldValue::Points(n.points)),
{
    lemma_field_check_facts();
}

/// A pair of junctions is reported first by one `schematic-junction` report of the two
/// identifiers and the method they were matched by. It is unchanged exactly
/// when the two agree on position; each of these on which they differ is listed
/// as a field change with both values.
pub proof fn lemma_junction_report(o: SpecJunction, n: SpecJunction, m: MatchMethod)
    ensures
        <Junction as Comparable>::spec_pair_reports(o, n, m).len() == 1,
        <Junction as Comparable>::spec_pair_reports(o, n, m)[0].object_type == "schematic-junction"@,
        <Junction as Comparable>::spec_pair_reports(o, n, m)[0].before_id == Some(o.id),
        <Junction as Comparable>::spec_pair_reports(o, n, m)[0].after_id == Some(n.id),
        <Junction as Comparable>::spec_pair_reports(o, n, m)[0].match_method == Some(m),
        (<Junction as Comparable>::spec_pair_reports(o, n, m)[0].kind == ChangeKind::Unchanged) <==> ((o.position.same(n.position))),
        !(o.position.same(n.position)) ==> lists_change(<Junction as Comparable>::spec_pair_reports(o, n, m)[0].fields, "position"@, SpecFieldValue::Position(o.position), SpecFieldValue::Position(n.position)),
{
    lemma_field_check_facts();
}

/// A pair of labels is reported first by one `schematic-label` report of the two
/// identifiers and the method they were matched by. It is unchanged exactly
/// when the two agree on name, kind, position, rotation and electrical shape; each of these on which they differ is listed
/// as a field change with both values.
pub proof fn lemma_label_report(o: SpecLabel, n: SpecLabel, m: MatchMethod)
    ensures
        <Label as Comparable>::spec_pair_reports(o, n, m).len() == 1,
        <Label as Comparable>::spec_pair_reports(o, n, m)[0].object_type == "schematic-label"@,
        <Label as Comparable>::spec_pair_reports(o, n, m)[0].before_id == Some(o.id),
        <Label as Comparable>::spec_pair_reports(o, n, m)[0].after_id == Some(n.id),
        <Label as Comparable>::spec_pair_reports(o, n, m)[0].match_method == Some(m),
        (<Label as Comparable>::spec_pair_reports(o, n, m)[0].kind == ChangeKind::Unchanged) <==> ((o.name == n.name) && (o.kind == n.kind) && (o.position.same(n.position)) && (o.rotation.same(n.rotation)) && (o.electrical_shape == n.electrical_shape)),
        !(o.name == n.name) ==> lists_change(<Label as Comparable>::spec_pair_reports(o, n, m)[0].fields, "name"@, SpecFieldValue::Text(o.name), SpecFieldValue::Text(n.name)),
        !(o.kind == n.kind) ==> lists_change(<Label as Comparable>::spec_pair_reports(o, n, m)[0].fields, "kind"@, SpecFieldValue::Label(o.kind), SpecFieldValue::Label(n.kind)),
        !(o.position.same(n.position)) ==> lists_change(<Label as Comparable>::spec_pair_reports(o, n, m)[0].fields, "position"@, SpecFieldValue::Position(o.position), SpecFieldValue::Position(n.position)),
        !(o.rotation.same(n.rotation)) ==> lists_change(<Label as Comparable>::spec_pair_reports(o, n, m)[0].fields, "rotation"@, SpecFieldValue::Angle(o.rotation), SpecFieldValue::Angle(n.rotation)),
        !(o.electrical_shape == n.electrical_shape) ==> lists_change(<Label as Comparable>::spec_pair_reports(o, n, m)[0].fields, "electrical-shape"@, SpecFieldValue::OptionalText(o.electrical_shape), SpecFieldValue::OptionalText(n.electrical_shape)),
{
    lemma_field_check_facts();
}

/// A pair of schematic nets is reported first by one `schematic-net` report of the two
/// identifiers and the method they were matched by. It is unchanged exactly
/// when the two agree on name; each of these on which they differ is listed
/// as a field change with both values.
pub proof fn lemma_schematic_net_report(o: SpecSchematicNet, n: SpecSchematicNet, m: MatchMethod)
    ensures
        <SchematicNet as Comparable>::spec_pair_reports(o, n, m).len() == 1,
        <SchematicNet as Comparable>::spec_pair_reports(o, n, m)[0].object_type == "schematic-net"@,
        <SchematicNet as Comparable>::spec_pair_reports(o, n, m)[0].before_id == Some(o.id),
        <SchematicNet as Comparable>::spec_pair_reports(o, n, m)[0].after_id == Some(n.id),
        <SchematicNet as Comparable>::spec_pair_reports(o, n, m)[0].match_method == Some(m),
        (<SchematicNet as Comparable>::spec_pair_reports(o, n, m)[0].kind == ChangeKind::Unchanged) <==> ((o.name == n.name)),
        !(o.name == n.name) ==> lists_change(<SchematicNet as Comparable>::spec_pair_reports(o, n, m)[0].fields, "name"@, SpecFieldValue::Text(o.name), SpecFieldValue::Text(n.name)),
{
    lemma_field_check_facts();
}

/// A pair of footprints is reported first by one `pcb-footprint` report of the two
/// identifiers and the method they were matched by. It is unchanged exactly
/// when the two agree on reference, value, library link, position, rotation and layer; each of these on which they differ is listed
/// as a field change with both values.
pub proof fn lemma_footprint_report(o: SpecFootprint, n: SpecFootprint, m: MatchMethod)
    ensures
        <Footprint as Comparable>::spec_pair_reports(o, n, m).len() >= 1,
        <Footprint as Comparable>::spec_pair_reports(o, n, m)[0].object_type == "pcb-footprint"@,
        <Footprint as Comparable>::spec_pair_reports(o, n, m)[0].before_id == Some(o.id),
        <Footprint as Comparable>::spec_pair_reports(o, n, m)[0].after_id == Some(n.id),
        <Footprint as Comparable>::spec_pair_reports(o, n, m)[0].match_method == Some(m),
        (<Footprint as Comparable>::spec_pair_reports(o, n, m)[0].kind == ChangeKind::Unchanged) <==> ((o.reference == n.reference) && (o.value == n.value) && (o.library_link == n.library_link) && (o.position.same(n.position)) && (o.rotation.same(n.rotation)) && (o.layer == n.layer)),
        !(o.reference == n.reference) ==> lists_change(<Footprint as Comparable>::spec_pair_reports(o, n, m)[0].fields, "reference"@, SpecFieldValue::Text(o.reference), SpecFieldValue::Text(n.reference)),
        !(o.value == n.value) ==> lists_change(<Footprint as Comparable>::spec_pair_reports(o, n, m)[0].fields, "value"@, SpecFieldValue::Text(o.value), SpecFieldValue::Text(n.value)),
        !(o.library_link == n.library_link) ==> lists_change(<Footprint as Comparable>::spec_pair_reports(o, n, m)[0].fields, "library-link"@, SpecFieldValue::OptionalText(o.library_link), SpecFieldValue::OptionalText(n.library_link)),
        !(o.position.same(n.position)) ==> lists_change(<Footprint as Comparable>::spec_pair_reports(o, n, m)[0].fields, "position"@, SpecFieldValue::Position(o.position), SpecFieldValue::Position(n.position)),
        !(o.rotation.same(n.rotation)) ==> lists_change(<Footprint as Comparable>::spec_pair_reports(o, n, m)[0].fields, "rotation"@, SpecFieldValue::Angle(o.rotation), SpecFieldValue::Angle(n.rotation)),
        !(o.layer == n.layer) ==> lists_change(<Footprint as Comparable>::spec_pair_reports(o, n, m)[0].fields, "layer"@, SpecFieldValue::Text(o.layer), SpecFieldValue::Text(n.layer)),
{
    lemma_field_check_facts();
}

/// A pair of vias is reported first by one `pcb-via` report of the two
/// identifiers and the method they were matched by. It is unchanged exactly
/// when the two agree on position, diameter, drill and net; each of these on which they differ is listed
/// as a field change with both values.
pub proof fn lemma_via_report(o: SpecVia, n: SpecVia, m: MatchMethod)
    ensures
        <Via as Comparable>::spec_pair_reports(o, n, m).len() == 1,
        <Via as Comparable>::spec_pair_reports(o, n, m)[0].object_type == "pcb-via"@,
        <Via as Comparable>::spec_pair_reports(o, n, m)[0].before_id == Some(o.id),
        <Via as Comparable>::spec_pair_reports(o, n, m)[0].after_id == Some(n.id),
        <Via as Comparable>::spec_pair_reports(o, n, m)[0].match_method == Some(m),
        (<Via as Comparable>::spec_pair_reports(o, n, m)[0].kind == ChangeKind::Unchanged) <==> ((o.position.same(n.position)) && (o.diameter_mm.same(n.diameter_mm)) && (o.drill_mm.same(n.drill_mm)) && (o.net_id == n.net_id)),
        !(o.position.same(n.position)) ==> lists_change(<Via as Comparable>::spec_pair_reports(o, n, m)[0].fields, "position"@, SpecFieldValue::Position(o.position), SpecFieldValue::Position(n.position)),
        !(o.diameter_mm.same(n.diameter_mm)) ==> lists_change(<Via as Comparable>::spec_pair_reports(o, n, m)[0].fields, "diameter-mm"@, SpecFieldValue::Length(o.diameter_mm), SpecFieldValue::Length(n.diameter_mm)),
        !(o.drill_mm.same(n.drill_mm)) ==> lists_change(<Via as Comparable>::spec_pair_reports(o, n, m)[0].fields, "drill-mm"@, SpecFieldValue::Length(o.drill_mm), SpecFieldValue::Length(n.drill_mm)),
        !(o.net_id == n.net_id) ==> lists_change(<Via as Comparable>::spec_pair_reports(o, n, m)[0].fields, "net-id"@, SpecFieldValue::OptionalId(o.net_id), SpecFieldValue::OptionalId(n.net_id)),
{
    lemma_field_check_facts();
}

/// A pair of board nets is reported first by one `pcb-net` report of the two
/// identifiers and the method they were matched by. It is unchanged exactly
/// when the two agree on name; each of these on which they differ is listed
/// as a field change with both values.
pub proof fn lemma_pcb_net_report(o: SpecPcbNet, n: SpecPcbNet, m: MatchMethod)
    ensures
        <PcbNet as Comparable>::spec_pair_reports(o, n, m).len() == 1,
        <PcbNet as Comparable>::spec_pair_reports(o, n, m)[0].object_type == "pcb-net"@,
        <PcbNet as Comparable>::spec_pair_reports(o, n, m)[0].before_id == Some(o.id),
        <PcbNet as Comparable>::spec_pair_reports(o, n, m)[0].after_id == Some(n.id),
        <PcbNet as Comparable>::spec_pair_reports(o, n, m)[0].match_method == Some(m),
        (<PcbNet as Comparable>::spec_pair_reports(o, n, m)[0].kind == ChangeKind::Unchanged) <==> ((o.name == n.name)),
        !(o.name == n.name) ==> lists_change(<PcbNet as Comparable>::spec_pair_reports(o, n, m)[0].fields, "name"@, SpecFieldValue::Text(o.name), SpecFieldValue::Text(n.name)),
{
    lemma_field_check_facts();
}


/// A pair of pads, the `i`-th of footprint `bf` and the `j`-th of footprint
/// `af`, is reported by one `pcb-pad` report of the two identifiers and the
/// method they were matched by. It is unchanged exactly when the two pads
/// agree on number, kind, shape, position, rotation, size, drill, layers and
/// net; each of these on which they differ is listed as a field change with
/// both values.
pub proof fn lemma_pad_report(bf: SpecFootprint, af: SpecFootprint, i: usize, j: usize, m: MatchMethod)
    requires
        i < bf.pads.len(),
        j < af.pads.len(),
    ensures
        pad_entry_reports(bf, af, MatchedIndex { before: Some(i), after: Some(j), method: Some(m) }).len() == 1,
        pad_entry_reports(bf, af, MatchedIndex { before: Some(i), after: Some(j), method: Some(m) })[0].object_type == "pcb-pad"@,
        pad_entry_reports(bf, af, MatchedIndex { before: Some(i), after: Some(j), method: Some(m) })[0].before_id == Some(bf.pads[i as int].id),
        pad_entry_reports(bf, af, MatchedIndex { before: Some(i), after: Some(j), method: Some(m) })[0].after_id == Some(af.pads[j as int].id),
        pad_entry_reports(bf, af, MatchedIndex { before: Some(i), after: Some(j), method: Some(m) })[0].match_method == Some(m),
        (pad_entry_reports(bf, af, MatchedIndex { before: Some(i), after: Some(j), method: Some(m) })[0].kind == ChangeKind::Unchanged) <==> ((bf.pads[i as int].number == af.pads[j as int].number) && (bf.pads[i as int].kind == af.pads[j as int].kind) && (bf.pads[i as int].shape == af.pads[j as int].shape) && (bf.pads[i as int].position.same(af.pads[j as int].position)) && (bf.pads[i as int].rotation.same(af.pads[j as int].rotation)) && (bf.pads[i as int].size.same(af.pads[j as int].size)) && (same_optional_real(bf.pads[i as int].drill_mm, af.pads[j as int].drill_mm)) && (bf.pads[i as int].layers == af.pads[j as int].layers) && (bf.pads[i as int].net_id == af.pads[j as int].net_id)),
        !(bf.pads[i as int].number == af.pads[j as int].number) ==> lists_change(pad_entry_reports(bf, af, MatchedIndex { before: Some(i), after: Some(j), method: Some(m) })[0].fields, "number"@, SpecFieldValue::Text(bf.pads[i as int].number), SpecFieldValue::Text(af.pads[j as int].number)),
        !(bf.pads[i as int].kind == af.pads[j as int].kind) ==> lists_change(pad_entry_reports(bf, af, MatchedIndex { before: Some(i), after: Some(j), method: Some(m) })[0].fields, "kind"@, SpecFieldValue::Text(bf.pads[i as int].kind), SpecFieldValue::Text(af.pads[j as int].kind)),
        !(bf.pads[i as int].shape == af.pads[j as int].shape) ==> lists_change(pad_entry_reports(bf, af, MatchedIndex { before: Some(i), after: Some(j), method: Some(m) })[0].fields, "shape"@, SpecFieldValue::Text(bf.pads[i as int].shape), SpecFieldValue::Text(af.pads[j as int].shape)),
        !(bf.pads[i as int].position.same(af.pads[j as int].position)) ==> lists_change(pad_entry_reports(bf, af, MatchedIndex { before: Some(i), after: Some(j), method: Some(m) })[0].fields, "position"@, SpecFieldValue::Position(bf.pads[i as int].position), SpecFieldValue::Position(af.pads[j as int].position)),
        !(bf.pads[i as int].rotation.same(af.pads[j as int].rotation)) ==> lists_change(pad_entry_reports(bf, af, MatchedIndex { before: Some(i), after: Some(j), method: Some(m) })[0].fields, "rotation"@, SpecFieldValue::Angle(bf.pads[i as int].rotation), SpecFieldValue::Angle(af.pads[j as int].rotation)),
        !(bf.pads[i as int].size.same(af.pads[j as int].size)) ==> lists_change(pad_entry_reports(bf, af, MatchedIndex { before: Some(i), after: Some(j), method: Some(m) })[0].fields, "size"@, SpecFieldValue::Extent(bf.pads[i as int].size), SpecFieldValue::Extent(af.pads[j as int].size)),
        !(same_optional_real(bf.pads[i as int].drill_mm, af.pads[j as int].drill_mm)) ==> lists_change(pad_entry_reports(bf, af, MatchedIndex { before: Some(i), after: Some(j), method: Some(m) })[0].fields, "drill-mm"@, SpecFieldValue::OptionalLength(bf.pads[i as int].drill_mm), SpecFieldValue::OptionalLength(af.pads[j as int].drill_mm)),
        !(bf.pads[i as int].layers == af.pads[j as int].layers) ==> lists_change(pad_entry_reports(bf, af, MatchedIndex { before: Some(i), after: Some(j), method: Some(m) })[0].fields, "layers"@, SpecFieldValue::Texts(bf.pads[i as int].layers), SpecFieldValue::Texts(af.pads[j as int].layers)),
        !(bf.pads[i as int].net_id == af.pads[j as int].net_id) ==> lists_change(pad_entry_reports(bf, af, MatchedIndex { before: Some(i), after: Some(j), method: Some(m) })[0].fields, "net-id"@, SpecFieldValue::OptionalId(bf.pads[i as int].net_id), SpecFieldValue::OptionalId(af.pads[j as int].net_id)),
{
    lemma_field_check_facts();
}

/// A pair of board edges is reported by one `pcb-board-edge` report of the
/// two identifiers and the method they were matched by. It is unchanged
/// exactly when the two edges are of the same kind with the same identifier,
/// source and points; otherwise the report lists a `geometry` change with both
/// edges.
pub proof fn lemma_board_edge_report(o: SpecBoardEdge, n: SpecBoardEdge, m: MatchMethod)
    ensures
        <BoardEdge as Comparable>::spec_pair_reports(o, n, m).len() == 1,
        <BoardEdge as Comparable>::spec_pair_reports(o, n, m)[0].object_type == "pcb-board-edge"@,
        <BoardEdge as Comparable>::spec_pair_reports(o, n, m)[0].before_id == Some(o.id()),
        <BoardEdge as Comparable>::spec_pair_reports(o, n, m)[0].after_id == Some(n.id()),
        <BoardEdge as Comparable>::spec_pair_reports(o, n, m)[0].match_method == Some(m),
        (<BoardEdge as Comparable>::spec_pair_reports(o, n, m)[0].kind == ChangeKind::Unchanged)
            <==> same_edge(o, n),
        !same_edge(o, n) ==> lists_change(
            <BoardEdge as Comparable>::spec_pair_reports(o, n, m)[0].fields,
            "geometry"@,
            SpecFieldValue::Edge(o),
            SpecFieldValue::Edge(n),
        ),
{
    lemma_field_check_facts();
}

/// `c` reports the object `id` of type `object_type`, shown as `display`, as
/// removed: it has no partner, no match method and no field change.
pub open spec fn reports_removal(
    c: SpecObjectChange,
    object_type: Seq<char>,
    display: Option<Seq<char>>,
    id: Seq<char>,
) -> bool {
    &&& c.object_type == object_type
    &&& c.display_name == display
    &&& c.kind == ChangeKind::Removed
    &&& c.before_id == Some(id)
    &&& c.after_id is None
    &&& c.match_method is None
    &&& c.fields.len() == 0
}

/// `c` reports the object `id` of type `object_type`, shown as `display`, as
/// added: it has no partner, no match method and no field change.
pub open spec fn reports_addition(
    c: SpecObjectChange,
    object_type: Seq<char>,
    display: Option<Seq<char>>,
    id: Seq<char>,
) -> bool {
    &&& c.object_type == object_type
    &&& c.display_name == display
    &&& c.kind == ChangeKind::Added
    &&& c.before_id is None
    &&& c.after_id == Some(id)
    &&& c.match_method is None
    &&& c.fields.len() == 0
}

/// A text, or nothing when it is empty.
pub open spec fn shown(t: Seq<char>) -> Option<Seq<char>> {
    if t.len() > 0 {
        Some(t)
    } else {
        None
    }
}

/// Objects of a board are matched by identifier first; footprints then by
/// their reference and nets by their name, where those are not empty; tracks,
/// vias and board edges by identifier only.
pub proof fn lemma_pcb_match_keys(
    f: SpecFootprint,
    t: SpecTrack,
    v: SpecVia,
    n: SpecPcbNet,
    e: SpecBoardEdge,
)
    ensures
        <Footprint as Comparable>::spec_key(f).primary == f.id,
        <Footprint as Comparable>::spec_key(f).fallback == shown(f.reference),
        <Track as Comparable>::spec_key(t).primary == t.id,
        <Track as Comparable>::spec_key(t).fallback is None,
        <Via as Comparable>::spec_key(v).primary == v.id,
        <Via as Comparable>::spec_key(v).fallback is None,
        <PcbNet as Comparable>::spec_key(n).primary == n.id,
        <PcbNet as Comparable>::spec_key(n).fallback == shown(n.name),
        <BoardEdge as Comparable>::spec_key(e).primary == e.id(),
        <BoardEdge as Comparable>::spec_key(e).fallback is None,
{
}

/// Objects of a schematic are matched by identifier first; placed symbols
/// then by their reference, labels and nets by their name, where those are
/// not empty; wires and junctions by identifier only.
pub proof fn lemma_schematic_match_keys(
    s: SpecSymbol,
    w: SpecWire,
    j: SpecJunction,
    l: SpecLabel,
    n: SpecSchematicNet,
)
    ensures
        <Symbol as Comparable>::spec_key(s).primary == s.id,
        <Symbol as Comparable>::spec_key(s).fallback == shown(s.reference),
        <Wire as Comparable>::spec_key(w).primary == w.id,
        <Wire as Comparable>::spec_key(w).fallback is None,
        <Junction as Comparable>::spec_key(j).primary == j.id,
        <Junction as Comparable>::spec_key(j).fallback is None,
        <Label as Comparable>::spec_key(l).primary == l.id,
        <Label as Comparable>::spec_key(l).fallback == shown(l.name),
        <SchematicNet as Comparable>::spec_key(n).primary == n.id,
        <SchematicNet as Comparable>::spec_key(n).fallback == shown(n.name),
{
}

/// A footprint without partner is reported removed (added), shown by its
/// reference, followed by one removed (added) `pcb-pad` report per pad, in
/// order, each shown by the footprint's reference and the pad's number.
pub proof fn lemma_footprint_lone_reports(f: SpecFootprint)
    ensures
        <Footprint as Comparable>::spec_removed_reports(f).len() == 1 + f.pads.len(),
        reports_removal(
            <Footprint as Comparable>::spec_removed_reports(f)[0],
            "pcb-footprint"@,
            shown(f.reference),
            f.id,
        ),
        forall|k: int|
            0 <= k < f.pads.len() ==> reports_removal(
                #[trigger] <Footprint as Comparable>::spec_removed_reports(f)[1 + k],
                "pcb-pad"@,
                pad_display(f.reference, f.pads[k].number),
                f.pads[k].id,
            ),
        <Footprint as Comparable>::spec_added_reports(f).len() == 1 + f.pads.len(),
        reports_addition(
            <Footprint as Comparable>::spec_added_reports(f)[0],
            "pcb-footprint"@,
            shown(f.reference),
            f.id,
        ),
        forall|k: int|
            0 <= k < f.pads.len() ==> reports_addition(
                #[trigger] <Footprint as Comparable>::spec_added_reports(f)[1 + k],
                "pcb-pad"@,
                pad_display(f.reference, f.pads[k].number),
                f.pads[k].id,
            ),
{
}

/// A track, via, net or board edge without partner is reported by one
/// removed (added) report of its type.
pub proof fn lemma_pcb_lone_reports(t: SpecTrack, v: SpecVia, n: SpecPcbNet, e: SpecBoardEdge)
    ensures
        <Track as Comparable>::spec_removed_reports(t).len() == 1,
        reports_removal(<Track as Comparable>::spec_removed_reports(t)[0], "pcb-track"@, None, t.id),
        <Track as Comparable>::spec_added_reports(t).len() == 1,
        reports_addition(<Track as Comparable>::spec_added_reports(t)[0], "pcb-track"@, None, t.id),
        <Via as Comparable>::spec_removed_reports(v).len() == 1,
        reports_removal(<Via as Comparable>::spec_removed_reports(v)[0], "pcb-via"@, None, v.id),
        <Via as Comparable>::spec_added_reports(v).len() == 1,
        reports_addition(<Via as Comparable>::spec_added_reports(v)[0], "pcb-via"@, None, v.id),
        <PcbNet as Comparable>::spec_removed_reports(n).len() == 1,
        reports_removal(
            <PcbNet as Comparable>::spec_removed_reports(n)[0],
            "pcb-net"@,
            shown(n.name),
            n.id,
        ),
        <PcbNet as Comparable>::spec_added_reports(n).len() == 1,
        reports_addition(
            <PcbNet as Comparable>::spec_added_reports(n)[0],
            "pcb-net"@,
            shown(n.name),
            n.id,
        ),
        <BoardEdge as Comparable>::spec_removed_reports(e).len() == 1,
        reports_removal(
            <BoardEdge as Comparable>::spec_removed_reports(e)[0],
            "pcb-board-edge"@,
            None,
            e.id(),
        ),
        <BoardEdge as Comparable>::spec_added_reports(e).len() == 1,
        reports_addition(
            <BoardEdge as Comparable>::spec_added_reports(e)[0],
            "pcb-board-edge"@,
            None,
            e.id(),
        ),
{
}

/// A placed symbol, wire, junction, label or net of a schematic without
/// partner is reported by one removed (added) report of its type; symbols
/// are shown by reference, labels and nets by name.
pub proof fn lemma_schematic_lone_reports(
    s: SpecSymbol,
    w: SpecWire,
    j: SpecJunction,
    l: SpecLabel,
    n: SpecSchematicNet,
)
    ensures
        <Symbol as Comparable>::spec_removed_reports(s).len() == 1,
        reports_removal(
            <Symbol as Comparable>::spec_removed_reports(s)[0],
            "schematic-symbol"@,
            shown(s.reference),
            s.id,
        ),
        <Symbol as Comparable>::spec_added_reports(s).len() == 1,
        reports_addition(
            <Symbol as Comparable>::spec_added_reports(s)[0],
            "schematic-symbol"@,
            shown(s.reference),
            s.id,
        ),
        <Wire as Comparable>::spec_removed_reports(w).len() == 1,
        reports_removal(<Wire as Comparable>::spec_removed_reports(w)[0], "schematic-wire"@, None, w.id),
        <Wire as Comparable>::spec_added_reports(w).len() == 1,
        reports_addition(<Wire as Comparable>::spec_added_reports(w)[0], "schematic-wire"@, None, w.id),
        <Junction as Comparable>::spec_removed_reports(j).len() == 1,
        reports_removal(
            <Junction as Comparable>::spec_removed_reports(j)[0],
            "schematic-junction"@,
            None,
            j.id,
        ),
        <Junction as Comparable>::spec_added_reports(j).len() == 1,
        reports_addition(
            <Junction as Comparable>::spec_added_reports(j)[0],
            "schematic-junction"@,
            None,
            j.id,
        ),
        <Label as Comparable>::spec_removed_reports(l).len() == 1,
        reports_removal(
            <Label as Comparable>::spec_removed_reports(l)[0],
            "schematic-label"@,
            shown(l.name),
            l.id,
        ),
        <Label as Comparable>::spec_added_reports(l).len() == 1,
        reports_addition(
            <Label as Comparable>::spec_added_reports(l)[0],
            "schematic-label"@,
            shown(l.name),
            l.id,
        ),
        <SchematicNet as Comparable>::spec_removed_reports(n).len() == 1,
        reports_removal(
            <SchematicNet as Comparable>::spec_removed_reports(n)[0],
            "schematic-net"@,
            shown(n.name),
            n.id,
        ),
        <SchematicNet as Comparable>::spec_added_reports(n).len() == 1,
        reports_addition(
            <SchematicNet as Comparable>::spec_added_reports(n)[0],
            "schematic-net"@,
            shown(n.name),
            n.id,
        ),
{
}

/// The name a pair is shown by: the later object's where it has one, else the
/// earlier object's.
pub open spec fn shown_pair(later: Seq<char>, earlier: Seq<char>) -> Option<Seq<char>> {
    if later.len() > 0 {
        Some(later)
    } else if earlier.len() > 0 {
        Some(earlier)
    } else {
        None
    }
}

/// A pair is shown by a name of its later object where it has one, else of
/// its earlier one: footprints and placed symbols by reference, labels and
/// nets by name, pads by the later footprint's reference and the later pad's
/// number; tracks, vias, board edges, wires and junctions by none.
pub proof fn lemma_pair_display_names(
    fo: SpecFootprint,
    fa: SpecFootprint,
    so: SpecSymbol,
    sa: SpecSymbol,
    lo: SpecLabel,
    la: SpecLabel,
    po: SpecPcbNet,
    pa: SpecPcbNet,
    no: SpecSchematicNet,
    na: SpecSchematicNet,
    m: MatchMethod,
)
    ensures
        <Footprint as Comparable>::spec_pair_reports(fo, fa, m)[0].display_name == shown_pair(
            fa.reference,
            fo.reference,
        ),
        <Symbol as Comparable>::spec_pair_reports(so, sa, m)[0].display_name == shown_pair(
            sa.reference,
            so.reference,
        ),
        <Label as Comparable>::spec_pair_reports(lo, la, m)[0].display_name == shown_pair(
            la.name,
            lo.name,
        ),
        <PcbNet as Comparable>::spec_pair_reports(po, pa, m)[0].display_name == shown_pair(
            pa.name,
            po.name,
        ),
        <SchematicNet as Comparable>::spec_pair_reports(no, na, m)[0].display_name == shown_pair(
            na.name,
            no.name,
        ),
{
}

/// A pad is shown by its footprint's reference and its number joined by a
/// dot, or by whichever of the two is not empty, or by none.
pub proof fn lemma_pad_display(reference: Seq<char>, number: Seq<char>)
    ensures
        reference.len() > 0 && number.len() > 0 ==> pad_display(reference, number) == Some(
            reference + "."@ + number,
        ),
        reference.len() > 0 && number.len() == 0 ==> pad_display(reference, number) == Some(reference),
        reference.len() == 0 && number.len() > 0 ==> pad_display(reference, number) == Some(number),
        reference.len() == 0 && number.len() == 0 ==> pad_display(reference, number) is None,
{
}

} // verus!
