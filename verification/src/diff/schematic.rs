//! Semantic diff of canonical schematics.

use vstd::prelude::*;

use crate::model::schematic::{
    Junction, Label, Net, Schematic, SpecJunction, SpecLabel, SpecNet, SpecSchematic, SpecSymbol,
    SpecWire, Symbol, Wire,
};

use super::matcher::{MatchKey, SpecMatchKey};
use super::objects::{diff_objects, object_changes, views, Comparable};
use super::types::{
    change_views, field, field_check, field_views, first_present, non_empty, non_empty_text,
    or_else_text, push_change, spec_added, spec_compared, spec_removed, spec_report, DiffReport,
    FieldChange, FieldValue, MatchMethod, ObjectChange, SpecFieldChange,
    SpecFieldValue, SpecObjectChange,
};

verus! {

// ---------------------------------------------------------------------------
// Symbols: paired by identifier, then by reference designator.

pub open spec fn symbol_fields(o: SpecSymbol, n: SpecSymbol) -> Seq<SpecFieldChange> {
    field_check("reference"@, SpecFieldValue::Text(o.reference), SpecFieldValue::Text(n.reference))
        + field_check("value"@, SpecFieldValue::Text(o.value), SpecFieldValue::Text(n.value))
        + field_check(
        "library-id"@,
        SpecFieldValue::OptionalText(o.library_id),
        SpecFieldValue::OptionalText(n.library_id),
    ) + field_check(
        "footprint"@,
        SpecFieldValue::OptionalText(o.footprint),
        SpecFieldValue::OptionalText(n.footprint),
    ) + field_check("unit"@, SpecFieldValue::Count(o.unit), SpecFieldValue::Count(n.unit))
        + field_check(
        "position"@,
        SpecFieldValue::Position(o.position),
        SpecFieldValue::Position(n.position),
    ) + field_check(
        "rotation"@,
        SpecFieldValue::Angle(o.rotation),
        SpecFieldValue::Angle(n.rotation),
    ) + field_check("mirror-x"@, SpecFieldValue::Flag(o.mirror_x), SpecFieldValue::Flag(n.mirror_x))
        + field_check(
        "mirror-y"@,
        SpecFieldValue::Flag(o.mirror_y),
        SpecFieldValue::Flag(n.mirror_y),
    )
}

fn symbol_field_changes(old: &Symbol, new: &Symbol) -> (fields: Vec<FieldChange>)
    ensures
        field_views(fields@) == symbol_fields(old@, new@),
{
    let mut fields: Vec<FieldChange> = Vec::new();
    field(
        "reference",
        FieldValue::Text(old.reference.clone()),
        FieldValue::Text(new.reference.clone()),
        &mut fields,
    );
    field(
        "value",
        FieldValue::Text(old.value.clone()),
        FieldValue::Text(new.value.clone()),
        &mut fields,
    );
    field(
        "library-id",
        FieldValue::OptionalText(old.library_id.clone()),
        FieldValue::OptionalText(new.library_id.clone()),
        &mut fields,
    );
    field(
        "footprint",
        FieldValue::OptionalText(old.footprint.clone()),
        FieldValue::OptionalText(new.footprint.clone()),
        &mut fields,
    );
    field("unit", FieldValue::Count(old.unit), FieldValue::Count(new.unit), &mut fields);
    field(
        "position",
        FieldValue::Position(old.position),
        FieldValue::Position(new.position),
        &mut fields,
    );
    field(
        "rotation",
        FieldValue::Angle(old.rotation),
        FieldValue::Angle(new.rotation),
        &mut fields,
    );
    field("mirror-x", FieldValue::Flag(old.mirror_x), FieldValue::Flag(new.mirror_x), &mut fields);
    field("mirror-y", FieldValue::Flag(old.mirror_y), FieldValue::Flag(new.mirror_y), &mut fields);
    assert(field_views(fields@) =~= symbol_fields(old@, new@));
    fields
}

impl Comparable for Symbol {
    open spec fn spec_key(v: SpecSymbol) -> SpecMatchKey {
        SpecMatchKey { primary: v.id, fallback: non_empty_text(v.reference) }
    }

    open spec fn spec_pair_reports(o: SpecSymbol, n: SpecSymbol, method: MatchMethod) -> Seq<
        SpecObjectChange,
    > {
        seq![
            spec_compared(
                "schematic-symbol"@,
                first_present(non_empty_text(n.reference), non_empty_text(o.reference)),
                o.id,
                n.id,
                method,
                symbol_fields(o, n),
            ),
        ]
    }

    open spec fn spec_removed_reports(v: SpecSymbol) -> Seq<SpecObjectChange> {
        seq![spec_removed("schematic-symbol"@, non_empty_text(v.reference), v.id)]
    }

    open spec fn spec_added_reports(v: SpecSymbol) -> Seq<SpecObjectChange> {
        seq![spec_added("schematic-symbol"@, non_empty_text(v.reference), v.id)]
    }

    fn match_key(&self) -> (k: MatchKey) {
        MatchKey { primary: self.id.0.clone(), fallback: non_empty(&self.reference) }
    }

    fn report_pair(&self, new: &Symbol, method: MatchMethod, changes: &mut Vec<ObjectChange>) {
        let fields = symbol_field_changes(self, new);
        let name = or_else_text(non_empty(&new.reference), non_empty(&self.reference));
        push_change(
            changes,
            ObjectChange::compared(
                "schematic-symbol",
                name,
                self.id.duplicate(),
                new.id.duplicate(),
                method,
                fields,
            ),
        );
    }

    fn report_removed(&self, changes: &mut Vec<ObjectChange>) {
        push_change(
            changes,
            ObjectChange::removed("schematic-symbol", non_empty(&self.reference), self.id.duplicate()),
        );
    }

    fn report_added(&self, changes: &mut Vec<ObjectChange>) {
        push_change(
            changes,
            ObjectChange::added("schematic-symbol", non_empty(&self.reference), self.id.duplicate()),
        );
    }
}

// ---------------------------------------------------------------------------
// Wires: paired by identifier only.

pub open spec fn wire_fields(o: SpecWire, n: SpecWire) -> Seq<SpecFieldChange> {
    field_check("points"@, SpecFieldValue::Points(o.points), SpecFieldValue::Points(n.points))
}

impl Comparable for Wire {
    open spec fn spec_key(v: SpecWire) -> SpecMatchKey {
        SpecMatchKey { primary: v.id, fallback: None }
    }

    open spec fn spec_pair_reports(o: SpecWire, n: SpecWire, method: MatchMethod) -> Seq<
        SpecObjectChange,
    > {
        seq![spec_compared("schematic-wire"@, None, o.id, n.id, method, wire_fields(o, n))]
    }

    open spec fn spec_removed_reports(v: SpecWire) -> Seq<SpecObjectChange> {
        seq![spec_removed("schematic-wire"@, None, v.id)]
    }

    open spec fn spec_added_reports(v: SpecWire) -> Seq<SpecObjectChange> {
        seq![spec_added("schematic-wire"@, None, v.id)]
    }

    fn match_key(&self) -> (k: MatchKey) {
        MatchKey { primary: self.id.0.clone(), fallback: None }
    }

    fn report_pair(&self, new: &Wire, method: MatchMethod, changes: &mut Vec<ObjectChange>) {
        let mut fields: Vec<FieldChange> = Vec::new();
        field(
            "points",
            FieldValue::Points(self.points.clone()),
            FieldValue::Points(new.points.clone()),
            &mut fields,
        );
        assert(field_views(fields@) =~= wire_fields(self@, new@));
        push_change(
            changes,
            ObjectChange::compared(
                "schematic-wire",
                None,
                self.id.duplicate(),
                new.id.duplicate(),
                method,
                fields,
            ),
        );
    }

    fn report_removed(&self, changes: &mut Vec<ObjectChange>) {
        push_change(changes, ObjectChange::removed("schematic-wire", None, self.id.duplicate()));
    }

    fn report_added(&self, changes: &mut Vec<ObjectChange>) {
        push_change(changes, ObjectChange::added("schematic-wire", None, self.id.duplicate()));
    }
}

// ---------------------------------------------------------------------------
// Junctions: paired by identifier only.

pub open spec fn junction_fields(o: SpecJunction, n: SpecJunction) -> Seq<SpecFieldChange> {
    field_check(
        "position"@,
        SpecFieldValue::Position(o.position),
        SpecFieldValue::Position(n.position),
    )
}

impl Comparable for Junction {
    open spec fn spec_key(v: SpecJunction) -> SpecMatchKey {
        SpecMatchKey { primary: v.id, fallback: None }
    }

    open spec fn spec_pair_reports(o: SpecJunction, n: SpecJunction, method: MatchMethod) -> Seq<
        SpecObjectChange,
    > {
        seq![spec_compared("schematic-junction"@, None, o.id, n.id, method, junction_fields(o, n))]
    }

    open spec fn spec_removed_reports(v: SpecJunction) -> Seq<SpecObjectChange> {
        seq![spec_removed("schematic-junction"@, None, v.id)]
    }

    open spec fn spec_added_reports(v: SpecJunction) -> Seq<SpecObjectChange> {
        seq![spec_added("schematic-junction"@, None, v.id)]
    }

    fn match_key(&self) -> (k: MatchKey) {
        MatchKey { primary: self.id.0.clone(), fallback: None }
    }

    fn report_pair(&self, new: &Junction, method: MatchMethod, changes: &mut Vec<ObjectChange>) {
        let mut fields: Vec<FieldChange> = Vec::new();
        field(
            "position",
            FieldValue::Position(self.position),
            FieldValue::Position(new.position),
            &mut fields,
        );
        assert(field_views(fields@) =~= junction_fields(self@, new@));
        push_change(
            changes,
            ObjectChange::compared(
                "schematic-junction",
                None,
                self.id.duplicate(),
                new.id.duplicate(),
                method,
                fields,
            ),
        );
    }

    fn report_removed(&self, changes: &mut Vec<ObjectChange>) {
        push_change(changes, ObjectChange::removed("schematic-junction", None, self.id.duplicate()));
    }

    fn report_added(&self, changes: &mut Vec<ObjectChange>) {
        push_change(changes, ObjectChange::added("schematic-junction", None, self.id.duplicate()));
    }
}

// ---------------------------------------------------------------------------
// Labels: paired by identifier, then by name.

pub open spec fn label_fields(o: SpecLabel, n: SpecLabel) -> Seq<SpecFieldChange> {
    field_check("name"@, SpecFieldValue::Text(o.name), SpecFieldValue::Text(n.name)) + field_check(
        "kind"@,
        SpecFieldValue::Label(o.kind),
        SpecFieldValue::Label(n.kind),
    ) + field_check(
        "position"@,
        SpecFieldValue::Position(o.position),
        SpecFieldValue::Position(n.position),
    ) + field_check(
        "rotation"@,
        SpecFieldValue::Angle(o.rotation),
        SpecFieldValue::Angle(n.rotation),
    ) + field_check(
        "electrical-shape"@,
        SpecFieldValue::OptionalText(o.electrical_shape),
        SpecFieldValue::OptionalText(n.electrical_shape),
    )
}

fn label_field_changes(old: &Label, new: &Label) -> (fields: Vec<FieldChange>)
    ensures
        field_views(fields@) == label_fields(old@, new@),
{
    let mut fields: Vec<FieldChange> = Vec::new();
    field(
        "name",
        FieldValue::Text(old.name.clone()),
        FieldValue::Text(new.name.clone()),
        &mut fields,
    );
    field("kind", FieldValue::Label(old.kind), FieldValue::Label(new.kind), &mut fields);
    field(
        "position",
        FieldValue::Position(old.position),
        FieldValue::Position(new.position),
        &mut fields,
    );
    field(
        "rotation",
        FieldValue::Angle(old.rotation),
        FieldValue::Angle(new.rotation),
        &mut fields,
    );
    field(
        "electrical-shape",
        FieldValue::OptionalText(old.electrical_shape.clone()),
        FieldValue::OptionalText(new.electrical_shape.clone()),
        &mut fields,
    );
    assert(field_views(fields@) =~= label_fields(old@, new@));
    fields
}

impl Comparable for Label {
    open spec fn spec_key(v: SpecLabel) -> SpecMatchKey {
        SpecMatchKey { primary: v.id, fallback: non_empty_text(v.name) }
    }

    open spec fn spec_pair_reports(o: SpecLabel, n: SpecLabel, method: MatchMethod) -> Seq<
        SpecObjectChange,
    > {
        seq![
            spec_compared(
                "schematic-label"@,
                first_present(non_empty_text(n.name), non_empty_text(o.name)),
                o.id,
                n.id,
                method,
                label_fields(o, n),
            ),
        ]
    }

    open spec fn spec_removed_reports(v: SpecLabel) -> Seq<SpecObjectChange> {
        seq![spec_removed("schematic-label"@, non_empty_text(v.name), v.id)]
    }

    open spec fn spec_added_reports(v: SpecLabel) -> Seq<SpecObjectChange> {
        seq![spec_added("schematic-label"@, non_empty_text(v.name), v.id)]
    }

    fn match_key(&self) -> (k: MatchKey) {
        MatchKey { primary: self.id.0.clone(), fallback: non_empty(&self.name) }
    }

    fn report_pair(&self, new: &Label, method: MatchMethod, changes: &mut Vec<ObjectChange>) {
        let fields = label_field_changes(self, new);
        let name = or_else_text(non_empty(&new.name), non_empty(&self.name));
        push_change(
            changes,
            ObjectChange::compared(
                "schematic-label",
                name,
                self.id.duplicate(),
                new.id.duplicate(),
                method,
                fields,
            ),
        );
    }

    fn report_removed(&self, changes: &mut Vec<ObjectChange>) {
        push_change(
            changes,
            ObjectChange::removed("schematic-label", non_empty(&self.name), self.id.duplicate()),
        );
    }

    fn report_added(&self, changes: &mut Vec<ObjectChange>) {
        push_change(
            changes,
            ObjectChange::added("schematic-label", non_empty(&self.name), self.id.duplicate()),
        );
    }
}

// ---------------------------------------------------------------------------
// Nets: paired by identifier, then by name.

pub open spec fn net_fields(o: SpecNet, n: SpecNet) -> Seq<SpecFieldChange> {
    field_check("name"@, SpecFieldValue::Text(o.name), SpecFieldValue::Text(n.name))
}

impl Comparable for Net {
    open spec fn spec_key(v: SpecNet) -> SpecMatchKey {
        SpecMatchKey { primary: v.id, fallback: non_empty_text(v.name) }
    }

    open spec fn spec_pair_reports(o: SpecNet, n: SpecNet, method: MatchMethod) -> Seq<
        SpecObjectChange,
    > {
        seq![
            spec_compared(
                "schematic-net"@,
                first_present(non_empty_text(n.name), non_empty_text(o.name)),
                o.id,
                n.id,
                method,
                net_fields(o, n),
            ),
        ]
    }

    open spec fn spec_removed_reports(v: SpecNet) -> Seq<SpecObjectChange> {
        seq![spec_removed("schematic-net"@, non_empty_text(v.name), v.id)]
    }

    open spec fn spec_added_reports(v: SpecNet) -> Seq<SpecObjectChange> {
        seq![spec_added("schematic-net"@, non_empty_text(v.name), v.id)]
    }

    fn match_key(&self) -> (k: MatchKey) {
        MatchKey { primary: self.id.0.clone(), fallback: non_empty(&self.name) }
    }

    fn report_pair(&self, new: &Net, method: MatchMethod, changes: &mut Vec<ObjectChange>) {
        let mut fields: Vec<FieldChange> = Vec::new();
        field(
            "name",
            FieldValue::Text(self.name.clone()),
            FieldValue::Text(new.name.clone()),
            &mut fields,
        );
        assert(field_views(fields@) =~= net_fields(self@, new@));
        let name = or_else_text(non_empty(&new.name), non_empty(&self.name));
        push_change(
            changes,
            ObjectChange::compared(
                "schematic-net",
                name,
                self.id.duplicate(),
                new.id.duplicate(),
                method,
                fields,
            ),
        );
    }

    fn report_removed(&self, changes: &mut Vec<ObjectChange>) {
        push_change(
            changes,
            ObjectChange::removed("schematic-net", non_empty(&self.name), self.id.duplicate()),
        );
    }

    fn report_added(&self, changes: &mut Vec<ObjectChange>) {
        push_change(
            changes,
            ObjectChange::added("schematic-net", non_empty(&self.name), self.id.duplicate()),
        );
    }
}

// ---------------------------------------------------------------------------
// Whole schematics.

/// The reports on two revisions of a schematic: symbols, wires, junctions,
/// labels and nets, in that order.
pub open spec fn schematic_changes(b: SpecSchematic, a: SpecSchematic) -> Seq<SpecObjectChange> {
    object_changes::<Symbol>(b.symbols, a.symbols, MatchMethod::Reference) + object_changes::<Wire>(
        b.wires,
        a.wires,
        MatchMethod::Reference,
    ) + object_changes::<Junction>(b.junctions, a.junctions, MatchMethod::Reference)
        + object_changes::<Label>(b.labels, a.labels, MatchMethod::Name) + object_changes::<Net>(
        b.nets,
        a.nets,
        MatchMethod::Name,
    )
}

/// The semantic diff of two revisions of a schematic.
pub fn diff_schematic(before: &Schematic, after: &Schematic) -> (report: DiffReport)
    ensures
        report@ == spec_report(schematic_changes(before@, after@)),
{
    assert(views(before.symbols@) =~= before@.symbols);
    assert(views(after.symbols@) =~= after@.symbols);
    assert(views(before.wires@) =~= before@.wires);
    assert(views(after.wires@) =~= after@.wires);
    assert(views(before.junctions@) =~= before@.junctions);
    assert(views(after.junctions@) =~= after@.junctions);
    assert(views(before.labels@) =~= before@.labels);
    assert(views(after.labels@) =~= after@.labels);
    assert(views(before.nets@) =~= before@.nets);
    assert(views(after.nets@) =~= after@.nets);
    let mut changes: Vec<ObjectChange> = Vec::new();
    diff_objects(&before.symbols, &after.symbols, MatchMethod::Reference, &mut changes);
    diff_objects(&before.wires, &after.wires, MatchMethod::Reference, &mut changes);
    diff_objects(&before.junctions, &after.junctions, MatchMethod::Reference, &mut changes);
    diff_objects(&before.labels, &after.labels, MatchMethod::Name, &mut changes);
    diff_objects(&before.nets, &after.nets, MatchMethod::Name, &mut changes);
    assert(change_views(changes@) =~= schematic_changes(before@, after@));
    DiffReport::new(changes)
}

} // verus!
