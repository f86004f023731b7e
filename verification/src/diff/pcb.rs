//! Semantic diff of canonical PCBs.

use vstd::prelude::*;

use crate::model::common::ObjectId;
use crate::model::pcb::{
    id_view, BoardEdge, Footprint, Net, Pad, Pcb, SpecBoardEdge, SpecFootprint, SpecNet, SpecPad,
    SpecPcb, SpecTrack, SpecVia, Track, Via,
};

use super::matcher::{
    entry_in_range, key_views, lemma_match_items_in_range, match_keys, spec_match_items, MatchKey,
    MatchedIndex, SpecMatchKey,
};
use super::objects::{diff_objects, object_changes, views, Comparable};
use super::types::{
    change_views, field, field_check, field_views, first_present, non_empty, non_empty_text,
    or_else_text, push_change, spec_added, spec_compared, spec_removed, spec_report, DiffReport,
    FieldChange, FieldValue, MatchMethod, ObjectChange, SpecFieldChange,
    SpecFieldValue, SpecObjectChange,
};

verus! {

// ---------------------------------------------------------------------------
// Display names.

/// The display name of a pad: `<reference>.<number>`, or whichever of the two
/// is not empty.
pub open spec fn pad_display(reference: Seq<char>, number: Seq<char>) -> Option<Seq<char>> {
    match (non_empty_text(reference), non_empty_text(number)) {
        (Some(r), Some(n)) => Some(r + "."@ + n),
        (Some(r), None) => Some(r),
        (None, Some(n)) => Some(n),
        (None, None) => None,
    }
}

/// The display name of a pad of a footprint.
pub fn pad_display_name(footprint: &Footprint, pad: &Pad) -> (name: Option<String>)
    ensures
        name.deep_view() == pad_display(footprint@.reference, pad@.number),
{
    match (non_empty(&footprint.reference), non_empty(&pad.number)) {
        (Some(reference), Some(number)) => {
            let mut text = reference;
            text.append(".");
            text.append(number.as_str());
            Some(text)
        },
        (Some(reference), None) => Some(reference),
        (None, Some(number)) => Some(number),
        (None, None) => None,
    }
}

/// The display name of a pair of footprints: the later reference, or the
/// earlier one when the later is empty.
pub fn display_reference(before: &Footprint, after: &Footprint) -> (name: Option<String>)
    ensures
        name.deep_view() == first_present(
            non_empty_text(after@.reference),
            non_empty_text(before@.reference),
        ),
{
    or_else_text(non_empty(&after.reference), non_empty(&before.reference))
}

/// The identifier of a board edge.
pub fn edge_object_id(edge: &BoardEdge) -> (id: ObjectId)
    ensures
        id@ == edge@.id(),
{
    match edge {
        BoardEdge::Line { id, .. } => id.duplicate(),
        BoardEdge::Arc { id, .. } => id.duplicate(),
    }
}

/// The identifier text of a board edge.
pub fn edge_id(edge: &BoardEdge) -> (id: String)
    ensures
        id@ == edge@.id(),
{
    edge_object_id(edge).0
}

fn copy_edge(edge: &BoardEdge) -> (copy: BoardEdge)
    ensures
        copy@ == edge@,
{
    match edge {
        BoardEdge::Line { id, start, end, source } => BoardEdge::Line {
            id: id.duplicate(),
            start: *start,
            end: *end,
            source: crate::model::source::SourceRef {
                format: source.format,
                file_path: source.file_path.clone(),
                native_id: source.native_id.clone(),
            },
        },
        BoardEdge::Arc { id, start, mid, end, source } => BoardEdge::Arc {
            id: id.duplicate(),
            start: *start,
            mid: *mid,
            end: *end,
            source: crate::model::source::SourceRef {
                format: source.format,
                file_path: source.file_path.clone(),
                native_id: source.native_id.clone(),
            },
        },
    }
}

fn copy_optional_id(id: &Option<ObjectId>) -> (copy: Option<ObjectId>)
    ensures
        id_view(copy) == id_view(*id),
{
    match id {
        Some(x) => Some(x.duplicate()),
        None => None,
    }
}

// ---------------------------------------------------------------------------
// Pads: paired by identifier only, within a pair of footprints.

pub open spec fn pad_fields(o: SpecPad, n: SpecPad) -> Seq<SpecFieldChange> {
    field_check("number"@, SpecFieldValue::Text(o.number), SpecFieldValue::Text(n.number))
        + field_check("kind"@, SpecFieldValue::Text(o.kind), SpecFieldValue::Text(n.kind))
        + field_check("shape"@, SpecFieldValue::Text(o.shape), SpecFieldValue::Text(n.shape))
        + field_check(
        "position"@,
        SpecFieldValue::Position(o.position),
        SpecFieldValue::Position(n.position),
    ) + field_check(
        "rotation"@,
        SpecFieldValue::Angle(o.rotation),
        SpecFieldValue::Angle(n.rotation),
    ) + field_check("size"@, SpecFieldValue::Extent(o.size), SpecFieldValue::Extent(n.size))
        + field_check(
        "drill-mm"@,
        SpecFieldValue::OptionalLength(o.drill_mm),
        SpecFieldValue::OptionalLength(n.drill_mm),
    ) + field_check("layers"@, SpecFieldValue::Texts(o.layers), SpecFieldValue::Texts(n.layers))
        + field_check(
        "net-id"@,
        SpecFieldValue::OptionalId(o.net_id),
        SpecFieldValue::OptionalId(n.net_id),
    )
}

fn pad_field_changes(old: &Pad, new: &Pad) -> (fields: Vec<FieldChange>)
    ensures
        field_views(fields@) == pad_fields(old@, new@),
{
    let mut fields: Vec<FieldChange> = Vec::new();
    field(
        "number",
        FieldValue::Text(old.number.clone()),
        FieldValue::Text(new.number.clone()),
        &mut fields,
    );
    field(
        "kind",
        FieldValue::Text(old.kind.clone()),
        FieldValue::Text(new.kind.clone()),
        &mut fields,
    );
    field(
        "shape",
        FieldValue::Text(old.shape.clone()),
        FieldValue::Text(new.shape.clone()),
        &mut fields,
    );
    field(
        "position",
        FieldValue::Position(old.position),
        FieldValue::Position(new.position),
        &mut fields,
    );
    field(
        "rotation",
        FieldValue::Angle(old.rotation),
        FieldValue::Angle(new.rotation),
        &mut fields,
    );
    field("size", FieldValue::Extent(old.size), FieldValue::Extent(new.size), &mut fields);
    field(
        "drill-mm",
        FieldValue::OptionalLength(old.drill_mm),
        FieldValue::OptionalLength(new.drill_mm),
        &mut fields,
    );
    let old_layers = old.layers.clone();
    let new_layers = new.layers.clone();
    assert(old_layers.deep_view() =~= old.layers.deep_view());
    assert(new_layers.deep_view() =~= new.layers.deep_view());
    field("layers", FieldValue::Texts(old_layers), FieldValue::Texts(new_layers), &mut fields);
    field(
        "net-id",
        FieldValue::OptionalId(copy_optional_id(&old.net_id)),
        FieldValue::OptionalId(copy_optional_id(&new.net_id)),
        &mut fields,
    );
    assert(field_views(fields@) =~= pad_fields(old@, new@));
    fields
}

pub open spec fn pad_keys(pads: Seq<SpecPad>) -> Seq<SpecMatchKey> {
    pads.map_values(|p: SpecPad| SpecMatchKey { primary: p.id, fallback: None })
}

/// The reports on one entry of the pairing of the pads of two footprints.
pub open spec fn pad_entry_reports(b: SpecFootprint, a: SpecFootprint, m: MatchedIndex) -> Seq<
    SpecObjectChange,
> {
    match (m.before, m.after) {
        (Some(i), Some(j)) => seq![
            spec_compared(
                "pcb-pad"@,
                pad_display(a.reference, a.pads[j as int].number),
                b.pads[i as int].id,
                a.pads[j as int].id,
                m.method->0,
                pad_fields(b.pads[i as int], a.pads[j as int]),
            ),
        ],
        (Some(i), None) => seq![
            spec_removed(
                "pcb-pad"@,
                pad_display(b.reference, b.pads[i as int].number),
                b.pads[i as int].id,
            ),
        ],
        (None, Some(j)) => seq![
            spec_added(
                "pcb-pad"@,
                pad_display(a.reference, a.pads[j as int].number),
                a.pads[j as int].id,
            ),
        ],
        (None, None) => seq![],
    }
}

pub open spec fn pad_entries_reports(
    b: SpecFootprint,
    a: SpecFootprint,
    ms: Seq<MatchedIndex>,
    n: int,
) -> Seq<SpecObjectChange>
    decreases n,
{
    if n <= 0 {
        seq![]
    } else {
        pad_entries_reports(b, a, ms, n - 1) + pad_entry_reports(b, a, ms[n - 1])
    }
}

/// The reports on the pads of two paired footprints.
pub open spec fn pad_changes(b: SpecFootprint, a: SpecFootprint) -> Seq<SpecObjectChange> {
    let ms = spec_match_items(pad_keys(b.pads), pad_keys(a.pads), MatchMethod::Reference);
    pad_entries_reports(b, a, ms, ms.len() as int)
}

fn pad_keys_of(pads: &Vec<Pad>) -> (keys: Vec<MatchKey>)
    ensures
        key_views(keys@) == pad_keys(views(pads@)),
{
    let ghost v = views(pads@);
    let mut keys: Vec<MatchKey> = Vec::new();
    let mut i: usize = 0;
    while i < pads.len()
        invariant
            i <= pads@.len(),
            v == views(pads@),
            key_views(keys@) == pad_keys(v).take(i as int),
        decreases pads@.len() - i,
    {
        let ghost prev = keys@;
        let k = MatchKey { primary: pads[i].id.0.clone(), fallback: None };
        keys.push(k);
        assert(key_views(keys@) =~= key_views(prev).push(k@));
        assert(pad_keys(v).take(i + 1) =~= pad_keys(v).take(i as int).push(k@));
        i = i + 1;
    }
    assert(pad_keys(v).take(pads@.len() as int) =~= pad_keys(v));
    keys
}

fn report_pad_entry(
    before: &Footprint,
    after: &Footprint,
    m: MatchedIndex,
    changes: &mut Vec<ObjectChange>,
)
    requires
        entry_in_range(before.pads@.len() as int, after.pads@.len() as int, m),
    ensures
        change_views(final(changes)@) == change_views(old(changes)@) + pad_entry_reports(
            before@,
            after@,
            m,
        ),
{
    match (m.before, m.after) {
        (Some(i), Some(j)) => {
            let old = &before.pads[i];
            let new = &after.pads[j];
            let method = match m.method {
                Some(x) => x,
                None => MatchMethod::ObjectId,
            };
            let fields = pad_field_changes(old, new);
            push_change(
                changes,
                ObjectChange::compared(
                    "pcb-pad",
                    pad_display_name(after, new),
                    old.id.duplicate(),
                    new.id.duplicate(),
                    method,
                    fields,
                ),
            );
        },
        (Some(i), None) => {
            let item = &before.pads[i];
            push_change(
                changes,
                ObjectChange::removed("pcb-pad", pad_display_name(before, item), item.id.duplicate()),
            );
        },
        (None, Some(j)) => {
            let item = &after.pads[j];
            push_change(
                changes,
                ObjectChange::added("pcb-pad", pad_display_name(after, item), item.id.duplicate()),
            );
        },
        (None, None) => {
            assert(change_views(changes@) =~= change_views(old(changes)@) + seq![]);
        },
    }
}

/// Appends the reports on the pads of two paired footprints to `changes`.
fn diff_pads(before: &Footprint, after: &Footprint, changes: &mut Vec<ObjectChange>)
    ensures
        change_views(final(changes)@) == change_views(old(changes)@) + pad_changes(
            before@,
            after@,
        ),
{
    assert(views(before.pads@) =~= before@.pads);
    assert(views(after.pads@) =~= after@.pads);
    let before_keys = pad_keys_of(&before.pads);
    let after_keys = pad_keys_of(&after.pads);
    let ms = match_keys(before_keys.as_slice(), after_keys.as_slice(), MatchMethod::Reference);
    let ghost nb = before_keys.len();
    let ghost na = after_keys.len();
    let ghost bk = pad_keys(before@.pads);
    let ghost ak = pad_keys(after@.pads);
    proof {
        assert(bk.len() == nb && ak.len() == na);
        lemma_match_items_in_range(bk, ak, MatchMethod::Reference);
    }
    let ghost start = change_views(changes@);
    let mut t: usize = 0;
    while t < ms.len()
        invariant
            t <= ms@.len(),
            ms@ == spec_match_items(bk, ak, MatchMethod::Reference),
            bk == pad_keys(before@.pads),
            ak == pad_keys(after@.pads),
            forall|x: int|
                0 <= x < ms@.len() ==> entry_in_range(
                    bk.len() as int,
                    ak.len() as int,
                    #[trigger] ms@[x],
                ),
            change_views(changes@) == start + pad_entries_reports(before@, after@, ms@, t as int),
        decreases ms@.len() - t,
    {
        report_pad_entry(before, after, ms[t], changes);
        assert(start + pad_entries_reports(before@, after@, ms@, t + 1) =~= start
            + pad_entries_reports(before@, after@, ms@, t as int) + pad_entry_reports(
            before@,
            after@,
            ms@[t as int],
        ));
        t = t + 1;
    }
}

/// The reports on the pads of a footprint without partner.
pub open spec fn pad_removals(f: SpecFootprint) -> Seq<SpecObjectChange> {
    f.pads.map_values(|p: SpecPad| spec_removed("pcb-pad"@, pad_display(f.reference, p.number), p.id))
}

pub open spec fn pad_additions(f: SpecFootprint) -> Seq<SpecObjectChange> {
    f.pads.map_values(|p: SpecPad| spec_added("pcb-pad"@, pad_display(f.reference, p.number), p.id))
}

// ---------------------------------------------------------------------------
// Footprints: paired by identifier, then by reference designator; their pads
// are reported after them.

pub open spec fn footprint_fields(o: SpecFootprint, n: SpecFootprint) -> Seq<SpecFieldChange> {
    field_check("reference"@, SpecFieldValue::Text(o.reference), SpecFieldValue::Text(n.reference))
        + field_check("value"@, SpecFieldValue::Text(o.value), SpecFieldValue::Text(n.value))
        + field_check(
        "library-link"@,
        SpecFieldValue::OptionalText(o.library_link),
        SpecFieldValue::OptionalText(n.library_link),
    ) + field_check(
        "position"@,
        SpecFieldValue::Position(o.position),
        SpecFieldValue::Position(n.position),
    ) + field_check(
        "rotation"@,
        SpecFieldValue::Angle(o.rotation),
        SpecFieldValue::Angle(n.rotation),
    ) + field_check("layer"@, SpecFieldValue::Text(o.layer), SpecFieldValue::Text(n.layer))
}

fn footprint_field_changes(old: &Footprint, new: &Footprint) -> (fields: Vec<FieldChange>)
    ensures
        field_views(fields@) == footprint_fields(old@, new@),
{
    let mut fields: Vec<FieldChange> = Vec::new();
    field(
        "reference",
        FieldValue::Text(old.reference.clone()),
        FieldValue::Text(new.reference.clone()),
        &mut fields,
    );
    field(
        "value",
        FieldValue::Text(old.value.clone()),
        FieldValue::Text(new.value.clone()),
        &mut fields,
    );
    field(
        "library-link",
        FieldValue::OptionalText(old.library_link.clone()),
        FieldValue::OptionalText(new.library_link.clone()),
        &mut fields,
    );
    field(
        "position",
        FieldValue::Position(old.position),
        FieldValue::Position(new.position),
        &mut fields,
    );
    field(
        "rotation",
        FieldValue::Angle(old.rotation),
        FieldValue::Angle(new.rotation),
        &mut fields,
    );
    field(
        "layer",
        FieldValue::Text(old.layer.clone()),
        FieldValue::Text(new.layer.clone()),
        &mut fields,
    );
    assert(field_views(fields@) =~= footprint_fields(old@, new@));
    fields
}

impl Comparable for Footprint {
    open spec fn spec_key(v: SpecFootprint) -> SpecMatchKey {
        SpecMatchKey { primary: v.id, fallback: non_empty_text(v.reference) }
    }

    open spec fn spec_pair_reports(o: SpecFootprint, n: SpecFootprint, method: MatchMethod) -> Seq<
        SpecObjectChange,
    > {
        seq![
            spec_compared(
                "pcb-footprint"@,
                first_present(non_empty_text(n.reference), non_empty_text(o.reference)),
                o.id,
                n.id,
                method,
                footprint_fields(o, n),
            ),
        ] + pad_changes(o, n)
    }

    open spec fn spec_removed_reports(v: SpecFootprint) -> Seq<SpecObjectChange> {
        seq![spec_removed("pcb-footprint"@, non_empty_text(v.reference), v.id)] + pad_removals(v)
    }

    open spec fn spec_added_reports(v: SpecFootprint) -> Seq<SpecObjectChange> {
        seq![spec_added("pcb-footprint"@, non_empty_text(v.reference), v.id)] + pad_additions(v)
    }

    fn match_key(&self) -> (k: MatchKey) {
        MatchKey { primary: self.id.0.clone(), fallback: non_empty(&self.reference) }
    }

    fn report_pair(&self, new: &Footprint, method: MatchMethod, changes: &mut Vec<ObjectChange>) {
        let fields = footprint_field_changes(self, new);
        push_change(
            changes,
            ObjectChange::compared(
                "pcb-footprint",
                display_reference(self, new),
                self.id.duplicate(),
                new.id.duplicate(),
                method,
                fields,
            ),
        );
        diff_pads(self, new, changes);
    }

    fn report_removed(&self, changes: &mut Vec<ObjectChange>) {
        push_change(
            changes,
            ObjectChange::removed("pcb-footprint", non_empty(&self.reference), self.id.duplicate()),
        );
        let ghost start = change_views(changes@);
        let mut i: usize = 0;
        while i < self.pads.len()
            invariant
                i <= self.pads@.len(),
                change_views(changes@) == start + pad_removals(self@).take(i as int),
            decreases self.pads@.len() - i,
        {
            let pad = &self.pads[i];
            push_change(
                changes,
                ObjectChange::removed("pcb-pad", pad_display_name(self, pad), pad.id.duplicate()),
            );
            assert(pad_removals(self@).take(i + 1) =~= pad_removals(self@).take(i as int).push(
                pad_removals(self@)[i as int],
            ));
            i = i + 1;
        }
        assert(pad_removals(self@).take(self.pads@.len() as int) =~= pad_removals(self@));
    }

    fn report_added(&self, changes: &mut Vec<ObjectChange>) {
        push_change(
            changes,
            ObjectChange::added("pcb-footprint", non_empty(&self.reference), self.id.duplicate()),
        );
        let ghost start = change_views(changes@);
        let mut i: usize = 0;
        while i < self.pads.len()
            invariant
                i <= self.pads@.len(),
                change_views(changes@) == start + pad_additions(self@).take(i as int),
            decreases self.pads@.len() - i,
        {
            let pad = &self.pads[i];
            push_change(
                changes,
                ObjectChange::added("pcb-pad", pad_display_name(self, pad), pad.id.duplicate()),
            );
            assert(pad_additions(self@).take(i + 1) =~= pad_additions(self@).take(i as int).push(
                pad_additions(self@)[i as int],
            ));
            i = i + 1;
        }
        assert(pad_additions(self@).take(self.pads@.len() as int) =~= pad_additions(self@));
    }
}

// ---------------------------------------------------------------------------
// Tracks: paired by identifier only.

pub open spec fn track_fields(o: SpecTrack, n: SpecTrack) -> Seq<SpecFieldChange> {
    field_check("start"@, SpecFieldValue::Position(o.start), SpecFieldValue::Position(n.start))
        + field_check("end"@, SpecFieldValue::Position(o.end), SpecFieldValue::Position(n.end))
        + field_check(
        "width-mm"@,
        SpecFieldValue::Length(o.width_mm),
        SpecFieldValue::Length(n.width_mm),
    ) + field_check("layer"@, SpecFieldValue::Text(o.layer), SpecFieldValue::Text(n.layer))
        + field_check(
        "net-id"@,
        SpecFieldValue::OptionalId(o.net_id),
        SpecFieldValue::OptionalId(n.net_id),
    )
}

impl Comparable for Track {
    open spec fn spec_key(v: SpecTrack) -> SpecMatchKey {
        SpecMatchKey { primary: v.id, fallback: None }
    }

    open spec fn spec_pair_reports(o: SpecTrack, n: SpecTrack, method: MatchMethod) -> Seq<
        SpecObjectChange,
    > {
        seq![spec_compared("pcb-track"@, None, o.id, n.id, method, track_fields(o, n))]
    }

    open spec fn spec_removed_reports(v: SpecTrack) -> Seq<SpecObjectChange> {
        seq![spec_removed("pcb-track"@, None, v.id)]
    }

    open spec fn spec_added_reports(v: SpecTrack) -> Seq<SpecObjectChange> {
        seq![spec_added("pcb-track"@, None, v.id)]
    }

    fn match_key(&self) -> (k: MatchKey) {
        MatchKey { primary: self.id.0.clone(), fallback: None }
    }

    fn report_pair(&self, new: &Track, method: MatchMethod, changes: &mut Vec<ObjectChange>) {
        let mut fields: Vec<FieldChange> = Vec::new();
        field(
            "start",
            FieldValue::Position(self.start),
            FieldValue::Position(new.start),
            &mut fields,
        );
        field("end", FieldValue::Position(self.end), FieldValue::Position(new.end), &mut fields);
        field(
            "width-mm",
            FieldValue::Length(self.width_mm),
            FieldValue::Length(new.width_mm),
            &mut fields,
        );
        field(
            "layer",
            FieldValue::Text(self.layer.clone()),
            FieldValue::Text(new.layer.clone()),
            &mut fields,
        );
        field(
            "net-id",
            FieldValue::OptionalId(copy_optional_id(&self.net_id)),
            FieldValue::OptionalId(copy_optional_id(&new.net_id)),
            &mut fields,
        );
        assert(field_views(fields@) =~= track_fields(self@, new@));
        push_change(
            changes,
            ObjectChange::compared(
                "pcb-track",
                None,
                self.id.duplicate(),
                new.id.duplicate(),
                method,
                fields,
            ),
        );
    }

    fn report_removed(&self, changes: &mut Vec<ObjectChange>) {
        push_change(changes, ObjectChange::removed("pcb-track", None, self.id.duplicate()));
    }

    fn report_added(&self, changes: &mut Vec<ObjectChange>) {
        push_change(changes, ObjectChange::added("pcb-track", None, self.id.duplicate()));
    }
}

// ---------------------------------------------------------------------------
// Vias: paired by identifier only.

pub open spec fn via_fields(o: SpecVia, n: SpecVia) -> Seq<SpecFieldChange> {
    field_check(
        "position"@,
        SpecFieldValue::Position(o.position),
        SpecFieldValue::Position(n.position),
    ) + field_check(
        "diameter-mm"@,
        SpecFieldValue::Length(o.diameter_mm),
        SpecFieldValue::Length(n.diameter_mm),
    ) + field_check(
        "drill-mm"@,
        SpecFieldValue::Length(o.drill_mm),
        SpecFieldValue::Length(n.drill_mm),
    ) + field_check(
        "net-id"@,
        SpecFieldValue::OptionalId(o.net_id),
        SpecFieldValue::OptionalId(n.net_id),
    )
}

impl Comparable for Via {
    open spec fn spec_key(v: SpecVia) -> SpecMatchKey {
        SpecMatchKey { primary: v.id, fallback: None }
    }

    open spec fn spec_pair_reports(o: SpecVia, n: SpecVia, method: MatchMethod) -> Seq<
        SpecObjectChange,
    > {
        seq![spec_compared("pcb-via"@, None, o.id, n.id, method, via_fields(o, n))]
    }

    open spec fn spec_removed_reports(v: SpecVia) -> Seq<SpecObjectChange> {
        seq![spec_removed("pcb-via"@, None, v.id)]
    }

    open spec fn spec_added_reports(v: SpecVia) -> Seq<SpecObjectChange> {
        seq![spec_added("pcb-via"@, None, v.id)]
    }

    fn match_key(&self) -> (k: MatchKey) {
        MatchKey { primary: self.id.0.clone(), fallback: None }
    }

    fn report_pair(&self, new: &Via, method: MatchMethod, changes: &mut Vec<ObjectChange>) {
        let mut fields: Vec<FieldChange> = Vec::new();
        field(
            "position",
            FieldValue::Position(self.position),
            FieldValue::Position(new.position),
            &mut fields,
        );
        field(
            "diameter-mm",
            FieldValue::Length(self.diameter_mm),
            FieldValue::Length(new.diameter_mm),
            &mut fields,
        );
        field(
            "drill-mm",
            FieldValue::Length(self.drill_mm),
            FieldValue::Length(new.drill_mm),
            &mut fields,
        );
        field(
            "net-id",
            FieldValue::OptionalId(copy_optional_id(&self.net_id)),
            FieldValue::OptionalId(copy_optional_id(&new.net_id)),
            &mut fields,
        );
        assert(field_views(fields@) =~= via_fields(self@, new@));
        push_change(
            changes,
            ObjectChange::compared(
                "pcb-via",
                None,
                self.id.duplicate(),
                new.id.duplicate(),
                method,
                fields,
            ),
        );
    }

    fn report_removed(&self, changes: &mut Vec<ObjectChange>) {
        push_change(changes, ObjectChange::removed("pcb-via", None, self.id.duplicate()));
    }

    fn report_added(&self, changes: &mut Vec<ObjectChange>) {
        push_change(changes, ObjectChange::added("pcb-via", None, self.id.duplicate()));
    }
}

// ---------------------------------------------------------------------------
// Nets: paired by identifier, then by name.

pub open spec fn net_fields(o: SpecNet, n: SpecNet) -> Seq<SpecFieldChange> {
    field_check("name"@, SpecFieldValue::Text(o.name), SpecFieldValue::Text(n.name))
}

impl Comparable for Net {
    open spec fn spec_key(v: SpecNet) -> SpecMatchKey {
        SpecMatchKey { primary: v.id, fallback: non_empty_text(v.name) }
    }

    open spec fn spec_pair_reports(o: SpecNet, n: SpecNet, method: MatchMethod) -> Seq<
        SpecObjectChange,
    > {
        seq![
            spec_compared(
                "pcb-net"@,
                first_present(non_empty_text(n.name), non_empty_text(o.name)),
                o.id,
                n.id,
                method,
                net_fields(o, n),
            ),
        ]
    }

    open spec fn spec_removed_reports(v: SpecNet) -> Seq<SpecObjectChange> {
        seq![spec_removed("pcb-net"@, non_empty_text(v.name), v.id)]
    }

    open spec fn spec_added_reports(v: SpecNet) -> Seq<SpecObjectChange> {
        seq![spec_added("pcb-net"@, non_empty_text(v.name), v.id)]
    }

    fn match_key(&self) -> (k: MatchKey) {
        MatchKey { primary: self.id.0.clone(), fallback: non_empty(&self.name) }
    }

    fn report_pair(&self, new: &Net, method: MatchMethod, changes: &mut Vec<ObjectChange>) {
        let mut fields: Vec<FieldChange> = Vec::new();
        field(
            "name",
            FieldValue::Text(self.name.clone()),
            FieldValue::Text(new.name.clone()),
            &mut fields,
        );
        assert(field_views(fields@) =~= net_fields(self@, new@));
        let name = or_else_text(non_empty(&new.name), non_empty(&self.name));
        push_change(
            changes,
            ObjectChange::compared(
                "pcb-net",
                name,
                self.id.duplicate(),
                new.id.duplicate(),
                method,
                fields,
            ),
        );
    }

    fn report_removed(&self, changes: &mut Vec<ObjectChange>) {
        push_change(
            changes,
            ObjectChange::removed("pcb-net", non_empty(&self.name), self.id.duplicate()),
        );
    }

    fn report_added(&self, changes: &mut Vec<ObjectChange>) {
        push_change(changes, ObjectChange::added("pcb-net", non_empty(&self.name), self.id.duplicate()));
    }
}

// ---------------------------------------------------------------------------
// Board edges: paired by identifier only, compared as whole geometry.

pub open spec fn edge_fields(o: SpecBoardEdge, n: SpecBoardEdge) -> Seq<SpecFieldChange> {
    field_check("geometry"@, SpecFieldValue::Edge(o), SpecFieldValue::Edge(n))
}

impl Comparable for BoardEdge {
    open spec fn spec_key(v: SpecBoardEdge) -> SpecMatchKey {
        SpecMatchKey { primary: v.id(), fallback: None }
    }

    open spec fn spec_pair_reports(o: SpecBoardEdge, n: SpecBoardEdge, method: MatchMethod) -> Seq<
        SpecObjectChange,
    > {
        seq![spec_compared("pcb-board-edge"@, None, o.id(), n.id(), method, edge_fields(o, n))]
    }

    open spec fn spec_removed_reports(v: SpecBoardEdge) -> Seq<SpecObjectChange> {
        seq![spec_removed("pcb-board-edge"@, None, v.id())]
    }

    open spec fn spec_added_reports(v: SpecBoardEdge) -> Seq<SpecObjectChange> {
        seq![spec_added("pcb-board-edge"@, None, v.id())]
    }

    fn match_key(&self) -> (k: MatchKey) {
        MatchKey { primary: edge_id(self), fallback: None }
    }

    fn report_pair(&self, new: &BoardEdge, method: MatchMethod, changes: &mut Vec<ObjectChange>) {
        let mut fields: Vec<FieldChange> = Vec::new();
        field("geometry", FieldValue::Edge(copy_edge(self)), FieldValue::Edge(copy_edge(new)), &mut fields);
        assert(field_views(fields@) =~= edge_fields(self@, new@));
        push_change(
            changes,
            ObjectChange::compared(
                "pcb-board-edge",
                None,
                edge_object_id(self),
                edge_object_id(new),
                method,
                fields,
            ),
        );
    }

    fn report_removed(&self, changes: &mut Vec<ObjectChange>) {
        push_change(changes, ObjectChange::removed("pcb-board-edge", None, edge_object_id(self)));
    }

    fn report_added(&self, changes: &mut Vec<ObjectChange>) {
        push_change(changes, ObjectChange::added("pcb-board-edge", None, edge_object_id(self)));
    }
}

// ---------------------------------------------------------------------------
// Whole boards.

/// The reports on two revisions of a board: footprints (each followed by its
/// pads), tracks, vias, nets and board edges, in that order.
pub open spec fn pcb_changes(b: SpecPcb, a: SpecPcb) -> Seq<SpecObjectChange> {
    object_changes::<Footprint>(b.footprints, a.footprints, MatchMethod::Reference)
        + object_changes::<Track>(b.tracks, a.tracks, MatchMethod::Reference) + object_changes::<
        Via,
    >(b.vias, a.vias, MatchMethod::Reference) + object_changes::<Net>(
        b.nets,
        a.nets,
        MatchMethod::Name,
    ) + object_changes::<BoardEdge>(b.board_outline, a.board_outline, MatchMethod::Reference)
}

/// The semantic diff of two revisions of a board.
pub fn diff_pcb(before: &Pcb, after: &Pcb) -> (report: DiffReport)
    ensures
        report@ == spec_report(pcb_changes(before@, after@)),
{
    assert(views(before.footprints@) =~= before@.footprints);
    assert(views(after.footprints@) =~= after@.footprints);
    assert(views(before.tracks@) =~= before@.tracks);
    assert(views(after.tracks@) =~= after@.tracks);
    assert(views(before.vias@) =~= before@.vias);
    assert(views(after.vias@) =~= after@.vias);
    assert(views(before.nets@) =~= before@.nets);
    assert(views(after.nets@) =~= after@.nets);
    assert(views(before.board_outline@) =~= before@.board_outline);
    assert(views(after.board_outline@) =~= after@.board_outline);
    let mut changes: Vec<ObjectChange> = Vec::new();
    diff_objects(&before.footprints, &after.footprints, MatchMethod::Reference, &mut changes);
    diff_objects(&before.tracks, &after.tracks, MatchMethod::Reference, &mut changes);
    diff_objects(&before.vias, &after.vias, MatchMethod::Reference, &mut changes);
    diff_objects(&before.nets, &after.nets, MatchMethod::Name, &mut changes);
    diff_objects(&before.board_outline, &after.board_outline, MatchMethod::Reference, &mut changes);
    assert(change_views(changes@) =~= pcb_changes(before@, after@));
    DiffReport::new(changes)
}

} // verus!
