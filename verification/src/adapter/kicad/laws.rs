//! Laws of the KiCad adapter on pads, labels and symbol definitions: the drill
//! of a pad, the kind of a label, and what each drawing primitive, pin, unit
//! and definition of the embedded symbol library is read as.

use vstd::prelude::*;

use super::pad::{spec_drill, spec_pad};
use super::schematic::{labels_upto, spec_labels, spec_schematic};
use super::sexpr::{
    number_of, number_or, spec_argument, spec_child, spec_child_number, spec_child_rotation,
    spec_child_text, spec_child_xy_points, spec_children, spec_entries, spec_head, spec_point, text_of,
    SpecSExpr,
};
use crate::model::common::Real;
use super::native::or_empty;
use super::symbol::{
    definitions_upto, graphics_upto, pins_upto, spec_definition, spec_definitions, spec_fill,
    spec_graphic, spec_has_drawables, spec_pin, spec_stroke_width, spec_unit, spec_unit_style,
    units_upto,
};
use crate::model::schematic::{LabelKind, SpecLabel, SpecSymbolGraphic, SpecSymbolUnit, SymbolFill};

verus! {

/// The drill of a pad is the number that its `drill` entry gives first: the
/// first argument where it is a number (a round drill, `(drill 1.0)`), else the
/// second (an oval drill, `(drill oval 1.0 2.0)`); a pad without `drill` entry
/// has no drill.
pub proof fn lemma_pad_drill(v: SpecSExpr, path: Seq<char>, ordinals: Seq<i64>)
    ensures
        spec_child(v, "drill"@) is None ==> spec_drill(v) is None,
        spec_child(v, "drill"@) matches Some(d) ==> (number_of(spec_argument(d, 0)) matches Some(
            x,
        ) ==> spec_drill(v) == Some(x)),
        spec_child(v, "drill"@) matches Some(d) ==> (number_of(spec_argument(d, 0)) is None
            ==> spec_drill(v) == number_of(spec_argument(d, 1))),
        spec_pad(v, path, ordinals) matches Ok(p) ==> p.drill_mm == spec_drill(v),
{
}

proof fn lemma_labels_upto(nodes: Seq<SpecSExpr>, path: Seq<char>, kind: LabelKind, n: int)
    requires
        0 <= n <= nodes.len(),
    ensures
        labels_upto(nodes, path, kind, n) matches Ok(ls) ==> ls.len() == n && forall|i: int|
            0 <= i < n ==> (#[trigger] ls[i]).kind == kind && ls[i].name == or_empty(
                text_of(spec_argument(nodes[i], 0)),
            ),
    decreases n,
{
    if n > 0 {
        lemma_labels_upto(nodes, path, kind, n - 1);
    }
}

/// The labels of a schematic: one per `label`, `global_label` and
/// `hierarchical_label` entry, in that order; those of `label` entries are
/// local, those of `global_label` entries global and those of
/// `hierarchical_label` entries hierarchical; each is named by the first
/// argument of its entry.
pub open spec fn labels_read(root: SpecSExpr, labels: Seq<SpecLabel>) -> bool {
    let local = spec_children(root, "label"@);
    let global = spec_children(root, "global_label"@);
    let hierarchical = spec_children(root, "hierarchical_label"@);
    &&& labels.len() == local.len() + global.len() + hierarchical.len()
    &&& forall|i: int|
        0 <= i < local.len() ==> (#[trigger] labels[i]).kind == LabelKind::Local
            && labels[i].name == or_empty(text_of(spec_argument(local[i], 0)))
    &&& forall|i: int|
        0 <= i < global.len() ==> (#[trigger] labels[local.len() + i]).kind == LabelKind::Global
            && labels[local.len() + i].name == or_empty(text_of(spec_argument(global[i], 0)))
    &&& forall|i: int|
        0 <= i < hierarchical.len() ==> (#[trigger] labels[local.len() + global.len() + i]).kind
            == LabelKind::Hierarchical && labels[local.len() + global.len() + i].name == or_empty(
            text_of(spec_argument(hierarchical[i], 0)),
        )
}

/// The labels read from a schematic, alone or as part of the whole
/// schematic, are as `labels_read` says.
pub proof fn lemma_label_kinds(root: SpecSExpr, path: Seq<char>)
    ensures
        spec_labels(root, path) matches Ok(ls) ==> labels_read(root, ls),
        spec_schematic(root, path) matches Ok(s) ==> labels_read(root, s.labels),
{
    let local = spec_children(root, "label"@);
    let global = spec_children(root, "global_label"@);
    let hierarchical = spec_children(root, "hierarchical_label"@);
    lemma_labels_upto(local, path, LabelKind::Local, local.len() as int);
    lemma_labels_upto(global, path, LabelKind::Global, global.len() as int);
    lemma_labels_upto(hierarchical, path, LabelKind::Hierarchical, hierarchical.len() as int);
    if spec_labels(root, path) is Ok {
        let ls = spec_labels(root, path)->Ok_0;
        let a = labels_upto(local, path, LabelKind::Local, local.len() as int)->Ok_0;
        let b = labels_upto(global, path, LabelKind::Global, global.len() as int)->Ok_0;
        let c = labels_upto(hierarchical, path, LabelKind::Hierarchical, hierarchical.len() as int)->Ok_0;
        assert(ls == a + b + c);
        assert forall|i: int| 0 <= i < global.len() implies (#[trigger] ls[local.len() + i]).kind
            == LabelKind::Global && ls[local.len() + i].name == or_empty(
            text_of(spec_argument(global[i], 0)),
        ) by {
            assert(ls[local.len() + i] == b[i]);
        }
        assert forall|i: int| 0 <= i < hierarchical.len() implies (#[trigger] ls[local.len()
            + global.len() + i]).kind == LabelKind::Hierarchical && ls[local.len() + global.len()
            + i].name == or_empty(text_of(spec_argument(hierarchical[i], 0))) by {
            assert(ls[local.len() + global.len() + i] == c[i]);
        }
        assert forall|i: int| 0 <= i < local.len() implies (#[trigger] ls[i]).kind
            == LabelKind::Local && ls[i].name == or_empty(text_of(spec_argument(local[i], 0))) by {
            assert(ls[i] == a[i]);
        }
    }
}

/// The fill of a drawing primitive.
pub open spec fn graphic_fill(g: SpecSymbolGraphic) -> SymbolFill {
    match g {
        SpecSymbolGraphic::Rectangle { fill, .. } => fill,
        SpecSymbolGraphic::Polyline { fill, .. } => fill,
        SpecSymbolGraphic::Circle { fill, .. } => fill,
        SpecSymbolGraphic::Arc { fill, .. } => fill,
    }
}

/// The fill of a drawing primitive follows the type of its `fill` entry:
/// `outline` is an outline fill, `background` a background fill, and any
/// other type, or none, no fill.
pub proof fn lemma_graphic_fill(v: SpecSExpr)
    ensures
        spec_child(v, "fill"@) matches Some(f) && spec_child_text(f, "type"@) == Some("outline"@)
            ==> spec_fill(v) == SymbolFill::Outline,
        spec_child(v, "fill"@) matches Some(f) && spec_child_text(f, "type"@) == Some(
            "background"@,
        ) ==> spec_fill(v) == SymbolFill::Background,
        (spec_child(v, "fill"@) matches Some(f) && spec_child_text(f, "type"@) != Some("outline"@)
            && spec_child_text(f, "type"@) != Some("background"@)) ==> spec_fill(v)
            == SymbolFill::Unfilled,
        spec_child(v, "fill"@) is None ==> spec_fill(v) == SymbolFill::Unfilled,
        spec_graphic(v) matches Some(g) ==> graphic_fill(g) == spec_fill(v),
{
    reveal_strlit("outline");
    reveal_strlit("background");
    assert("background"@[0] != "outline"@[0]);
    assert("background"@ != "outline"@);
}

/// The stroke width of a drawing primitive.
pub open spec fn graphic_stroke(g: SpecSymbolGraphic) -> Real {
    match g {
        SpecSymbolGraphic::Rectangle { stroke_width_mm, .. } => stroke_width_mm,
        SpecSymbolGraphic::Polyline { stroke_width_mm, .. } => stroke_width_mm,
        SpecSymbolGraphic::Circle { stroke_width_mm, .. } => stroke_width_mm,
        SpecSymbolGraphic::Arc { stroke_width_mm, .. } => stroke_width_mm,
    }
}

/// The stroke width of a drawing primitive is the number of the `width`
/// entry of its `stroke` entry, zero without one.
pub proof fn lemma_stroke_width(v: SpecSExpr)
    ensures
        spec_child(v, "stroke"@) is None ==> spec_stroke_width(v) == Real(0),
        spec_child(v, "stroke"@) matches Some(st) ==> spec_stroke_width(v) == number_or(
            spec_child_number(st, "width"@),
            Real(0),
        ),
        spec_graphic(v) matches Some(g) ==> graphic_stroke(g) == spec_stroke_width(v),
{
}

/// A drawing primitive is read by the head of its entry: a `rectangle` with
/// `start` and `end` coordinates spans them; a `polyline` runs through the
/// `xy` points of its `pts` entry; a `circle` with `center` coordinates and a
/// `radius` number has them; an `arc` with `start`, `mid` and `end`
/// coordinates passes through them. Any other entry, or one without what its
/// kind needs, is no drawing primitive.
pub proof fn lemma_graphic_read(v: SpecSExpr)
    ensures
        spec_head(v) == Some("rectangle"@) ==> (spec_graphic(v) is Some <==> (spec_point(
            v,
            "start"@,
        ) is Some && spec_point(v, "end"@) is Some)),
        spec_head(v) == Some("rectangle"@) && spec_graphic(v) is Some ==> (spec_graphic(v)->0 matches SpecSymbolGraphic::Rectangle {
            start,
            end,
            ..
        } && Some(start) == spec_point(v, "start"@) && Some(end) == spec_point(v, "end"@)),
        spec_head(v) == Some("polyline"@) ==> (spec_graphic(v) matches Some(
            SpecSymbolGraphic::Polyline { points, .. },
        ) && points == spec_child_xy_points(v, "pts"@)),
        spec_head(v) == Some("circle"@) ==> (spec_graphic(v) is Some <==> (spec_point(v, "center"@)
            is Some && spec_child_number(v, "radius"@) is Some)),
        spec_head(v) == Some("circle"@) && spec_graphic(v) is Some ==> (spec_graphic(v)->0 matches SpecSymbolGraphic::Circle {
            center,
            radius_mm,
            ..
        } && Some(center) == spec_point(v, "center"@) && Some(radius_mm) == spec_child_number(
            v,
            "radius"@,
        )),
        spec_head(v) == Some("arc"@) ==> (spec_graphic(v) is Some <==> (spec_point(v, "start"@)
            is Some && spec_point(v, "mid"@) is Some && spec_point(v, "end"@) is Some)),
        spec_head(v) == Some("arc"@) && spec_graphic(v) is Some ==> (spec_graphic(v)->0 matches SpecSymbolGraphic::Arc {
            start,
            mid,
            end,
            ..
        } && Some(start) == spec_point(v, "start"@) && Some(mid) == spec_point(v, "mid"@) && Some(
            end,
        ) == spec_point(v, "end"@)),
        spec_head(v) != Some("rectangle"@) && spec_head(v) != Some("polyline"@) && spec_head(v)
            != Some("circle"@) && spec_head(v) != Some("arc"@) ==> spec_graphic(v) is None,
{
    reveal_strlit("rectangle");
    reveal_strlit("polyline");
    reveal_strlit("circle");
    reveal_strlit("arc");
    assert("rectangle"@[0] != "polyline"@[0] && "rectangle"@[0] != "circle"@[0] && "rectangle"@[0]
        != "arc"@[0] && "polyline"@[0] != "circle"@[0] && "polyline"@[0] != "arc"@[0] && "circle"@[0]
        != "arc"@[0]);
}

/// A pin is read from a `pin` entry whose first two arguments are texts and
/// that has `at` coordinates, and only then. Its electrical type and graphic
/// style are those two texts; its number and name the texts of its `number`
/// and `name` entries (empty without them); its position and rotation those
/// of `at`; its length the number of its `length` entry, zero without one.
pub proof fn lemma_pin_read(v: SpecSExpr)
    ensures
        spec_pin(v) is Some <==> (text_of(spec_argument(v, 0)) is Some && text_of(
            spec_argument(v, 1),
        ) is Some && spec_point(v, "at"@) is Some),
        spec_pin(v) matches Some(p) ==> {
            &&& Some(p.electrical_type) == text_of(spec_argument(v, 0))
            &&& Some(p.graphic_style) == text_of(spec_argument(v, 1))
            &&& p.number == or_empty(spec_child_text(v, "number"@))
            &&& p.name == or_empty(spec_child_text(v, "name"@))
            &&& Some(p.position) == spec_point(v, "at"@)
            &&& p.rotation.degrees == spec_child_rotation(v, "at"@)
            &&& p.length_mm == number_or(spec_child_number(v, "length"@), Real(0))
        },
{
}

proof fn lemma_pins_upto(nodes: Seq<SpecSExpr>, n: int)
    requires
        0 <= n <= nodes.len(),
    ensures
        pins_upto(nodes, n).len() <= n,
        forall|j: int| 0 <= j < n && (#[trigger] spec_pin(nodes[j])) is Some ==> pins_upto(nodes, n).contains(
            spec_pin(nodes[j])->0,
        ),
        forall|i: int| 0 <= i < pins_upto(nodes, n).len() ==> exists|j: int|
            0 <= j < n && spec_pin(nodes[j]) == Some(#[trigger] pins_upto(nodes, n)[i]),
        (forall|j: int| 0 <= j < n ==> (#[trigger] spec_pin(nodes[j])) is Some) ==> pins_upto(
            nodes,
            n,
        ).len() == n && forall|j: int| 0 <= j < n ==> spec_pin(nodes[j]) == Some(
            #[trigger] pins_upto(nodes, n)[j],
        ),
    decreases n,
{
    if n > 0 {
        lemma_pins_upto(nodes, n - 1);
        let prev = pins_upto(nodes, n - 1);
        let cur = pins_upto(nodes, n);
        if spec_pin(nodes[n - 1]) is Some {
            assert(cur == prev.push(spec_pin(nodes[n - 1])->0));
            assert forall|j: int| 0 <= j < n && (#[trigger] spec_pin(nodes[j])) is Some implies cur.contains(
                spec_pin(nodes[j])->0,
            ) by {
                if j < n - 1 {
                    let w = choose|w: int| 0 <= w < prev.len() && prev[w] == spec_pin(nodes[j])->0;
                    assert(cur[w] == prev[w]);
                } else {
                    assert(cur[prev.len() as int] == spec_pin(nodes[j])->0);
                }
            }
            assert forall|i: int| 0 <= i < cur.len() implies exists|j: int|
                0 <= j < n && spec_pin(nodes[j]) == Some(#[trigger] cur[i]) by {
                if i < prev.len() {
                    assert(cur[i] == prev[i]);
                    let j = choose|j: int| 0 <= j < n - 1 && spec_pin(nodes[j]) == Some(prev[i]);
                    assert(0 <= j < n && spec_pin(nodes[j]) == Some(cur[i]));
                } else {
                    assert(spec_pin(nodes[n - 1]) == Some(cur[i]));
                }
            }
        } else {
            assert(cur == prev);
            assert forall|i: int| 0 <= i < cur.len() implies exists|j: int|
                0 <= j < n && spec_pin(nodes[j]) == Some(#[trigger] cur[i]) by {
                let j = choose|j: int| 0 <= j < n - 1 && spec_pin(nodes[j]) == Some(prev[i]);
                assert(0 <= j < n && spec_pin(nodes[j]) == Some(cur[i]));
            }
        }
    }
}

proof fn lemma_graphics_upto(nodes: Seq<SpecSExpr>, n: int)
    requires
        0 <= n <= nodes.len(),
    ensures
        forall|j: int| 0 <= j < n && (#[trigger] spec_graphic(nodes[j])) is Some ==> graphics_upto(
            nodes,
            n,
        ).contains(spec_graphic(nodes[j])->0),
        forall|i: int| 0 <= i < graphics_upto(nodes, n).len() ==> exists|j: int|
            0 <= j < n && spec_graphic(nodes[j]) == Some(#[trigger] graphics_upto(nodes, n)[i]),
    decreases n,
{
    if n > 0 {
        lemma_graphics_upto(nodes, n - 1);
        let prev = graphics_upto(nodes, n - 1);
        let cur = graphics_upto(nodes, n);
        if spec_graphic(nodes[n - 1]) is Some {
            assert(cur == prev.push(spec_graphic(nodes[n - 1])->0));
            assert forall|j: int| 0 <= j < n && (#[trigger] spec_graphic(nodes[j])) is Some implies cur.contains(
                spec_graphic(nodes[j])->0,
            ) by {
                if j < n - 1 {
                    let w = choose|w: int| 0 <= w < prev.len() && prev[w] == spec_graphic(nodes[j])->0;
                    assert(cur[w] == prev[w]);
                } else {
                    assert(cur[prev.len() as int] == spec_graphic(nodes[j])->0);
                }
            }
            assert forall|i: int| 0 <= i < cur.len() implies exists|j: int|
                0 <= j < n && spec_graphic(nodes[j]) == Some(#[trigger] cur[i]) by {
                if i < prev.len() {
                    assert(cur[i] == prev[i]);
                    let j = choose|j: int| 0 <= j < n - 1 && spec_graphic(nodes[j]) == Some(prev[i]);
                    assert(0 <= j < n && spec_graphic(nodes[j]) == Some(cur[i]));
                } else {
                    assert(spec_graphic(nodes[n - 1]) == Some(cur[i]));
                }
            }
        } else {
            assert(cur == prev);
            assert forall|i: int| 0 <= i < cur.len() implies exists|j: int|
                0 <= j < n && spec_graphic(nodes[j]) == Some(#[trigger] cur[i]) by {
                let j = choose|j: int| 0 <= j < n - 1 && spec_graphic(nodes[j]) == Some(prev[i]);
                assert(0 <= j < n && spec_graphic(nodes[j]) == Some(cur[i]));
            }
        }
    }
}

/// A unit drawn by a symbol entry has the unit and style numbers it is given.
/// Its drawing primitives are those its entries are read as: every entry
/// read as a primitive gives one, and every primitive comes from an entry.
/// Its pins are those its `pin` entries are read as, in the same way; where
/// every `pin` entry can be read, one pin per entry, in order.
pub proof fn lemma_unit_read(v: SpecSExpr, unit: u32, style: u32)
    ensures
        spec_unit(v, unit, style).unit == unit && spec_unit(v, unit, style).style == style,
        forall|j: int|
            0 <= j < spec_entries(v).len() && (#[trigger] spec_graphic(spec_entries(v)[j])) is Some
                ==> spec_unit(v, unit, style).graphics.contains(spec_graphic(spec_entries(v)[j])->0),
        forall|i: int|
            0 <= i < spec_unit(v, unit, style).graphics.len() ==> exists|j: int|
                0 <= j < spec_entries(v).len() && spec_graphic(spec_entries(v)[j]) == Some(
                    #[trigger] spec_unit(v, unit, style).graphics[i],
                ),
        forall|j: int|
            0 <= j < spec_children(v, "pin"@).len() && (#[trigger] spec_pin(
                spec_children(v, "pin"@)[j],
            )) is Some ==> spec_unit(v, unit, style).pins.contains(
                spec_pin(spec_children(v, "pin"@)[j])->0,
            ),
        forall|i: int|
            0 <= i < spec_unit(v, unit, style).pins.len() ==> exists|j: int|
                0 <= j < spec_children(v, "pin"@).len() && spec_pin(spec_children(v, "pin"@)[j])
                    == Some(#[trigger] spec_unit(v, unit, style).pins[i]),
        (forall|j: int|
            0 <= j < spec_children(v, "pin"@).len() ==> (#[trigger] spec_pin(
                spec_children(v, "pin"@)[j],
            )) is Some) ==> spec_unit(v, unit, style).pins.len() == spec_children(v, "pin"@).len()
            && forall|j: int|
            0 <= j < spec_children(v, "pin"@).len() ==> spec_pin(spec_children(v, "pin"@)[j])
                == Some(#[trigger] spec_unit(v, unit, style).pins[j]),
{
    let entries = spec_entries(v);
    let pins = spec_children(v, "pin"@);
    lemma_graphics_upto(entries, entries.len() as int);
    lemma_pins_upto(pins, pins.len() as int);
}

proof fn lemma_pins_filter(nodes: Seq<SpecSExpr>, n: int)
    requires
        0 <= n <= nodes.len(),
    ensures
        pins_upto(nodes, n) == nodes.take(n).filter_map(|x: SpecSExpr| spec_pin(x)),
    decreases n,
{
    if n > 0 {
        lemma_pins_filter(nodes, n - 1);
        assert(nodes.take(n).drop_last() =~= nodes.take(n - 1));
    }
}

proof fn lemma_graphics_filter(nodes: Seq<SpecSExpr>, n: int)
    requires
        0 <= n <= nodes.len(),
    ensures
        graphics_upto(nodes, n) == nodes.take(n).filter_map(|x: SpecSExpr| spec_graphic(x)),
    decreases n,
{
    if n > 0 {
        lemma_graphics_filter(nodes, n - 1);
        assert(nodes.take(n).drop_last() =~= nodes.take(n - 1));
    }
}

/// The drawing primitives of a unit are those its entries are read as, in
/// file order, and its pins those its `pin` entries are read as, in file
/// order; entries that are not read as one give none.
pub proof fn lemma_unit_contents(v: SpecSExpr, unit: u32, style: u32)
    ensures
        spec_unit(v, unit, style).graphics == spec_entries(v).filter_map(
            |x: SpecSExpr| spec_graphic(x),
        ),
        spec_unit(v, unit, style).pins == spec_children(v, "pin"@).filter_map(
            |x: SpecSExpr| spec_pin(x),
        ),
{
    let entries = spec_entries(v);
    let pins = spec_children(v, "pin"@);
    lemma_graphics_filter(entries, entries.len() as int);
    lemma_pins_filter(pins, pins.len() as int);
    assert(entries.take(entries.len() as int) =~= entries);
    assert(pins.take(pins.len() as int) =~= pins);
}

/// The unit and style that the name of the `k`-th unit symbol of a library
/// symbol gives.
pub open spec fn unit_of_child(v: SpecSExpr, k: int) -> Option<(u32, u32)> {
    match text_of(spec_argument(spec_children(v, "symbol"@)[k], 0)) {
        Some(id) => spec_unit_style(id),
        None => None,
    }
}

/// The unit that the `k`-th unit symbol of a library symbol is read as, with
/// the unit and style numbers its name gives.
pub open spec fn child_unit_read(v: SpecSExpr, k: int) -> Option<SpecSymbolUnit> {
    match unit_of_child(v, k) {
        Some((unit, style)) => Some(spec_unit(spec_children(v, "symbol"@)[k], unit, style)),
        None => None,
    }
}

proof fn lemma_units_upto(v: SpecSExpr, n: int)
    requires
        0 <= n <= spec_children(v, "symbol"@).len(),
    ensures
        units_upto(spec_children(v, "symbol"@), n) is Some <==> forall|k: int|
            0 <= k < n ==> (#[trigger] unit_of_child(v, k)) is Some,
        units_upto(spec_children(v, "symbol"@), n) matches Some(us) ==> us.len() == n && forall|k: int|
            0 <= k < n ==> Some(#[trigger] us[k]) == child_unit_read(v, k),
    decreases n,
{
    if n > 0 {
        lemma_units_upto(v, n - 1);
        let nodes = spec_children(v, "symbol"@);
        if units_upto(nodes, n) is Some {
            assert forall|k: int| 0 <= k < n implies (#[trigger] unit_of_child(v, k)) is Some by {
                if k == n - 1 {
                    assert(units_upto(nodes, n - 1) is Some);
                }
            }
        }
        if forall|k: int| 0 <= k < n ==> (#[trigger] unit_of_child(v, k)) is Some {
            assert(unit_of_child(v, n - 1) is Some);
            assert(units_upto(nodes, n - 1) is Some);
        }
    }
}

/// A library symbol is read as a definition when it has a name and every unit
/// symbol inside it is named `<name>_<unit>_<style>`; its library identifier
/// is that name. Its units are, first, unit 0 style 0 for what it draws
/// itself where it draws anything, then one unit per unit symbol, in order,
/// with the unit and style numbers its name gives.
pub proof fn lemma_definition_read(v: SpecSExpr)
    ensures
        spec_definition(v) is Some <==> (text_of(spec_argument(v, 0)) is Some && forall|k: int|
            0 <= k < spec_children(v, "symbol"@).len() ==> (#[trigger] unit_of_child(v, k)) is Some),
        spec_definition(v) matches Some(d) ==> {
            let own = if spec_has_drawables(v) { 1int } else { 0int };
            &&& Some(d.library_id) == text_of(spec_argument(v, 0))
            &&& d.units.len() == own + spec_children(v, "symbol"@).len()
            &&& (spec_has_drawables(v) ==> d.units[0] == spec_unit(v, 0, 0))
            &&& forall|k: int|
                0 <= k < spec_children(v, "symbol"@).len() ==> Some(#[trigger] d.units[own + k])
                    == child_unit_read(v, k)
        },
{
    let nodes = spec_children(v, "symbol"@);
    lemma_units_upto(v, nodes.len() as int);
    if spec_definition(v) is Some {
        let d = spec_definition(v)->0;
        let us = units_upto(nodes, nodes.len() as int)->0;
        let own = if spec_has_drawables(v) { 1int } else { 0int };
        assert forall|k: int| 0 <= k < nodes.len() implies Some(#[trigger] d.units[own + k])
            == child_unit_read(v, k) by {
            assert(d.units[own + k] == us[k]);
        }
    }
}

proof fn lemma_definitions_filter(nodes: Seq<SpecSExpr>, n: int)
    requires
        0 <= n <= nodes.len(),
    ensures
        definitions_upto(nodes, n) == nodes.take(n).filter_map(|x: SpecSExpr| spec_definition(x)),
    decreases n,
{
    if n > 0 {
        lemma_definitions_filter(nodes, n - 1);
        assert(nodes.take(n).drop_last() =~= nodes.take(n - 1));
    }
}

/// The symbol definitions of a schematic are those its `symbol` entries
/// under `lib_symbols` are read as, in file order; a schematic without
/// `lib_symbols` has none.
pub proof fn lemma_definitions_read(root: SpecSExpr)
    ensures
        spec_child(root, "lib_symbols"@) is None ==> spec_definitions(root).len() == 0,
        spec_child(root, "lib_symbols"@) is Some ==> spec_definitions(root) == spec_children(
            spec_child(root, "lib_symbols"@)->0,
            "symbol"@,
        ).filter_map(|x: SpecSExpr| spec_definition(x)),
{
    if spec_child(root, "lib_symbols"@) is Some {
        let nodes = spec_children(spec_child(root, "lib_symbols"@)->0, "symbol"@);
        lemma_definitions_filter(nodes, nodes.len() as int);
        assert(nodes.take(nodes.len() as int) =~= nodes);
    }
}

} // verus!
