//! KiCad schematic to canonical schematic conversion: placed symbols, wires,
//! junctions, labels, and the embedded symbol library. Net inference is left
//! to a later layer, so the converted schematic has no nets.

use vstd::prelude::*;

use super::convert::{convert_all, converted, item_views, FromNode};
use super::native::{
    kicad_id, kicad_object_id, object_native_id, or_empty, property, source_ref, spec_native_id,
    spec_property, spec_source_ref,
};
use super::reader::lexpr_reading;
use super::sexpr::{
    argument, child_number, child_rotation, child_text, child_xy_points, children, has_head,
    optional_text, required_point, spec_argument, spec_child_number, spec_child_rotation,
    spec_child_text, spec_child_xy_points, spec_children, spec_head, spec_required_point,
    syntax_error, text_equals, text_of, tree_refs, SExpr, SpecSExpr,
};
use super::symbol::{parse_definitions, spec_definitions};
use crate::adapter::error::{result_view, AdapterError, SpecAdapterError};
use crate::model::common::{ObjectId, Real, Rotation, MANTISSA_SPAN, SIGN_BIT};
use crate::model::schematic::{
    Junction, Label, LabelKind, Schematic, SpecJunction, SpecLabel, SpecSchematic, SpecSymbol,
    SpecWire, Symbol, Wire,
};

verus! {

// ---------------------------------------------------------------------------
// Numbers of units: `x as u32` for a binary64 `x`.

/// `v` divided by two, `n` times over.
pub open spec fn halve(v: nat, n: nat) -> nat
    decreases n,
{
    if n == 0 {
        v
    } else {
        halve(v / 2, (n - 1) as nat)
    }
}

/// What `x as u32` gives for a binary64 `x`: its integer part, saturated to
/// the range of `u32`, and zero for NaN.
pub open spec fn spec_to_u32(x: Real) -> u32 {
    let e = x.exponent();
    let m = x.0 % MANTISSA_SPAN;
    if x.is_nan() || x.0 >= SIGN_BIT || e < 1023 {
        0
    } else if e >= 1023 + 32 {
        u32::MAX
    } else {
        let t = halve((MANTISSA_SPAN + m) as nat, (52 - (e - 1023)) as nat);
        if t > u32::MAX {
            u32::MAX
        } else {
            t as u32
        }
    }
}

/// The bit pattern of the binary64 number 1.0.
pub const ONE_BITS: u64 = 0x3ff0_0000_0000_0000;

/// `x as u32` for a binary64 `x`.
pub fn real_to_u32(x: Real) -> (r: u32)
    ensures
        r == spec_to_u32(x),
{
    let bits = x.0;
    let e = (bits / MANTISSA_SPAN) % 0x800;
    let m = bits % MANTISSA_SPAN;
    if (e == 0x7ff && m != 0) || bits >= SIGN_BIT || e < 1023 {
        return 0;
    }
    if e >= 1023 + 32 {
        return u32::MAX;
    }
    let steps = 52 - (e - 1023);
    let mut t: u64 = MANTISSA_SPAN + m;
    let mut j: u64 = 0;
    while j < steps
        invariant
            j <= steps,
            halve(t as nat, (steps - j) as nat) == halve((MANTISSA_SPAN + m) as nat, steps as nat),
        decreases steps - j,
    {
        t = t / 2;
        j = j + 1;
    }
    if t > 0xffff_ffff {
        u32::MAX
    } else {
        t as u32
    }
}

// ---------------------------------------------------------------------------
// What the entries of a schematic describe.

/// The message for an object of kind `kind` without native identifier.
pub open spec fn missing_native_message(kind: Seq<char>) -> Seq<char> {
    "KiCad "@ + kind + " is missing a native identifier"@
}

/// The native identifier of an object, which must be present.
pub open spec fn spec_required_native_id(v: SpecSExpr, kind: Seq<char>) -> Result<
    Seq<char>,
    SpecAdapterError,
> {
    match spec_native_id(v) {
        Some(t) => Ok(t),
        None => Err(SpecAdapterError::MissingField(missing_native_message(kind))),
    }
}

/// The unit number of a placed symbol: its `unit` entry, 1 when absent.
pub open spec fn spec_unit_number(v: SpecSExpr) -> u32 {
    match spec_child_number(v, "unit"@) {
        Some(x) => spec_to_u32(x),
        None => 1,
    }
}

/// The placed symbol that a `symbol` entry describes.
pub open spec fn spec_symbol(v: SpecSExpr, path: Seq<char>) -> Result<SpecSymbol, SpecAdapterError> {
    match spec_required_native_id(v, "symbol"@) {
        Err(e) => Err(e),
        Ok(native) => match spec_required_point(v, "at"@) {
            Err(e) => Err(e),
            Ok(position) => Ok(
                SpecSymbol {
                    id: kicad_id(native),
                    reference: or_empty(spec_property(v, "Reference"@)),
                    value: or_empty(spec_property(v, "Value"@)),
                    library_id: match spec_child_text(v, "lib_id"@) {
                        Some(t) => Some(t),
                        None => text_of(spec_argument(v, 0)),
                    },
                    footprint: match spec_property(v, "Footprint"@) {
                        Some(t) => if t.len() == 0 {
                            None
                        } else {
                            Some(t)
                        },
                        None => None,
                    },
                    unit: spec_unit_number(v),
                    position,
                    rotation: Rotation { degrees: spec_child_rotation(v, "at"@) },
                    mirror_x: spec_child_text(v, "mirror"@) == Some("x"@),
                    mirror_y: spec_child_text(v, "mirror"@) == Some("y"@),
                    source: spec_source_ref(path, native),
                },
            ),
        },
    }
}

/// The message for a wire with fewer than two points.
pub open spec fn short_wire_message() -> Seq<char> {
    "KiCad wire must contain at least two points"@
}

/// The wire that a `wire` entry describes; it must have two points or more.
pub open spec fn spec_wire(v: SpecSExpr, path: Seq<char>) -> Result<SpecWire, SpecAdapterError> {
    match spec_required_native_id(v, "wire"@) {
        Err(e) => Err(e),
        Ok(native) => {
            let points = spec_child_xy_points(v, "pts"@);
            if points.len() < 2 {
                Err(SpecAdapterError::MissingField(short_wire_message()))
            } else {
                Ok(SpecWire { id: kicad_id(native), points, source: spec_source_ref(path, native) })
            }
        },
    }
}

/// The junction that a `junction` entry describes.
pub open spec fn spec_junction(v: SpecSExpr, path: Seq<char>) -> Result<
    SpecJunction,
    SpecAdapterError,
> {
    match spec_required_native_id(v, "junction"@) {
        Err(e) => Err(e),
        Ok(native) => match spec_required_point(v, "at"@) {
            Err(e) => Err(e),
            Ok(position) => Ok(
                SpecJunction { id: kicad_id(native), position, source: spec_source_ref(path, native) },
            ),
        },
    }
}

/// The label of kind `kind` that a label entry describes.
pub open spec fn spec_label(v: SpecSExpr, path: Seq<char>, kind: LabelKind) -> Result<
    SpecLabel,
    SpecAdapterError,
> {
    match spec_required_native_id(v, "label"@) {
        Err(e) => Err(e),
        Ok(native) => match spec_required_point(v, "at"@) {
            Err(e) => Err(e),
            Ok(position) => Ok(
                SpecLabel {
                    id: kicad_id(native),
                    name: or_empty(text_of(spec_argument(v, 0))),
                    kind,
                    position,
                    rotation: Rotation { degrees: spec_child_rotation(v, "at"@) },
                    electrical_shape: spec_child_text(v, "shape"@),
                    source: spec_source_ref(path, native),
                },
            ),
        },
    }
}

/// The labels of kind `kind` described by `nodes[..n]`, or the first error.
pub open spec fn labels_upto(nodes: Seq<SpecSExpr>, path: Seq<char>, kind: LabelKind, n: int) -> Result<
    Seq<SpecLabel>,
    SpecAdapterError,
>
    decreases n,
{
    if n <= 0 {
        Ok(seq![])
    } else {
        match labels_upto(nodes, path, kind, n - 1) {
            Err(e) => Err(e),
            Ok(labels) => match spec_label(nodes[n - 1], path, kind) {
                Ok(l) => Ok(labels.push(l)),
                Err(e) => Err(e),
            },
        }
    }
}

/// The labels of kind `kind` of the entries `name` of a schematic.
pub open spec fn labels_of(root: SpecSExpr, name: Seq<char>, path: Seq<char>, kind: LabelKind) -> Result<
    Seq<SpecLabel>,
    SpecAdapterError,
> {
    let nodes = spec_children(root, name);
    labels_upto(nodes, path, kind, nodes.len() as int)
}

/// The labels of a schematic: local, then global, then hierarchical labels,
/// each in file order; or the first error.
pub open spec fn spec_labels(root: SpecSExpr, path: Seq<char>) -> Result<
    Seq<SpecLabel>,
    SpecAdapterError,
> {
    match labels_of(root, "label"@, path, LabelKind::Local) {
        Err(e) => Err(e),
        Ok(local) => match labels_of(root, "global_label"@, path, LabelKind::Global) {
            Err(e) => Err(e),
            Ok(global) => match labels_of(
                root,
                "hierarchical_label"@,
                path,
                LabelKind::Hierarchical,
            ) {
                Err(e) => Err(e),
                Ok(hierarchical) => Ok(local + global + hierarchical),
            },
        },
    }
}

/// The message for a document that is not a schematic.
pub open spec fn not_a_schematic_message() -> Seq<char> {
    "Expected a KiCad .kicad_sch document"@
}

/// The schematic that a `kicad_sch` tree describes, or the first error among
/// its symbols, wires, junctions and labels, in that order.
pub open spec fn spec_schematic(root: SpecSExpr, path: Seq<char>) -> Result<
    SpecSchematic,
    SpecAdapterError,
> {
    if spec_head(root) != Some("kicad_sch"@) {
        Err(SpecAdapterError::UnsupportedFormat(not_a_schematic_message()))
    } else {
        match converted::<Symbol>(spec_children(root, "symbol"@), path, seq![]) {
            Err(e) => Err(e),
            Ok(symbols) => match converted::<Wire>(spec_children(root, "wire"@), path, seq![]) {
                Err(e) => Err(e),
                Ok(wires) => match converted::<Junction>(
                    spec_children(root, "junction"@),
                    path,
                    seq![],
                ) {
                    Err(e) => Err(e),
                    Ok(junctions) => match spec_labels(root, path) {
                        Err(e) => Err(e),
                        Ok(labels) => Ok(
                            SpecSchematic {
                                symbol_definitions: spec_definitions(root),
                                symbols,
                                wires,
                                junctions,
                                labels,
                                nets: seq![],
                            },
                        ),
                    },
                },
            },
        }
    }
}

/// The schematic that KiCad schematic text describes.
pub open spec fn spec_parse_schematic(source: Seq<char>, path: Seq<char>) -> Result<
    SpecSchematic,
    SpecAdapterError,
> {
    match lexpr_reading(source) {
        Ok(root) => spec_schematic(root, path),
        Err(m) => Err(syntax_error(m)),
    }
}

// ---------------------------------------------------------------------------
// Executable conversion.

/// The native identifier of an object of kind `kind`, which must be present.
pub fn required_native_id(value: &SExpr, kind: &str) -> (r: Result<String, AdapterError>)
    ensures
        match r {
            Ok(t) => spec_required_native_id(value@, kind@) == Ok::<Seq<char>, SpecAdapterError>(
                t@,
            ),
            Err(e) => spec_required_native_id(value@, kind@) == Err::<Seq<char>, SpecAdapterError>(
                e@,
            ),
        },
{
    match object_native_id(value) {
        Some(t) => Ok(t),
        None => {
            let mut message = String::from_str("KiCad ");
            message.append(kind);
            message.append(" is missing a native identifier");
            Err(AdapterError::MissingField(message))
        },
    }
}

/// Converts a placed `symbol` entry.
pub fn parse_symbol(value: &SExpr, path: &str) -> (r: Result<Symbol, AdapterError>)
    ensures
        result_view(r) == spec_symbol(value@, path@),
{
    proof {
        reveal_strlit("x");
        reveal_strlit("y");
    }
    let native_id = match required_native_id(value, "symbol") {
        Ok(t) => t,
        Err(e) => return Err(e),
    };
    let library_id = match child_text(value, "lib_id") {
        Some(t) => Some(t.to_owned()),
        None => match optional_text(argument(value, 0)) {
            Some(t) => Some(t.to_owned()),
            None => None,
        },
    };
    let reference = match property(value, "Reference") {
        Some(t) => t,
        None => String::new(),
    };
    let val = match property(value, "Value") {
        Some(t) => t,
        None => String::new(),
    };
    let footprint = match property(value, "Footprint") {
        Some(t) => if t.as_str().is_empty() {
            None
        } else {
            Some(t)
        },
        None => None,
    };
    let unit = match child_number(value, "unit") {
        Some(x) => real_to_u32(x),
        None => 1,
    };
    let position = match required_point(value, "at") {
        Ok(p) => p,
        Err(e) => return Err(e),
    };
    let (mirror_x, mirror_y) = match child_text(value, "mirror") {
        Some(m) => (text_equals(m, "x"), text_equals(m, "y")),
        None => (false, false),
    };
    Ok(
        Symbol {
            id: ObjectId(kicad_object_id(native_id.as_str())),
            reference,
            value: val,
            library_id,
            footprint,
            unit,
            position,
            rotation: Rotation { degrees: child_rotation(value, "at") },
            mirror_x,
            mirror_y,
            source: source_ref(path, native_id),
        },
    )
}

/// Converts a `wire` entry.
pub fn parse_wire(value: &SExpr, path: &str) -> (r: Result<Wire, AdapterError>)
    ensures
        result_view(r) == spec_wire(value@, path@),
{
    let native_id = match required_native_id(value, "wire") {
        Ok(t) => t,
        Err(e) => return Err(e),
    };
    let points = child_xy_points(value, "pts");
    if points.len() < 2 {
        return Err(
            AdapterError::MissingField(
                String::from_str("KiCad wire must contain at least two points"),
            ),
        );
    }
    Ok(
        Wire {
            id: ObjectId(kicad_object_id(native_id.as_str())),
            points,
            source: source_ref(path, native_id),
        },
    )
}

/// Converts a `junction` entry.
pub fn parse_junction(value: &SExpr, path: &str) -> (r: Result<Junction, AdapterError>)
    ensures
        result_view(r) == spec_junction(value@, path@),
{
    let native_id = match required_native_id(value, "junction") {
        Ok(t) => t,
        Err(e) => return Err(e),
    };
    let position = match required_point(value, "at") {
        Ok(p) => p,
        Err(e) => return Err(e),
    };
    Ok(
        Junction {
            id: ObjectId(kicad_object_id(native_id.as_str())),
            position,
            source: source_ref(path, native_id),
        },
    )
}

/// Converts a label entry of kind `kind`.
pub fn parse_label(value: &SExpr, path: &str, kind: LabelKind) -> (r: Result<Label, AdapterError>)
    ensures
        result_view(r) == spec_label(value@, path@, kind),
{
    let native_id = match required_native_id(value, "label") {
        Ok(t) => t,
        Err(e) => return Err(e),
    };
    let name = match optional_text(argument(value, 0)) {
        Some(t) => t.to_owned(),
        None => String::new(),
    };
    let position = match required_point(value, "at") {
        Ok(p) => p,
        Err(e) => return Err(e),
    };
    let electrical_shape = match child_text(value, "shape") {
        Some(t) => Some(t.to_owned()),
        None => None,
    };
    Ok(
        Label {
            id: ObjectId(kicad_object_id(native_id.as_str())),
            name,
            kind,
            position,
            rotation: Rotation { degrees: child_rotation(value, "at") },
            electrical_shape,
            source: source_ref(path, native_id),
        },
    )
}

proof fn lemma_labels_error_stays(
    nodes: Seq<SpecSExpr>,
    path: Seq<char>,
    kind: LabelKind,
    n: int,
    m: int,
)
    requires
        0 <= n <= m,
        labels_upto(nodes, path, kind, n) is Err,
    ensures
        labels_upto(nodes, path, kind, m) == labels_upto(nodes, path, kind, n),
    decreases m - n,
{
    if n < m {
        lemma_labels_error_stays(nodes, path, kind, n, m - 1);
    }
}

/// Appends the labels of kind `kind` of the entries `name` to `labels`.
fn collect_labels(
    root: &SExpr,
    name: &str,
    path: &str,
    kind: LabelKind,
    labels: &mut Vec<Label>,
) -> (r: Result<(), AdapterError>)
    ensures
        match labels_of(root@, name@, path@, kind) {
            Ok(found) => r is Ok && item_views(final(labels)@) == item_views(old(labels)@) + found,
            Err(e) => r matches Err(x) && x@ == e,
        },
{
    let nodes = children(root, name);
    let ghost ns = spec_children(root@, name@);
    let ghost start = item_views(labels@);
    let mut i: usize = 0;
    while i < nodes.len()
        invariant
            i <= nodes@.len(),
            tree_refs(nodes@) == ns,
            ns == spec_children(root@, name@),
            labels_upto(ns, path@, kind, i as int) matches Ok(found) && item_views(labels@) == start
                + found,
        decreases nodes@.len() - i,
    {
        assert(nodes@[i as int]@ == ns[i as int]);
        let ghost prev = labels@;
        match parse_label(nodes[i], path, kind) {
            Ok(label) => {
                labels.push(label);
                assert(item_views(labels@) =~= item_views(prev).push(label@));
            },
            Err(e) => {
                proof {
                    lemma_labels_error_stays(ns, path@, kind, i + 1, nodes@.len() as int);
                }
                return Err(e);
            },
        }
        i = i + 1;
    }
    Ok(())
}

/// The labels of a schematic: local, then global, then hierarchical labels.
pub fn parse_labels(root: &SExpr, path: &str) -> (r: Result<Vec<Label>, AdapterError>)
    ensures
        match r {
            Ok(labels) => spec_labels(root@, path@) == Ok::<Seq<SpecLabel>, SpecAdapterError>(
                item_views(labels@),
            ),
            Err(e) => spec_labels(root@, path@) == Err::<Seq<SpecLabel>, SpecAdapterError>(e@),
        },
{
    let mut labels: Vec<Label> = Vec::new();
    assert(item_views(labels@) =~= seq![]);
    match collect_labels(root, "label", path, LabelKind::Local, &mut labels) {
        Ok(()) => {},
        Err(e) => return Err(e),
    }
    match collect_labels(root, "global_label", path, LabelKind::Global, &mut labels) {
        Ok(()) => {},
        Err(e) => return Err(e),
    }
    match collect_labels(root, "hierarchical_label", path, LabelKind::Hierarchical, &mut labels) {
        Ok(()) => {},
        Err(e) => return Err(e),
    }
    Ok(labels)
}

impl FromNode for Symbol {
    open spec fn spec_from_node(node: SpecSExpr, path: Seq<char>, ordinals: Seq<i64>) -> Result<
        SpecSymbol,
        SpecAdapterError,
    > {
        spec_symbol(node, path)
    }

    fn from_node(node: &SExpr, path: &str, ordinals: &Vec<i64>) -> (r: Result<Symbol, AdapterError>) {
        parse_symbol(node, path)
    }
}

impl FromNode for Wire {
    open spec fn spec_from_node(node: SpecSExpr, path: Seq<char>, ordinals: Seq<i64>) -> Result<
        SpecWire,
        SpecAdapterError,
    > {
        spec_wire(node, path)
    }

    fn from_node(node: &SExpr, path: &str, ordinals: &Vec<i64>) -> (r: Result<Wire, AdapterError>) {
        parse_wire(node, path)
    }
}

impl FromNode for Junction {
    open spec fn spec_from_node(node: SpecSExpr, path: Seq<char>, ordinals: Seq<i64>) -> Result<
        SpecJunction,
        SpecAdapterError,
    > {
        spec_junction(node, path)
    }

    fn from_node(node: &SExpr, path: &str, ordinals: &Vec<i64>) -> (r: Result<Junction, AdapterError>) {
        parse_junction(node, path)
    }
}

/// Converts a `kicad_sch` tree into a canonical schematic.
pub fn parse_tree(root: &SExpr, path: &str) -> (r: Result<Schematic, AdapterError>)
    ensures
        result_view(r) == spec_schematic(root@, path@),
{
    proof {
        reveal_strlit("kicad_sch");
    }
    if !has_head(root, "kicad_sch") {
        return Err(
            AdapterError::UnsupportedFormat(String::from_str("Expected a KiCad .kicad_sch document")),
        );
    }
    let no_ordinals: Vec<i64> = Vec::new();
    assert(no_ordinals@ =~= seq![]);
    let symbol_definitions = parse_definitions(root);
    let symbol_nodes = children(root, "symbol");
    let symbols = match convert_all::<Symbol>(&symbol_nodes, path, &no_ordinals) {
        Ok(s) => s,
        Err(e) => return Err(e),
    };
    let wire_nodes = children(root, "wire");
    let wires = match convert_all::<Wire>(&wire_nodes, path, &no_ordinals) {
        Ok(w) => w,
        Err(e) => return Err(e),
    };
    let junction_nodes = children(root, "junction");
    let junctions = match convert_all::<Junction>(&junction_nodes, path, &no_ordinals) {
        Ok(j) => j,
        Err(e) => return Err(e),
    };
    let labels = match parse_labels(root, path) {
        Ok(l) => l,
        Err(e) => return Err(e),
    };
    let schematic = Schematic {
        symbol_definitions,
        symbols,
        wires,
        junctions,
        labels,
        nets: Vec::new(),
    };
    assert(schematic@.symbols =~= item_views(schematic.symbols@));
    assert(schematic@.wires =~= item_views(schematic.wires@));
    assert(schematic@.junctions =~= item_views(schematic.junctions@));
    assert(schematic@.labels =~= item_views(schematic.labels@));
    assert(schematic@.nets =~= seq![]);
    Ok(schematic)
}

/// Converts KiCad schematic text into a canonical schematic.
pub fn parse(source: &str, path: &str) -> (r: Result<Schematic, AdapterError>)
    ensures
        result_view(r) == spec_parse_schematic(source@, path@),
{
    let root = match super::sexpr::parse(source) {
        Ok(t) => t,
        Err(e) => return Err(e),
    };
    parse_tree(&root, path)
}

} // verus!
