//! KiCad PCB to canonical PCB conversion.

use vstd::prelude::*;

use super::convert::{convert_all, converted, item_views, FromNode};
use super::native::{
    decimal, integer_text, kicad_id, kicad_object_id, native_id_or_unknown, native_or_unknown,
    or_empty, property, source_ref, spec_property, spec_source_ref,
};
use super::outline::{edges_view, spec_outline};
use super::reader::lexpr_reading;
use super::sexpr::{
    argument, argument_of, arguments_text, child, child_number, child_text, children, has_head,
    integer_of, number_of, number_or, optional_argument, optional_integer, optional_number,
    optional_text, required_point, spec_argument, spec_arguments_text, spec_child,
    spec_child_number, spec_child_text, spec_children, spec_head, spec_required_point, syntax_error,
    text_of, tree_refs, SExpr, SpecSExpr,
};
use crate::adapter::error::{result_view, AdapterError, SpecAdapterError};
use crate::model::common::{ObjectId, Real, Rotation};
use crate::model::pcb::{
    Footprint, Net, Pad, Pcb, SpecFootprint, SpecNet, SpecPad, SpecPcb, SpecTrack, SpecVia, Track,
    Via,
};

verus! {

// ---------------------------------------------------------------------------
// Nets.

/// The canonical identifier of the board net with ordinal `k`.
pub open spec fn net_id_text(k: i64) -> Seq<char> {
    "pcb-net:"@ + decimal(k as int)
}

/// The ordinal and name that a `net` entry declares.
pub open spec fn net_entry(node: SpecSExpr) -> Option<(i64, Seq<char>)> {
    match (integer_of(spec_argument(node, 0)), text_of(spec_argument(node, 1))) {
        (Some(k), Some(name)) => Some((k, name)),
        _ => None,
    }
}

/// The nets declared by `nodes[..n]`, skipping entries without ordinal or name.
pub open spec fn nets_upto(nodes: Seq<SpecSExpr>, n: int) -> Seq<SpecNet>
    decreases n,
{
    if n <= 0 {
        seq![]
    } else {
        nets_upto(nodes, n - 1) + match net_entry(nodes[n - 1]) {
            Some((k, name)) => seq![SpecNet { id: net_id_text(k), name }],
            None => seq![],
        }
    }
}

/// The ordinals of the nets declared by `nodes[..n]`.
pub open spec fn ordinals_upto(nodes: Seq<SpecSExpr>, n: int) -> Seq<i64>
    decreases n,
{
    if n <= 0 {
        seq![]
    } else {
        ordinals_upto(nodes, n - 1) + match net_entry(nodes[n - 1]) {
            Some((k, _)) => seq![k],
            None => seq![],
        }
    }
}

/// The nets of a board.
pub open spec fn spec_nets(root: SpecSExpr) -> Seq<SpecNet> {
    let nodes = spec_children(root, "net"@);
    nets_upto(nodes, nodes.len() as int)
}

/// The ordinals of the nets of a board.
pub open spec fn spec_net_ordinals(root: SpecSExpr) -> Seq<i64> {
    let nodes = spec_children(root, "net"@);
    ordinals_upto(nodes, nodes.len() as int)
}

/// The net an object belongs to: the board net whose ordinal its `net` entry
/// names, if the board declares one.
pub open spec fn spec_net_reference(v: SpecSExpr, ordinals: Seq<i64>) -> Option<Seq<char>> {
    match integer_of(argument_of(spec_child(v, "net"@), 0)) {
        Some(k) => if ordinals.contains(k) {
            Some(net_id_text(k))
        } else {
            None
        },
        None => None,
    }
}

// ---------------------------------------------------------------------------
// Footprints, tracks and vias.

/// The footprint that a `footprint` entry describes.
pub open spec fn spec_footprint(v: SpecSExpr, path: Seq<char>, ordinals: Seq<i64>) -> Result<
    SpecFootprint,
    SpecAdapterError,
> {
    let native = native_or_unknown(v);
    match spec_required_point(v, "at"@) {
        Err(e) => Err(e),
        Ok(position) => match converted::<Pad>(spec_children(v, "pad"@), path, ordinals) {
            Err(e) => Err(e),
            Ok(pads) => Ok(
                SpecFootprint {
                    id: kicad_id(native),
                    reference: or_empty(spec_property(v, "Reference"@)),
                    value: or_empty(spec_property(v, "Value"@)),
                    library_link: text_of(spec_argument(v, 0)),
                    position,
                    rotation: Rotation {
                        degrees: number_or(
                            number_of(argument_of(spec_child(v, "at"@), 2)),
                            Real(0),
                        ),
                    },
                    layer: or_empty(spec_child_text(v, "layer"@)),
                    pads,
                    source: spec_source_ref(path, native),
                },
            ),
        },
    }
}

/// The track that a `segment` entry describes.
pub open spec fn spec_track(v: SpecSExpr, path: Seq<char>, ordinals: Seq<i64>) -> Result<
    SpecTrack,
    SpecAdapterError,
> {
    let native = native_or_unknown(v);
    match spec_required_point(v, "start"@) {
        Err(e) => Err(e),
        Ok(start) => match spec_required_point(v, "end"@) {
            Err(e) => Err(e),
            Ok(end) => Ok(
                SpecTrack {
                    id: kicad_id(native),
                    start,
                    end,
                    width_mm: number_or(spec_child_number(v, "width"@), Real(0)),
                    layer: or_empty(spec_child_text(v, "layer"@)),
                    net_id: spec_net_reference(v, ordinals),
                    source: spec_source_ref(path, native),
                },
            ),
        },
    }
}

/// The via that a `via` entry describes.
pub open spec fn spec_via(v: SpecSExpr, path: Seq<char>, ordinals: Seq<i64>) -> Result<
    SpecVia,
    SpecAdapterError,
> {
    let native = native_or_unknown(v);
    match spec_required_point(v, "at"@) {
        Err(e) => Err(e),
        Ok(position) => Ok(
            SpecVia {
                id: kicad_id(native),
                position,
                diameter_mm: number_or(spec_child_number(v, "size"@), Real(0)),
                drill_mm: number_or(spec_child_number(v, "drill"@), Real(0)),
                layers: match spec_child(v, "layers"@) {
                    Some(l) => spec_arguments_text(l),
                    None => seq![],
                },
                net_id: spec_net_reference(v, ordinals),
                source: spec_source_ref(path, native),
            },
        ),
    }
}

// ---------------------------------------------------------------------------
// Whole boards.

/// The message for a document that is not a board.
pub open spec fn not_a_board_message() -> Seq<char> {
    "Expected a KiCad .kicad_pcb document"@
}

/// The board that a `kicad_pcb` tree describes: its nets, footprints, tracks,
/// vias and board outline; or the first error, in that order.
pub open spec fn spec_board(root: SpecSExpr, path: Seq<char>) -> Result<SpecPcb, SpecAdapterError> {
    if spec_head(root) != Some("kicad_pcb"@) {
        Err(SpecAdapterError::UnsupportedFormat(not_a_board_message()))
    } else {
        let ordinals = spec_net_ordinals(root);
        match converted::<Footprint>(spec_children(root, "footprint"@), path, ordinals) {
            Err(e) => Err(e),
            Ok(footprints) => match converted::<Track>(
                spec_children(root, "segment"@),
                path,
                ordinals,
            ) {
                Err(e) => Err(e),
                Ok(tracks) => match converted::<Via>(spec_children(root, "via"@), path, ordinals) {
                    Err(e) => Err(e),
                    Ok(vias) => match spec_outline(root, path) {
                        Err(e) => Err(e),
                        Ok(board_outline) => Ok(
                            SpecPcb {
                                layers: seq![],
                                footprints,
                                tracks,
                                vias,
                                nets: spec_nets(root),
                                board_outline,
                            },
                        ),
                    },
                },
            },
        }
    }
}

/// The board that KiCad PCB text describes.
pub open spec fn spec_parse_pcb(source: Seq<char>, path: Seq<char>) -> Result<
    SpecPcb,
    SpecAdapterError,
> {
    match lexpr_reading(source) {
        Ok(root) => spec_board(root, path),
        Err(m) => Err(syntax_error(m)),
    }
}

// ---------------------------------------------------------------------------
// Executable conversion.

/// The net an object belongs to, among the board nets with `net_ordinals`.
pub fn net_reference(value: &SExpr, net_ordinals: &Vec<i64>) -> (r: Option<ObjectId>)
    ensures
        match r {
            Some(id) => spec_net_reference(value@, net_ordinals@) == Some(id@),
            None => spec_net_reference(value@, net_ordinals@) is None,
        },
{
    let ordinal = match optional_integer(optional_argument(child(value, "net"), 0)) {
        Some(k) => k,
        None => return None,
    };
    let mut i: usize = 0;
    while i < net_ordinals.len()
        invariant
            i <= net_ordinals@.len(),
            integer_of(argument_of(spec_child(value@, "net"@), 0)) == Some(ordinal),
            forall|x: int| 0 <= x < i ==> net_ordinals@[x] != ordinal,
        decreases net_ordinals@.len() - i,
    {
        if net_ordinals[i] == ordinal {
            let mut id = String::from_str("pcb-net:");
            id.append(integer_text(ordinal).as_str());
            assert(net_ordinals@[i as int] == ordinal);
            assert(net_ordinals@.contains(ordinal));
            return Some(ObjectId(id));
        }
        i = i + 1;
    }
    None
}

/// The nets of a board, with their ordinals.
fn parse_nets(root: &SExpr) -> (r: (Vec<Net>, Vec<i64>))
    ensures
        item_views(r.0@) == spec_nets(root@),
        r.1@ == spec_net_ordinals(root@),
{
    let nodes = children(root, "net");
    let ghost ns = spec_children(root@, "net"@);
    let mut nets: Vec<Net> = Vec::new();
    let mut ordinals: Vec<i64> = Vec::new();
    let mut i: usize = 0;
    while i < nodes.len()
        invariant
            i <= nodes@.len(),
            tree_refs(nodes@) == ns,
            ns == spec_children(root@, "net"@),
            item_views(nets@) == nets_upto(ns, i as int),
            ordinals@ == ordinals_upto(ns, i as int),
        decreases nodes@.len() - i,
    {
        let node = nodes[i];
        assert(node@ == ns[i as int]);
        let ghost prev = nets@;
        match (optional_integer(argument(node, 0)), optional_text(argument(node, 1))) {
            (Some(k), Some(name)) => {
                let mut id = String::from_str("pcb-net:");
                id.append(integer_text(k).as_str());
                let net = Net { id: ObjectId(id), name: name.to_owned() };
                nets.push(net);
                ordinals.push(k);
                assert(item_views(nets@) =~= item_views(prev).push(net@));
            },
            _ => {},
        }
        assert(item_views(nets@) =~= nets_upto(ns, i + 1));
        assert(ordinals@ =~= ordinals_upto(ns, i + 1));
        i = i + 1;
    }
    (nets, ordinals)
}

impl FromNode for Pad {
    open spec fn spec_from_node(node: SpecSExpr, path: Seq<char>, ordinals: Seq<i64>) -> Result<
        SpecPad,
        SpecAdapterError,
    > {
        super::pad::spec_pad(node, path, ordinals)
    }

    fn from_node(node: &SExpr, path: &str, ordinals: &Vec<i64>) -> (r: Result<Pad, AdapterError>) {
        super::pad::parse(node, path, ordinals)
    }
}

impl FromNode for Footprint {
    open spec fn spec_from_node(node: SpecSExpr, path: Seq<char>, ordinals: Seq<i64>) -> Result<
        SpecFootprint,
        SpecAdapterError,
    > {
        spec_footprint(node, path, ordinals)
    }

    fn from_node(node: &SExpr, path: &str, ordinals: &Vec<i64>) -> (r: Result<Footprint, AdapterError>) {
        parse_footprint(node, path, ordinals)
    }
}

impl FromNode for Track {
    open spec fn spec_from_node(node: SpecSExpr, path: Seq<char>, ordinals: Seq<i64>) -> Result<
        SpecTrack,
        SpecAdapterError,
    > {
        spec_track(node, path, ordinals)
    }

    fn from_node(node: &SExpr, path: &str, ordinals: &Vec<i64>) -> (r: Result<Track, AdapterError>) {
        parse_track(node, path, ordinals)
    }
}

impl FromNode for Via {
    open spec fn spec_from_node(node: SpecSExpr, path: Seq<char>, ordinals: Seq<i64>) -> Result<
        SpecVia,
        SpecAdapterError,
    > {
        spec_via(node, path, ordinals)
    }

    fn from_node(node: &SExpr, path: &str, ordinals: &Vec<i64>) -> (r: Result<Via, AdapterError>) {
        parse_via(node, path, ordinals)
    }
}

/// Converts a `footprint` entry, with its pads.
pub fn parse_footprint(value: &SExpr, path: &str, net_ordinals: &Vec<i64>) -> (r: Result<
    Footprint,
    AdapterError,
>)
    ensures
        result_view(r) == spec_footprint(value@, path@, net_ordinals@),
{
    let native_id = native_id_or_unknown(value);
    let source = source_ref(path, native_id.clone());
    let at = child(value, "at");
    let position = match required_point(value, "at") {
        Ok(p) => p,
        Err(e) => return Err(e),
    };
    let degrees = match optional_number(optional_argument(at, 2)) {
        Some(x) => x,
        None => Real::zero(),
    };
    let pad_nodes = children(value, "pad");
    let pads = match convert_all::<Pad>(&pad_nodes, path, net_ordinals) {
        Ok(p) => p,
        Err(e) => return Err(e),
    };
    let reference = match property(value, "Reference") {
        Some(t) => t,
        None => String::new(),
    };
    let val = match property(value, "Value") {
        Some(t) => t,
        None => String::new(),
    };
    let library_link = match optional_text(argument(value, 0)) {
        Some(t) => Some(t.to_owned()),
        None => None,
    };
    let layer = match child_text(value, "layer") {
        Some(t) => t.to_owned(),
        None => String::new(),
    };
    let footprint = Footprint {
        id: ObjectId(kicad_object_id(native_id.as_str())),
        reference,
        value: val,
        library_link,
        position,
        rotation: Rotation { degrees },
        layer,
        pads,
        source,
    };
    assert(footprint@.pads =~= item_views(footprint.pads@));
    Ok(footprint)
}

/// Converts a `segment` entry.
pub fn parse_track(value: &SExpr, path: &str, net_ordinals: &Vec<i64>) -> (r: Result<
    Track,
    AdapterError,
>)
    ensures
        result_view(r) == spec_track(value@, path@, net_ordinals@),
{
    let native_id = native_id_or_unknown(value);
    let start = match required_point(value, "start") {
        Ok(p) => p,
        Err(e) => return Err(e),
    };
    let end = match required_point(value, "end") {
        Ok(p) => p,
        Err(e) => return Err(e),
    };
    let width_mm = match child_number(value, "width") {
        Some(x) => x,
        None => Real::zero(),
    };
    let layer = match child_text(value, "layer") {
        Some(t) => t.to_owned(),
        None => String::new(),
    };
    Ok(
        Track {
            id: ObjectId(kicad_object_id(native_id.as_str())),
            start,
            end,
            width_mm,
            layer,
            net_id: net_reference(value, net_ordinals),
            source: source_ref(path, native_id),
        },
    )
}

/// Converts a `via` entry.
pub fn parse_via(value: &SExpr, path: &str, net_ordinals: &Vec<i64>) -> (r: Result<
    Via,
    AdapterError,
>)
    ensures
        result_view(r) == spec_via(value@, path@, net_ordinals@),
{
    let native_id = native_id_or_unknown(value);
    let position = match required_point(value, "at") {
        Ok(p) => p,
        Err(e) => return Err(e),
    };
    let diameter_mm = match child_number(value, "size") {
        Some(x) => x,
        None => Real::zero(),
    };
    let drill_mm = match child_number(value, "drill") {
        Some(x) => x,
        None => Real::zero(),
    };
    let layers = match child(value, "layers") {
        Some(l) => arguments_text(l),
        None => Vec::new(),
    };
    proof {
        assert(layers.deep_view() =~= match spec_child(value@, "layers"@) {
            Some(l) => spec_arguments_text(l),
            None => seq![],
        });
    }
    Ok(
        Via {
            id: ObjectId(kicad_object_id(native_id.as_str())),
            position,
            diameter_mm,
            drill_mm,
            layers,
            net_id: net_reference(value, net_ordinals),
            source: source_ref(path, native_id),
        },
    )
}

/// Converts a `kicad_pcb` tree into a canonical board.
pub fn parse_tree(root: &SExpr, path: &str) -> (r: Result<Pcb, AdapterError>)
    ensures
        result_view(r) == spec_board(root@, path@),
{
    proof {
        reveal_strlit("kicad_pcb");
    }
    if !has_head(root, "kicad_pcb") {
        return Err(AdapterError::UnsupportedFormat(String::from_str("Expected a KiCad .kicad_pcb document")));
    }
    let (nets, net_ordinals) = parse_nets(root);
    let footprint_nodes = children(root, "footprint");
    let footprints = match convert_all::<Footprint>(&footprint_nodes, path, &net_ordinals) {
        Ok(f) => f,
        Err(e) => return Err(e),
    };
    let track_nodes = children(root, "segment");
    let tracks = match convert_all::<Track>(&track_nodes, path, &net_ordinals) {
        Ok(t) => t,
        Err(e) => return Err(e),
    };
    let via_nodes = children(root, "via");
    let vias = match convert_all::<Via>(&via_nodes, path, &net_ordinals) {
        Ok(v) => v,
        Err(e) => return Err(e),
    };
    let board_outline = match super::outline::parse(root, path) {
        Ok(o) => o,
        Err(e) => return Err(e),
    };
    let pcb = Pcb { layers: Vec::new(), footprints, tracks, vias, nets, board_outline };
    assert(pcb@.layers =~= seq![]);
    assert(pcb@.footprints =~= item_views(pcb.footprints@));
    assert(pcb@.tracks =~= item_views(pcb.tracks@));
    assert(pcb@.vias =~= item_views(pcb.vias@));
    assert(pcb@.nets =~= item_views(pcb.nets@));
    assert(pcb@.board_outline =~= edges_view(pcb.board_outline@));
    Ok(pcb)
}

/// Converts KiCad PCB text into a canonical board.
pub fn parse(source: &str, path: &str) -> (r: Result<Pcb, AdapterError>)
    ensures
        result_view(r) == spec_parse_pcb(source@, path@),
{
    let root = match super::sexpr::parse(source) {
        Ok(t) => t,
        Err(e) => return Err(e),
    };
    parse_tree(&root, path)
}

} // verus!
