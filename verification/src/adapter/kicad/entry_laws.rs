//! Laws of the KiCad adapter on what each entry of a board is read as: the
//! objects of a board come one per entry, in file order, and each field of an
//! object is the value that its entry gives, or the documented default.

use vstd::prelude::*;

use super::convert::{converted, converted_upto, FromNode};
use super::native::{decimal, native_or_unknown, or_empty, property_upto, spec_property};
use super::sexpr::{number_or, spec_child_rotation, spec_head};
use super::outline::{edges_upto, spec_arc, spec_is_edge_cut, spec_line, spec_outline};
use super::pad::spec_pad;
use super::pcb::{net_entry, spec_board, spec_footprint, spec_net_ordinals, spec_net_reference, spec_nets, spec_track, spec_via, nets_upto, ordinals_upto};
use super::sexpr::{
    integer_of, number_of, spec_argument, spec_arguments_text, spec_child, spec_child_number,
    spec_child_text, spec_children, spec_point, text_of, SpecSExpr,
};
use crate::adapter::error::SpecAdapterError;
use crate::model::common::Real;
use crate::model::pcb::{Footprint, Pad, SpecBoardEdge, SpecFootprint, SpecNet, SpecPad, SpecTrack, SpecVia, Track, Via};

verus! {

proof fn lemma_converted_upto<T: FromNode>(
    nodes: Seq<SpecSExpr>,
    path: Seq<char>,
    ordinals: Seq<i64>,
    n: int,
)
    requires
        0 <= n <= nodes.len(),
    ensures
        converted_upto::<T>(nodes, path, ordinals, n) matches Ok(items) ==> items.len() == n
            && forall|i: int|
            0 <= i < n ==> T::spec_from_node(nodes[i], path, ordinals) == Ok::<
                T::V,
                SpecAdapterError,
            >(#[trigger] items[i]),
        (forall|i: int| 0 <= i < n ==> (#[trigger] T::spec_from_node(nodes[i], path, ordinals)) is Ok)
            ==> converted_upto::<T>(nodes, path, ordinals, n) is Ok,
    decreases n,
{
    if n > 0 {
        lemma_converted_upto::<T>(nodes, path, ordinals, n - 1);
    }
}

/// Converting a list of entries gives one object per entry, in order: the
/// `i`-th object is what the `i`-th entry converts into. It succeeds when
/// every entry converts.
pub proof fn lemma_converted<T: FromNode>(nodes: Seq<SpecSExpr>, path: Seq<char>, ordinals: Seq<i64>)
    ensures
        converted::<T>(nodes, path, ordinals) matches Ok(items) ==> items.len() == nodes.len()
            && forall|i: int|
            0 <= i < nodes.len() ==> T::spec_from_node(nodes[i], path, ordinals) == Ok::<
                T::V,
                SpecAdapterError,
            >(#[trigger] items[i]),
        (forall|i: int|
            0 <= i < nodes.len() ==> (#[trigger] T::spec_from_node(nodes[i], path, ordinals)) is Ok)
            ==> converted::<T>(nodes, path, ordinals) is Ok,
{
    lemma_converted_upto::<T>(nodes, path, ordinals, nodes.len() as int);
}

/// The board net with ordinal `k` named `name`.
pub open spec fn board_net(k: i64, name: Seq<char>) -> SpecNet {
    SpecNet { id: "pcb-net:"@ + decimal(k as int), name }
}

/// The `j`-th `net` entry of a board declares the net with ordinal `k` named
/// `name`: its first argument is the integer `k` and its second the text `name`.
pub open spec fn declares(root: SpecSExpr, j: int, k: i64, name: Seq<char>) -> bool {
    let nodes = spec_children(root, "net"@);
    &&& 0 <= j < nodes.len()
    &&& integer_of(spec_argument(nodes[j], 0)) == Some(k)
    &&& text_of(spec_argument(nodes[j], 1)) == Some(name)
}

/// Some `net` entry of a board declares the net `net`.
pub open spec fn declared(root: SpecSExpr, net: SpecNet) -> bool {
    exists|j: int, k: i64| declares(root, j, k, net.name) && net == board_net(k, net.name)
}

/// The `j`-th `net` entry of a board declares a net.
pub open spec fn declares_some(root: SpecSExpr, j: int) -> bool {
    exists|k: i64, name: Seq<char>| declares(root, j, k, name)
}

/// Some `net` entry of a board declares a net with ordinal `k`.
pub open spec fn declares_ordinal(root: SpecSExpr, k: i64) -> bool {
    exists|j: int, name: Seq<char>| declares(root, j, k, name)
}

/// The net that the `net` entry of an object of the board names: the board
/// net whose ordinal is the entry's first argument, if the board declares it.
pub open spec fn net_named(root: SpecSExpr, v: SpecSExpr) -> Option<Seq<char>> {
    match spec_child(v, "net"@) {
        Some(n) => match integer_of(spec_argument(n, 0)) {
            Some(k) => if declares_ordinal(root, k) {
                Some("pcb-net:"@ + decimal(k as int))
            } else {
                None
            },
            None => None,
        },
        None => None,
    }
}

proof fn lemma_nets_upto(nodes: Seq<SpecSExpr>, n: int)
    requires
        0 <= n <= nodes.len(),
    ensures
        forall|j: int, k: i64, name: Seq<char>|
            #![trigger net_entry(nodes[j]), board_net(k, name)]
            0 <= j < n && net_entry(nodes[j]) == Some((k, name)) ==> nets_upto(nodes, n).contains(
                board_net(k, name),
            ),
        forall|i: int|
            0 <= i < nets_upto(nodes, n).len() ==> exists|j: int, k: i64|
                0 <= j < n && net_entry(nodes[j]) == Some((k, (#[trigger] nets_upto(nodes, n)[i]).name))
                    && nets_upto(nodes, n)[i].id == "pcb-net:"@ + decimal(k as int),
        forall|k: i64|
            (#[trigger] ordinals_upto(nodes, n).contains(k)) <==> exists|j: int, name: Seq<char>|
                0 <= j < n && net_entry(nodes[j]) == Some((k, name)),
        (forall|j: int| 0 <= j < n ==> (#[trigger] net_entry(nodes[j])) is Some) ==> nets_upto(
            nodes,
            n,
        ).len() == n && forall|i: int, k: i64, name: Seq<char>|
            #![trigger nets_upto(nodes, n)[i], board_net(k, name)]
            0 <= i < n && net_entry(nodes[i]) == Some((k, name)) ==> nets_upto(nodes, n)[i]
                == board_net(k, name),
    decreases n,
{
    if n > 0 {
        lemma_nets_upto(nodes, n - 1);
        let prev = nets_upto(nodes, n - 1);
        let cur = nets_upto(nodes, n);
        let oprev = ordinals_upto(nodes, n - 1);
        let ocur = ordinals_upto(nodes, n);
        match net_entry(nodes[n - 1]) {
            Some((k, name)) => {
                assert(cur == prev.push(board_net(k, name)));
                assert(ocur == oprev.push(k));
                assert forall|j: int, k2: i64, name2: Seq<char>|
                    #![trigger net_entry(nodes[j]), board_net(k2, name2)]
                    0 <= j < n && net_entry(nodes[j]) == Some((k2, name2))
                        implies cur.contains(board_net(k2, name2)) by {
                    if j < n - 1 {
                        let x = board_net(k2, name2);
                        let w = choose|w: int| 0 <= w < prev.len() && prev[w] == x;
                        assert(cur[w] == x);
                    } else {
                        assert(cur[prev.len() as int] == board_net(k, name));
                    }
                }
                assert forall|i: int| 0 <= i < cur.len() implies exists|j: int, k2: i64|
                    0 <= j < n && net_entry(nodes[j]) == Some((k2, (#[trigger] cur[i]).name))
                        && cur[i].id == "pcb-net:"@ + decimal(k2 as int) by {
                    if i < prev.len() {
                        assert(cur[i] == prev[i]);
                        let (j, k2) = choose|j: int, k2: i64|
                            0 <= j < n - 1 && net_entry(nodes[j]) == Some((k2, prev[i].name))
                                && prev[i].id == "pcb-net:"@ + decimal(k2 as int);
                        assert(0 <= j < n && net_entry(nodes[j]) == Some((k2, cur[i].name)));
                    } else {
                        assert(net_entry(nodes[n - 1]) == Some((k, cur[i].name)));
                    }
                }
                assert forall|k2: i64| (#[trigger] ocur.contains(k2)) <==> exists|j: int, name2: Seq<char>|
                    0 <= j < n && net_entry(nodes[j]) == Some((k2, name2)) by {
                    if ocur.contains(k2) {
                        let w = choose|w: int| 0 <= w < ocur.len() && ocur[w] == k2;
                        if w < oprev.len() {
                            assert(oprev[w] == k2);
                            assert(oprev.contains(k2));
                        } else {
                            assert(net_entry(nodes[n - 1]) == Some((k2, name)));
                        }
                    }
                    if exists|j: int, name2: Seq<char>| 0 <= j < n && net_entry(nodes[j]) == Some((k2, name2)) {
                        let (j, name2) = choose|j: int, name2: Seq<char>|
                            0 <= j < n && net_entry(nodes[j]) == Some((k2, name2));
                        if j < n - 1 {
                            assert(oprev.contains(k2));
                            let w = choose|w: int| 0 <= w < oprev.len() && oprev[w] == k2;
                            assert(ocur[w] == k2);
                        } else {
                            assert(ocur[oprev.len() as int] == k2);
                        }
                    }
                }
            },
            None => {
                assert(cur == prev);
                assert(ocur == oprev);
                assert forall|k2: i64| (#[trigger] ocur.contains(k2)) <==> exists|j: int, name2: Seq<char>|
                    0 <= j < n && net_entry(nodes[j]) == Some((k2, name2)) by {
                    if exists|j: int, name2: Seq<char>| 0 <= j < n && net_entry(nodes[j]) == Some((k2, name2)) {
                        let (j, name2) = choose|j: int, name2: Seq<char>|
                            0 <= j < n && net_entry(nodes[j]) == Some((k2, name2));
                        assert(j < n - 1);
                    }
                }
                assert forall|i: int| 0 <= i < cur.len() implies exists|j: int, k2: i64|
                    0 <= j < n && net_entry(nodes[j]) == Some((k2, (#[trigger] cur[i]).name))
                        && cur[i].id == "pcb-net:"@ + decimal(k2 as int) by {
                    let (j, k2) = choose|j: int, k2: i64|
                        0 <= j < n - 1 && net_entry(nodes[j]) == Some((k2, prev[i].name))
                            && prev[i].id == "pcb-net:"@ + decimal(k2 as int);
                    assert(0 <= j < n && net_entry(nodes[j]) == Some((k2, cur[i].name)));
                }
            },
        }
    }
}

/// The nets of a board: each `net` entry with an integer ordinal `k` and a
/// name gives the net `pcb-net:<k>` of that name; every net of the board
/// comes from such an entry; when every entry is of that form, the nets come
/// one per entry, in file order. The ordinals known to the board are those
/// its entries declare.
pub proof fn lemma_board_nets(root: SpecSExpr)
    ensures
        forall|j: int, k: i64, name: Seq<char>|
            #[trigger] declares(root, j, k, name) ==> spec_nets(root).contains(
                board_net(k, name),
            ),
        forall|i: int| 0 <= i < spec_nets(root).len() ==> declared(root, #[trigger] spec_nets(root)[i]),
        forall|k: i64| #[trigger] spec_net_ordinals(root).contains(k) <==> declares_ordinal(root, k),
        (forall|j: int|
            0 <= j < spec_children(root, "net"@).len() ==> #[trigger] declares_some(root, j)) ==> spec_nets(root).len() == spec_children(
            root,
            "net"@,
        ).len() && forall|j: int, k: i64, name: Seq<char>|
            #[trigger] declares(root, j, k, name) ==> spec_nets(root)[j] == board_net(k, name),
{
    let nodes = spec_children(root, "net"@);
    lemma_nets_upto(nodes, nodes.len() as int);
    assert forall|j: int, k: i64, name: Seq<char>| #[trigger] declares(root, j, k, name) implies spec_nets(
        root,
    ).contains(board_net(k, name)) by {
        assert(net_entry(nodes[j]) == Some((k, name)));
    }
    assert forall|i: int| 0 <= i < spec_nets(root).len() implies declared(root, #[trigger] spec_nets(root)[i]) by {
        assert(spec_nets(root)[i] == nets_upto(nodes, nodes.len() as int)[i]);
        let (j, k) = choose|j: int, k: i64|
            0 <= j < nodes.len() && net_entry(nodes[j]) == Some((k, spec_nets(root)[i].name))
                && spec_nets(root)[i].id == "pcb-net:"@ + decimal(k as int);
        assert(declares(root, j, k, spec_nets(root)[i].name));
        assert(spec_nets(root)[i] == board_net(k, spec_nets(root)[i].name));
    }
    assert forall|k: i64| #[trigger] spec_net_ordinals(root).contains(k) <==> declares_ordinal(root, k) by {
        if spec_net_ordinals(root).contains(k) {
            let (j, name) = choose|j: int, name: Seq<char>|
                0 <= j < nodes.len() && net_entry(nodes[j]) == Some((k, name));
            assert(declares(root, j, k, name));
        }
        if declares_ordinal(root, k) {
            let (j, name) = choose|j: int, name: Seq<char>| declares(root, j, k, name);
            assert(net_entry(nodes[j]) == Some((k, name)));
        }
    }
    if forall|j: int| 0 <= j < nodes.len() ==> #[trigger] declares_some(root, j) {
        assert forall|j: int| 0 <= j < nodes.len() implies (#[trigger] net_entry(nodes[j])) is Some by {
            assert(declares_some(root, j));
            let (k, name) = choose|k: i64, name: Seq<char>| declares(root, j, k, name);
        }
        assert forall|j: int, k: i64, name: Seq<char>| #[trigger] declares(root, j, k, name) implies spec_nets(
            root,
        )[j] == board_net(k, name) by {
            assert(net_entry(nodes[j]) == Some((k, name)));
        }
    }
}

/// The net of an object of a board is the one its `net` entry names, as
/// `net_named` says.
pub proof fn lemma_net_reference(root: SpecSExpr, v: SpecSExpr)
    ensures
        spec_net_reference(v, spec_net_ordinals(root)) == net_named(root, v),
{
    lemma_board_nets(root);
}

/// The layers that the `layers` entry of an object lists, none without one.
pub open spec fn listed_layers(v: SpecSExpr) -> Seq<Seq<char>> {
    match spec_child(v, "layers"@) {
        Some(l) => spec_arguments_text(l),
        None => seq![],
    }
}

/// A track is read from a `segment` entry that has `start` and `end`
/// coordinates, and only then. Its end points are those coordinates, its width
/// the number of its `width` entry (zero without one), its layer the text of
/// its `layer` entry (empty without one), its net the one its `net` entry
/// names, and its identifier and provenance come from its native identifier.
pub proof fn lemma_track_read(root: SpecSExpr, v: SpecSExpr, path: Seq<char>)
    ensures
        spec_track(v, path, spec_net_ordinals(root)) is Ok <==> (spec_point(v, "start"@) is Some
            && spec_point(v, "end"@) is Some),
        spec_track(v, path, spec_net_ordinals(root)) matches Ok(t) ==> {
            &&& Some(t.start) == spec_point(v, "start"@)
            &&& Some(t.end) == spec_point(v, "end"@)
            &&& t.width_mm == number_or(spec_child_number(v, "width"@), Real(0))
            &&& t.layer == or_empty(spec_child_text(v, "layer"@))
            &&& t.net_id == net_named(root, v)
            &&& t.id == "kicad:"@ + native_or_unknown(v)
            &&& t.source.file_path == path
            &&& t.source.native_id == Some(native_or_unknown(v))
        },
{
    lemma_net_reference(root, v);
}

/// A via is read from a `via` entry that has `at` coordinates, and only then.
/// Its position is those coordinates, its diameter the number of its `size`
/// entry and its drill that of its `drill` entry (zero without one), its
/// layers those its `layers` entry lists, and its net the one its `net` entry
/// names.
pub proof fn lemma_via_read(root: SpecSExpr, v: SpecSExpr, path: Seq<char>)
    ensures
        spec_via(v, path, spec_net_ordinals(root)) is Ok <==> spec_point(v, "at"@) is Some,
        spec_via(v, path, spec_net_ordinals(root)) matches Ok(x) ==> {
            &&& Some(x.position) == spec_point(v, "at"@)
            &&& x.diameter_mm == number_or(spec_child_number(v, "size"@), Real(0))
            &&& x.drill_mm == number_or(spec_child_number(v, "drill"@), Real(0))
            &&& x.layers == listed_layers(v)
            &&& x.net_id == net_named(root, v)
            &&& x.id == "kicad:"@ + native_or_unknown(v)
            &&& x.source.native_id == Some(native_or_unknown(v))
        },
{
    lemma_net_reference(root, v);
}

/// The size of a pad: the first number of its `size` entry as width (zero
/// without one), the second as height, which is the width where the entry
/// gives one number only.
pub open spec fn pad_size_read(v: SpecSExpr, width: Real, height: Real) -> bool {
    match spec_child(v, "size"@) {
        Some(sz) => {
            &&& width == number_or(number_of(spec_argument(sz, 0)), Real(0))
            &&& height == number_or(number_of(spec_argument(sz, 1)), width)
        },
        None => width == Real(0) && height == Real(0),
    }
}

/// A pad is read from a `pad` entry that has `at` coordinates, and only then.
/// Its number, kind and shape are the texts of the entry's first three
/// arguments; its position the coordinates of `at` and its rotation the third
/// number there (zero without one); its size as `pad_size_read` says; its
/// layers those its `layers` entry lists; its net the one its `net` entry
/// names.
pub proof fn lemma_pad_read(root: SpecSExpr, v: SpecSExpr, path: Seq<char>)
    ensures
        spec_pad(v, path, spec_net_ordinals(root)) is Ok <==> spec_point(v, "at"@) is Some,
        spec_pad(v, path, spec_net_ordinals(root)) matches Ok(p) ==> {
            &&& p.number == or_empty(text_of(spec_argument(v, 0)))
            &&& p.kind == or_empty(text_of(spec_argument(v, 1)))
            &&& p.shape == or_empty(text_of(spec_argument(v, 2)))
            &&& Some(p.position) == spec_point(v, "at"@)
            &&& p.rotation.degrees == spec_child_rotation(v, "at"@)
            &&& pad_size_read(v, p.size.width_mm, p.size.height_mm)
            &&& p.layers == listed_layers(v)
            &&& p.net_id == net_named(root, v)
            &&& p.id == "kicad:"@ + native_or_unknown(v)
            &&& p.source.native_id == Some(native_or_unknown(v))
        },
{
    lemma_net_reference(root, v);
}

/// A footprint is read from a `footprint` entry that has `at` coordinates and
/// whose pads can all be read, and only then. Its reference and value are its
/// `Reference` and `Value` properties (empty without them), its library link
/// the text of its first argument, its position and rotation those of its
/// `at` entry, its layer the text of its `layer` entry; its pads come one per
/// `pad` entry, in order, each read as `lemma_pad_read` says.
pub proof fn lemma_footprint_read(root: SpecSExpr, v: SpecSExpr, path: Seq<char>)
    ensures
        spec_footprint(v, path, spec_net_ordinals(root)) is Ok <==> (spec_point(v, "at"@) is Some
            && forall|i: int|
            0 <= i < spec_children(v, "pad"@).len() ==> (#[trigger] spec_pad(
                spec_children(v, "pad"@)[i],
                path,
                spec_net_ordinals(root),
            )) is Ok),
        spec_footprint(v, path, spec_net_ordinals(root)) matches Ok(f) ==> {
            &&& f.reference == or_empty(spec_property(v, "Reference"@))
            &&& f.value == or_empty(spec_property(v, "Value"@))
            &&& f.library_link == text_of(spec_argument(v, 0))
            &&& Some(f.position) == spec_point(v, "at"@)
            &&& f.rotation.degrees == spec_child_rotation(v, "at"@)
            &&& f.layer == or_empty(spec_child_text(v, "layer"@))
            &&& f.id == "kicad:"@ + native_or_unknown(v)
            &&& f.pads.len() == spec_children(v, "pad"@).len()
            &&& forall|i: int|
                0 <= i < f.pads.len() ==> spec_pad(
                    spec_children(v, "pad"@)[i],
                    path,
                    spec_net_ordinals(root),
                ) == Ok::<SpecPad, SpecAdapterError>(#[trigger] f.pads[i])
        },
{
    let nodes = spec_children(v, "pad"@);
    let ords = spec_net_ordinals(root);
    lemma_converted::<Pad>(nodes, path, ords);
    if converted::<Pad>(nodes, path, ords) is Ok {
        let items = converted::<Pad>(nodes, path, ords)->Ok_0;
        assert forall|i: int| 0 <= i < nodes.len() implies (#[trigger] spec_pad(nodes[i], path, ords)) is Ok by {
            assert(<Pad as FromNode>::spec_from_node(nodes[i], path, ords) == Ok::<SpecPad, SpecAdapterError>(items[i]));
        }
    }
    if forall|i: int| 0 <= i < nodes.len() ==> (#[trigger] spec_pad(nodes[i], path, ords)) is Ok {
        assert forall|i: int| 0 <= i < nodes.len() implies (#[trigger] <Pad as FromNode>::spec_from_node(nodes[i], path, ords)) is Ok by {
            assert(spec_pad(nodes[i], path, ords) is Ok);
        }
    }
}

/// A board is read from a `kicad_pcb` tree, and is refused as of another
/// format otherwise. Its footprints, tracks and vias come one per
/// `footprint`, `segment` and `via` entry, in file order, each read as the
/// laws above say; its nets are as `lemma_board_nets` says and its outline as
/// `lemma_outline_read` says; it lists no layers.
pub proof fn lemma_board_read(root: SpecSExpr, path: Seq<char>)
    ensures
        spec_head(root) != Some("kicad_pcb"@) ==> spec_board(root, path) matches Err(
            SpecAdapterError::UnsupportedFormat(_),
        ),
        spec_board(root, path) matches Ok(b) ==> {
            &&& b.footprints.len() == spec_children(root, "footprint"@).len()
            &&& forall|i: int|
                0 <= i < b.footprints.len() ==> spec_footprint(
                    spec_children(root, "footprint"@)[i],
                    path,
                    spec_net_ordinals(root),
                ) == Ok::<SpecFootprint, SpecAdapterError>(#[trigger] b.footprints[i])
            &&& b.tracks.len() == spec_children(root, "segment"@).len()
            &&& forall|i: int|
                0 <= i < b.tracks.len() ==> spec_track(
                    spec_children(root, "segment"@)[i],
                    path,
                    spec_net_ordinals(root),
                ) == Ok::<SpecTrack, SpecAdapterError>(#[trigger] b.tracks[i])
            &&& b.vias.len() == spec_children(root, "via"@).len()
            &&& forall|i: int|
                0 <= i < b.vias.len() ==> spec_via(
                    spec_children(root, "via"@)[i],
                    path,
                    spec_net_ordinals(root),
                ) == Ok::<SpecVia, SpecAdapterError>(#[trigger] b.vias[i])
            &&& b.nets == spec_nets(root)
            &&& spec_outline(root, path) == Ok::<Seq<SpecBoardEdge>, SpecAdapterError>(b.board_outline)
            &&& b.layers.len() == 0
        },
{
    let ords = spec_net_ordinals(root);
    lemma_converted::<Footprint>(spec_children(root, "footprint"@), path, ords);
    lemma_converted::<Track>(spec_children(root, "segment"@), path, ords);
    lemma_converted::<Via>(spec_children(root, "via"@), path, ords);
}

/// What a board graphic entry gives as a board edge: an arc for a `gr_arc`
/// entry (`arcs`), a line for a `gr_line` entry.
pub open spec fn edge_read(v: SpecSExpr, path: Seq<char>, arcs: bool) -> Result<
    SpecBoardEdge,
    SpecAdapterError,
> {
    if arcs {
        spec_arc(v, path)
    } else {
        spec_line(v, path)
    }
}

proof fn lemma_edges_upto(nodes: Seq<SpecSExpr>, path: Seq<char>, arcs: bool, n: int)
    requires
        0 <= n <= nodes.len(),
    ensures
        edges_upto(nodes, path, arcs, n) matches Ok(es) ==> {
            &&& forall|i: int|
                0 <= i < es.len() ==> exists|j: int|
                    0 <= j < n && spec_is_edge_cut(nodes[j]) && edge_read(nodes[j], path, arcs)
                        == Ok::<SpecBoardEdge, SpecAdapterError>(#[trigger] es[i])
            &&& forall|j: int|
                0 <= j < n && spec_is_edge_cut(nodes[j]) ==> (#[trigger] edge_read(
                    nodes[j],
                    path,
                    arcs,
                )) is Ok && es.contains(edge_read(nodes[j], path, arcs)->Ok_0)
            &&& (forall|j: int| 0 <= j < n ==> !(#[trigger] spec_is_edge_cut(nodes[j]))) ==> es.len()
                == 0
        },
    decreases n,
{
    if n > 0 {
        lemma_edges_upto(nodes, path, arcs, n - 1);
        if edges_upto(nodes, path, arcs, n) is Ok {
            let prev = edges_upto(nodes, path, arcs, n - 1)->Ok_0;
            let cur = edges_upto(nodes, path, arcs, n)->Ok_0;
            if spec_is_edge_cut(nodes[n - 1]) {
                let e = edge_read(nodes[n - 1], path, arcs)->Ok_0;
                assert(cur == prev.push(e));
                assert forall|i: int| 0 <= i < cur.len() implies exists|j: int|
                    0 <= j < n && spec_is_edge_cut(nodes[j]) && edge_read(nodes[j], path, arcs)
                        == Ok::<SpecBoardEdge, SpecAdapterError>(#[trigger] cur[i]) by {
                    if i < prev.len() {
                        assert(cur[i] == prev[i]);
                    } else {
                        assert(edge_read(nodes[n - 1], path, arcs) == Ok::<SpecBoardEdge, SpecAdapterError>(cur[i]));
                    }
                }
                assert forall|j: int| 0 <= j < n && spec_is_edge_cut(nodes[j]) implies (#[trigger] edge_read(
                    nodes[j],
                    path,
                    arcs,
                )) is Ok && cur.contains(edge_read(nodes[j], path, arcs)->Ok_0) by {
                    if j < n - 1 {
                        let w = choose|w: int| 0 <= w < prev.len() && prev[w] == edge_read(nodes[j], path, arcs)->Ok_0;
                        assert(cur[w] == prev[w]);
                    } else {
                        assert(cur[prev.len() as int] == e);
                    }
                }
            } else {
                assert(cur == prev);
            }
        }
    }
}

/// A board edge is read from a `gr_line` entry with `start` and `end`
/// coordinates, as the line between them, and from a `gr_arc` entry with
/// `start`, `mid` and `end` coordinates, as the arc through them; without
/// those coordinates the entry is refused.
pub proof fn lemma_edge_read(v: SpecSExpr, path: Seq<char>)
    ensures
        spec_line(v, path) is Ok <==> (spec_point(v, "start"@) is Some && spec_point(v, "end"@) is Some),
        spec_line(v, path) is Ok ==> (spec_line(v, path)->Ok_0 matches SpecBoardEdge::Line {
            start,
            end,
            ..
        } && Some(start) == spec_point(v, "start"@) && Some(end) == spec_point(v, "end"@)),
        spec_arc(v, path) is Ok <==> (spec_point(v, "start"@) is Some && spec_point(v, "mid"@) is Some
            && spec_point(v, "end"@) is Some),
        spec_arc(v, path) is Ok ==> (spec_arc(v, path)->Ok_0 matches SpecBoardEdge::Arc {
            start,
            mid,
            end,
            ..
        } && Some(start) == spec_point(v, "start"@) && Some(mid) == spec_point(v, "mid"@) && Some(
            end,
        ) == spec_point(v, "end"@)),
{
}

/// The board outline holds exactly the edges of the board's `Edge.Cuts`
/// graphics: each `gr_line` and `gr_arc` entry on that layer gives its edge,
/// every edge comes from such an entry, graphics on other layers give none,
/// and the lines come before the arcs.
pub proof fn lemma_outline_read(root: SpecSExpr, path: Seq<char>)
    ensures
        spec_outline(root, path) matches Ok(es) ==> {
            &&& forall|i: int|
                0 <= i < es.len() ==> ((#[trigger] es[i]) is Line ==> exists|j: int|
                    0 <= j < spec_children(root, "gr_line"@).len() && spec_is_edge_cut(
                        spec_children(root, "gr_line"@)[j],
                    ) && spec_line(spec_children(root, "gr_line"@)[j], path) == Ok::<
                        SpecBoardEdge,
                        SpecAdapterError,
                    >(es[i]))
            &&& forall|i: int|
                0 <= i < es.len() ==> ((#[trigger] es[i]) is Arc ==> exists|j: int|
                    0 <= j < spec_children(root, "gr_arc"@).len() && spec_is_edge_cut(
                        spec_children(root, "gr_arc"@)[j],
                    ) && spec_arc(spec_children(root, "gr_arc"@)[j], path) == Ok::<
                        SpecBoardEdge,
                        SpecAdapterError,
                    >(es[i]))
            &&& forall|j: int|
                0 <= j < spec_children(root, "gr_line"@).len() && spec_is_edge_cut(
                    spec_children(root, "gr_line"@)[j],
                ) ==> (#[trigger] spec_line(spec_children(root, "gr_line"@)[j], path)) is Ok
                    && es.contains(spec_line(spec_children(root, "gr_line"@)[j], path)->Ok_0)
            &&& forall|j: int|
                0 <= j < spec_children(root, "gr_arc"@).len() && spec_is_edge_cut(
                    spec_children(root, "gr_arc"@)[j],
                ) ==> (#[trigger] spec_arc(spec_children(root, "gr_arc"@)[j], path)) is Ok
                    && es.contains(spec_arc(spec_children(root, "gr_arc"@)[j], path)->Ok_0)
            &&& forall|i: int, k: int|
                0 <= i < k < es.len() && (#[trigger] es[i]) is Arc ==> (#[trigger] es[k]) is Arc
        },
{
    let lines = spec_children(root, "gr_line"@);
    let arcs = spec_children(root, "gr_arc"@);
    lemma_edges_upto(lines, path, false, lines.len() as int);
    lemma_edges_upto(arcs, path, true, arcs.len() as int);
    if spec_outline(root, path) is Ok {
        let es = spec_outline(root, path)->Ok_0;
        let ls = edges_upto(lines, path, false, lines.len() as int)->Ok_0;
        let cs = edges_upto(arcs, path, true, arcs.len() as int)->Ok_0;
        assert(es == ls + cs);
        assert forall|i: int| 0 <= i < es.len() implies (if i < ls.len() {
            (#[trigger] es[i]) is Line && exists|j: int|
                0 <= j < lines.len() && spec_is_edge_cut(lines[j]) && spec_line(lines[j], path) == Ok::<
                    SpecBoardEdge,
                    SpecAdapterError,
                >(es[i])
        } else {
            es[i] is Arc && exists|j: int|
                0 <= j < arcs.len() && spec_is_edge_cut(arcs[j]) && spec_arc(arcs[j], path) == Ok::<
                    SpecBoardEdge,
                    SpecAdapterError,
                >(es[i])
        }) by {
            if i < ls.len() {
                assert(es[i] == ls[i]);
                let j = choose|j: int|
                    0 <= j < lines.len() && spec_is_edge_cut(lines[j]) && edge_read(lines[j], path, false)
                        == Ok::<SpecBoardEdge, SpecAdapterError>(ls[i]);
                assert(spec_line(lines[j], path) == Ok::<SpecBoardEdge, SpecAdapterError>(es[i]));
            } else {
                assert(es[i] == cs[i - ls.len()]);
                let j = choose|j: int|
                    0 <= j < arcs.len() && spec_is_edge_cut(arcs[j]) && edge_read(arcs[j], path, true)
                        == Ok::<SpecBoardEdge, SpecAdapterError>(cs[i - ls.len()]);
                assert(spec_arc(arcs[j], path) == Ok::<SpecBoardEdge, SpecAdapterError>(es[i]));
            }
        }
        assert forall|j: int|
            0 <= j < lines.len() && spec_is_edge_cut(lines[j]) implies (#[trigger] spec_line(
                lines[j],
                path,
            )) is Ok && es.contains(spec_line(lines[j], path)->Ok_0) by {
            assert(edge_read(lines[j], path, false) is Ok);
            let w = choose|w: int| 0 <= w < ls.len() && ls[w] == edge_read(lines[j], path, false)->Ok_0;
            assert(es[w] == ls[w]);
        }
        assert forall|j: int|
            0 <= j < arcs.len() && spec_is_edge_cut(arcs[j]) implies (#[trigger] spec_arc(
                arcs[j],
                path,
            )) is Ok && es.contains(spec_arc(arcs[j], path)->Ok_0) by {
            assert(edge_read(arcs[j], path, true) is Ok);
            let w = choose|w: int| 0 <= w < cs.len() && cs[w] == edge_read(arcs[j], path, true)->Ok_0;
            assert(es[ls.len() + w] == cs[w]);
        }
    }
}

/// The `j`-th `property` entry of an object is named `name` and has the text
/// value `value`.
pub open spec fn property_entry(v: SpecSExpr, j: int, name: Seq<char>, value: Seq<char>) -> bool {
    let nodes = spec_children(v, "property"@);
    &&& 0 <= j < nodes.len()
    &&& text_of(spec_argument(nodes[j], 0)) == Some(name)
    &&& text_of(spec_argument(nodes[j], 1)) == Some(value)
}

proof fn lemma_property_upto(v: SpecSExpr, name: Seq<char>, n: int)
    requires
        0 <= n <= spec_children(v, "property"@).len(),
    ensures
        property_upto(spec_children(v, "property"@), name, n) matches Some(t) ==> exists|j: int|
            0 <= j < n && #[trigger] property_entry(v, j, name, t) && forall|i: int, u: Seq<char>|
                0 <= i < j ==> !(#[trigger] property_entry(v, i, name, u)),
        property_upto(spec_children(v, "property"@), name, n) is None ==> forall|i: int, u: Seq<char>|
            0 <= i < n ==> !(#[trigger] property_entry(v, i, name, u)),
    decreases n,
{
    if n > 0 {
        lemma_property_upto(v, name, n - 1);
        let nodes = spec_children(v, "property"@);
        if property_upto(nodes, name, n - 1) is None {
            if property_upto(nodes, name, n) is Some {
                let t = property_upto(nodes, name, n)->0;
                assert(property_entry(v, n - 1, name, t));
            }
        } else {
            let t = property_upto(nodes, name, n - 1)->0;
            let j = choose|j: int|
                0 <= j < n - 1 && #[trigger] property_entry(v, j, name, t) && forall|i: int, u: Seq<char>|
                    0 <= i < j ==> !(#[trigger] property_entry(v, i, name, u));
            assert(property_entry(v, j, name, t));
        }
    }
}

/// The value of a property of an object is the text value of its first
/// `property` entry of that name that has one: where some entry of that name
/// has a text value, the first such gives the value; where none has, there is
/// no value.
pub proof fn lemma_property_read(v: SpecSExpr, name: Seq<char>)
    ensures
        spec_property(v, name) matches Some(t) ==> exists|j: int|
            #[trigger] property_entry(v, j, name, t) && forall|i: int, u: Seq<char>|
                0 <= i < j ==> !(#[trigger] property_entry(v, i, name, u)),
        spec_property(v, name) is None ==> forall|i: int, u: Seq<char>|
            !(#[trigger] property_entry(v, i, name, u)),
{
    lemma_property_upto(v, name, spec_children(v, "property"@).len() as int);
}

} // verus!
