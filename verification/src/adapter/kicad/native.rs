//! KiCad native-object metadata: native identifiers (UUIDs or timestamps),
//! source provenance, and properties, shared by the PCB and schematic
//! converters.

use vstd::prelude::*;

use super::sexpr::{
    argument, child, children, integer, list_items, spec_argument,
    spec_child, spec_children, spec_integer, spec_text, text, text_equals,
    text_of, tree_refs, SExpr, SpecSExpr,
};
use crate::model::source::{SourceFormat, SourceRef, SpecSourceRef};

verus! {

/// The number of digits of the `k`-th hyphen-separated group of a KiCad
/// identifier: a UUID is written as groups of 8, 4, 4, 4 and 12 digits, a
/// timestamp as one group of 8.
pub open spec fn group_width(k: int) -> nat {
    if k == 0 {
        8
    } else if 1 <= k <= 3 {
        4
    } else if k == 4 {
        12
    } else {
        0
    }
}

/// `n` zeros.
pub open spec fn zeros(n: nat) -> Seq<char> {
    Seq::new(n, |i: int| '0')
}

/// The digits `d`, with zeros in front up to `width` characters.
pub open spec fn padded(d: Seq<char>, width: nat) -> Seq<char> {
    if d.len() < width {
        zeros((width - d.len()) as nat) + d
    } else {
        d
    }
}

/// The integer that the reader took for the `k`-th group of a UUID fits that
/// group: the first group is a number of at most 8 digits, a later group the
/// negation of a number of at most its width in digits (the reader takes the
/// group `-0123` as `-123` and `-0000` as `0`).
pub open spec fn group_fits(i: int, k: int) -> bool {
    if k == 0 {
        0 <= i < 100_000_000
    } else if 1 <= k <= 3 {
        -10_000 < i <= 0
    } else if k == 4 {
        -1_000_000_000_000 < i <= 0
    } else {
        false
    }
}

/// The text of the `k`-th group of a UUID that the reader took as the
/// integer `i`: its hyphen (after the first group) and its digits, padded with
/// zeros to the group's width.
pub open spec fn group_text(i: int, k: int) -> Seq<char> {
    if k == 0 {
        padded(digits(i as nat), group_width(0))
    } else {
        seq!['-'] + padded(digits((-i) as nat), group_width(k))
    }
}

/// The entry is an integer that fits the `k`-th group of a UUID.
pub open spec fn group_entry_fits(v: SpecSExpr, k: int) -> bool {
    match spec_integer(v) {
        Some(i) => group_fits(i as int, k),
        None => false,
    }
}

/// The entries of `(uuid ...)` are what the reader makes of a UUID written
/// with decimal digits only: five integers, each fitting its group.
pub open spec fn uuid_run(items: Seq<SpecSExpr>) -> bool {
    &&& items.len() == 6
    &&& forall|k: int| 0 <= k < 5 ==> #[trigger] group_entry_fits(items[k + 1], k)
}

/// The text that the `k`-th argument of a UUID run contributes.
pub open spec fn piece_text(v: SpecSExpr, k: int) -> Option<Seq<char>> {
    match spec_integer(v) {
        Some(i) => Some(group_text(i as int, k)),
        None => None,
    }
}

/// The texts of the entries in `1..n` joined, or `None` when one of them
/// contributes no text.
pub open spec fn pieces_upto(items: Seq<SpecSExpr>, n: int) -> Option<Seq<char>>
    decreases n,
{
    if n <= 1 {
        Some(seq![])
    } else {
        match (pieces_upto(items, n - 1), piece_text(items[n - 1], n - 2)) {
            (Some(t), Some(p)) => Some(t + p),
            _ => None,
        }
    }
}

/// The identifier written in an entry such as `(uuid ...)`: the text of its
/// first argument. KiCad writes a UUID unquoted, and the reader takes one
/// written with decimal digits only (`11111111-0222-...`) as five integers
/// (`11111111`, `-222`, ...): such a run is read back as the UUID, each group
/// padded to its width. Any other entry whose first argument is not a string
/// or a symbol (a single number, or a run of another shape) gives no
/// identifier.
pub open spec fn identifier_text(node: SpecSExpr) -> Option<Seq<char>> {
    match spec_argument(node, 0) {
        Some(first) => match spec_text(first) {
            Some(t) => Some(t),
            None => match node {
                SpecSExpr::List(items) => if uuid_run(items) {
                    pieces_upto(items, 6)
                } else {
                    None
                },
                _ => None,
            },
        },
        None => None,
    }
}

/// The identifier written in the child `name` of an object.
pub open spec fn child_identifier(v: SpecSExpr, name: Seq<char>) -> Option<Seq<char>> {
    match spec_child(v, name) {
        Some(node) => identifier_text(node),
        None => None,
    }
}

/// The native identifier of an object: its `uuid`, or else its `tstamp`.
pub open spec fn spec_native_id(v: SpecSExpr) -> Option<Seq<char>> {
    match child_identifier(v, "uuid"@) {
        Some(t) => Some(t),
        None => child_identifier(v, "tstamp"@),
    }
}

/// The native identifier of an object, or `unknown`.
pub open spec fn native_or_unknown(v: SpecSExpr) -> Seq<char> {
    match spec_native_id(v) {
        Some(t) => t,
        None => "unknown"@,
    }
}

/// The canonical identifier of a KiCad object with native identifier `native`.
pub open spec fn kicad_id(native: Seq<char>) -> Seq<char> {
    "kicad:"@ + native
}

/// The provenance of a KiCad object of file `path` with native identifier `native`.
pub open spec fn spec_source_ref(path: Seq<char>, native: Seq<char>) -> SpecSourceRef {
    SpecSourceRef { format: SourceFormat::KiCad, file_path: path, native_id: Some(native) }
}

/// The value of the first `property` entry in `nodes[..n]` named `name` that
/// has a text value.
pub open spec fn property_upto(nodes: Seq<SpecSExpr>, name: Seq<char>, n: int) -> Option<Seq<char>>
    decreases n,
{
    if n <= 0 {
        None
    } else {
        match property_upto(nodes, name, n - 1) {
            Some(t) => Some(t),
            None => if text_of(spec_argument(nodes[n - 1], 0)) == Some(name) {
                text_of(spec_argument(nodes[n - 1], 1))
            } else {
                None
            },
        }
    }
}

/// The value of the property `name` of an object.
pub open spec fn spec_property(v: SpecSExpr, name: Seq<char>) -> Option<Seq<char>> {
    let nodes = spec_children(v, "property"@);
    property_upto(nodes, name, nodes.len() as int)
}

/// A text, or the empty text when absent.
pub open spec fn or_empty(t: Option<Seq<char>>) -> Seq<char> {
    match t {
        Some(x) => x,
        None => seq![],
    }
}

/// The decimal digits of a natural number.
pub open spec fn digits(n: nat) -> Seq<char>
    decreases n,
{
    if n < 10 {
        seq![digit_char(n)]
    } else {
        digits(n / 10) + seq![digit_char(n % 10)]
    }
}

pub open spec fn digit_char(d: nat) -> char {
    if d == 0 {
        '0'
    } else if d == 1 {
        '1'
    } else if d == 2 {
        '2'
    } else if d == 3 {
        '3'
    } else if d == 4 {
        '4'
    } else if d == 5 {
        '5'
    } else if d == 6 {
        '6'
    } else if d == 7 {
        '7'
    } else if d == 8 {
        '8'
    } else {
        '9'
    }
}

/// The decimal text of an integer, as Rust displays it.
pub open spec fn decimal(i: int) -> Seq<char> {
    if i < 0 {
        seq!['-'] + digits((-i) as nat)
    } else {
        digits(i as nat)
    }
}

/// The digits `d`, with zeros in front up to `width` characters.
fn pad_zeros(d: String, width: usize) -> (r: String)
    ensures
        r@ == padded(d@, width as nat),
{
    let len = d.as_str().unicode_len();
    if len >= width {
        return d;
    }
    let mut out = String::new();
    let mut n: usize = 0;
    proof {
        reveal_strlit("0");
        assert(out@ =~= zeros(0));
    }
    while n < width - len
        invariant
            len < width,
            n <= width - len,
            out@ == zeros(n as nat),
        decreases width - len - n,
    {
        out.append("0");
        proof {
            reveal_strlit("0");
        }
        assert(out@ =~= zeros((n + 1) as nat));
        n = n + 1;
    }
    out.append(d.as_str());
    out
}

/// The digits of the magnitude of `i`.
fn magnitude_digits(i: i64) -> (r: String)
    ensures
        r@ == digits(if i < 0 { (-i) as nat } else { i as nat }),
{
    if i < 0 {
        let magnitude: u64 = if i == i64::MIN {
            0x8000_0000_0000_0000u64
        } else {
            (-i) as u64
        };
        digits_text(magnitude)
    } else {
        digits_text(i as u64)
    }
}

/// Whether the integer `i` fits the `k`-th group of a UUID.
fn fits_group(i: i64, k: usize) -> (r: bool)
    ensures
        r == group_fits(i as int, k as int),
{
    if k == 0 {
        0 <= i && i < 100_000_000
    } else if k <= 3 {
        -10_000 < i && i <= 0
    } else if k == 4 {
        -1_000_000_000_000 < i && i <= 0
    } else {
        false
    }
}

/// The text of the `k`-th group of a UUID read as the integer `i`.
fn group(i: i64, k: usize) -> (r: String)
    requires
        group_fits(i as int, k as int),
    ensures
        r@ == group_text(i as int, k as int),
{
    if k == 0 {
        pad_zeros(magnitude_digits(i), 8)
    } else {
        let width: usize = if k <= 3 {
            4
        } else {
            12
        };
        let mut text = String::from_str("-");
        proof {
            reveal_strlit("-");
        }
        let digits = pad_zeros(magnitude_digits(i), width);
        text.append(digits.as_str());
        text
    }
}

/// The identifier written in an entry such as `(uuid ...)`.
fn identifier(node: &SExpr) -> (r: Option<String>)
    ensures
        r.deep_view() == identifier_text(node@),
{
    let first = match argument(node, 0) {
        Some(first) => first,
        None => return None,
    };
    match text(first) {
        Some(t) => return Some(t.to_owned()),
        None => {},
    }
    let items = match list_items(node) {
        Some(items) => items,
        None => return None,
    };
    let ghost tree = node@->List_0;
    if items.len() != 6 {
        return None;
    }
    let mut joined = String::new();
    let mut k: usize = 0;
    while k < 5
        invariant
            k <= 5,
            items@.len() == 6,
            tree.len() == 6,
            node@ == SpecSExpr::List(tree),
            spec_argument(node@, 0) is Some,
            spec_text(spec_argument(node@, 0)->0) is None,
            forall|x: int| 0 <= x < tree.len() ==> (#[trigger] items@[x])@ == tree[x],
            forall|x: int| 0 <= x < k ==> #[trigger] group_entry_fits(tree[x + 1], x),
            pieces_upto(tree, k + 1) == Some(joined@),
        decreases 5 - k,
    {
        match integer(&items[k + 1]) {
            Some(i) => {
                if !fits_group(i, k) {
                    assert(!uuid_run(tree)) by {
                        assert(!group_entry_fits(tree[k + 1], k as int));
                    }
                    return None;
                }
                let piece = group(i, k);
                joined.append(piece.as_str());
                assert(piece_text(tree[k + 1], k as int) == Some(piece@));
                assert(group_entry_fits(tree[k + 1], k as int));
            },
            None => {
                assert(!uuid_run(tree)) by {
                    assert(spec_integer(tree[k + 1]) is None);
                    assert(!group_entry_fits(tree[k + 1], k as int));
                }
                return None;
            },
        }
        k = k + 1;
    }
    assert(uuid_run(tree));
    Some(joined)
}

/// The identifier written in the child `name` of an object.
fn child_identifier_text(value: &SExpr, name: &str) -> (r: Option<String>)
    ensures
        r.deep_view() == child_identifier(value@, name@),
{
    match child(value, name) {
        Some(node) => identifier(node),
        None => None,
    }
}

/// The native identifier of an object: its `uuid`, or else its `tstamp`.
pub fn object_native_id(value: &SExpr) -> (r: Option<String>)
    ensures
        r.deep_view() == spec_native_id(value@),
{
    match child_identifier_text(value, "uuid") {
        Some(t) => Some(t),
        None => child_identifier_text(value, "tstamp"),
    }
}

/// The native identifier of an object, or `unknown`.
pub fn native_id_or_unknown(value: &SExpr) -> (r: String)
    ensures
        r@ == native_or_unknown(value@),
{
    match object_native_id(value) {
        Some(t) => t,
        None => String::from_str("unknown"),
    }
}

/// The canonical identifier text of a KiCad object.
pub fn kicad_object_id(native_id: &str) -> (r: String)
    ensures
        r@ == kicad_id(native_id@),
{
    let mut id = String::from_str("kicad:");
    id.append(native_id);
    id
}

/// The provenance of a KiCad object of file `path`.
pub fn source_ref(path: &str, native_id: String) -> (r: SourceRef)
    ensures
        r@ == spec_source_ref(path@, native_id@),
{
    let mut source = SourceRef::new(SourceFormat::KiCad, path);
    source.native_id = Some(native_id);
    source
}

/// The value of the property `name` of an object.
pub fn property(value: &SExpr, name: &str) -> (r: Option<String>)
    ensures
        r.deep_view() == spec_property(value@, name@),
{
    let nodes = children(value, "property");
    let ghost ns = spec_children(value@, "property"@);
    let mut i: usize = 0;
    while i < nodes.len()
        invariant
            i <= nodes@.len(),
            tree_refs(nodes@) == ns,
            ns == spec_children(value@, "property"@),
            property_upto(ns, name@, i as int) is None,
        decreases nodes@.len() - i,
    {
        assert(nodes@[i as int]@ == ns[i as int]);
        let node = nodes[i];
        let named = match argument(node, 0) {
            Some(a) => match text(a) {
                Some(t) => text_equals(t, name),
                None => false,
            },
            None => false,
        };
        if named {
            match argument(node, 1) {
                Some(a) => match text(a) {
                    Some(t) => {
                        proof {
                            lemma_property_found(ns, name@, i + 1, ns.len() as int);
                        }
                        return Some(t.to_owned());
                    },
                    None => {},
                },
                None => {},
            }
        }
        i = i + 1;
    }
    None
}

proof fn lemma_property_found(nodes: Seq<SpecSExpr>, name: Seq<char>, n: int, m: int)
    requires
        n <= m,
        property_upto(nodes, name, n) is Some,
    ensures
        property_upto(nodes, name, m) == property_upto(nodes, name, n),
    decreases m - n,
{
    if n < m {
        lemma_property_found(nodes, name, n, m - 1);
    }
}

fn digit_text(d: u64) -> (r: &'static str)
    requires
        d < 10,
    ensures
        r@ == seq![digit_char(d as nat)],
{
    proof {
        reveal_strlit("0");
        reveal_strlit("1");
        reveal_strlit("2");
        reveal_strlit("3");
        reveal_strlit("4");
        reveal_strlit("5");
        reveal_strlit("6");
        reveal_strlit("7");
        reveal_strlit("8");
        reveal_strlit("9");
    }
    if d == 0 {
        "0"
    } else if d == 1 {
        "1"
    } else if d == 2 {
        "2"
    } else if d == 3 {
        "3"
    } else if d == 4 {
        "4"
    } else if d == 5 {
        "5"
    } else if d == 6 {
        "6"
    } else if d == 7 {
        "7"
    } else if d == 8 {
        "8"
    } else {
        "9"
    }
}

/// The decimal digits of `n`, most significant first.
fn digits_text(n: u64) -> (r: String)
    ensures
        r@ == digits(n as nat),
    decreases n,
{
    if n < 10 {
        String::from_str(digit_text(n))
    } else {
        let mut text = digits_text(n / 10);
        text.append(digit_text(n % 10));
        text
    }
}

/// The decimal text of an integer, as Rust displays it.
pub fn integer_text(i: i64) -> (r: String)
    ensures
        r@ == decimal(i as int),
{
    if i < 0 {
        let magnitude: u64 = if i == i64::MIN {
            0x8000_0000_0000_0000u64
        } else {
            (-i) as u64
        };
        let mut text = String::from_str("-");
        proof {
            reveal_strlit("-");
        }
        text.append(digits_text(magnitude).as_str());
        text
    } else {
        digits_text(i as u64)
    }
}

} // verus!
