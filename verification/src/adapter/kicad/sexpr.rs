//! KiCad S-expression trees and the navigation helpers that the PCB and
//! schematic converters use to read them.

use vstd::prelude::*;

use super::reader::{lexpr_reading, read_sexpr};
use crate::adapter::error::{AdapterError, SpecAdapterError};
use crate::model::common::{Point, Real};

verus! {

/// An S-expression as the KiCad adapter reads it: a symbol, a string, a number
/// (its binary64 value and, for integers that fit, its `i64` value), a proper
/// list, or any other atom.
#[derive(Debug)]
pub enum SExpr {
    Symbol(String),
    Str(String),
    Number(Real, Option<i64>),
    List(Vec<SExpr>),
    Other,
}

pub enum SpecSExpr {
    Symbol(Seq<char>),
    Str(Seq<char>),
    Number(Real, Option<i64>),
    List(Seq<SpecSExpr>),
    Other,
}

impl SExpr {
    pub open spec fn tree(e: SExpr) -> SpecSExpr
        decreases e,
    {
        match e {
            SExpr::Symbol(s) => SpecSExpr::Symbol(s@),
            SExpr::Str(s) => SpecSExpr::Str(s@),
            SExpr::Number(x, i) => SpecSExpr::Number(x, i),
            SExpr::List(items) => SpecSExpr::List(
                Seq::new(
                    items@.len(),
                    |i: int|
                        if 0 <= i < items@.len() {
                            proof {
                                broadcast use vstd::std_specs::vec::axiom_vec_index_decreases;
                            }
                            SExpr::tree(items@[i])
                        } else {
                            SpecSExpr::Other
                        },
                ),
            ),
            SExpr::Other => SpecSExpr::Other,
        }
    }
}

impl View for SExpr {
    type V = SpecSExpr;

    open spec fn view(&self) -> SpecSExpr {
        SExpr::tree(*self)
    }
}

// ---------------------------------------------------------------------------
// What the helpers read from a tree.

/// The symbol text of an atom.
pub open spec fn symbol_text(v: SpecSExpr) -> Option<Seq<char>> {
    match v {
        SpecSExpr::Symbol(s) => Some(s),
        _ => None,
    }
}

/// The head symbol of a list.
pub open spec fn spec_head(v: SpecSExpr) -> Option<Seq<char>> {
    match v {
        SpecSExpr::List(items) => if items.len() > 0 {
            symbol_text(items[0])
        } else {
            None
        },
        _ => None,
    }
}

/// The first index in `1..n` of an entry whose head is `name`.
pub open spec fn first_child_index(items: Seq<SpecSExpr>, name: Seq<char>, n: int) -> Option<int>
    decreases n,
{
    if n <= 1 {
        None
    } else {
        match first_child_index(items, name, n - 1) {
            Some(i) => Some(i),
            None => if spec_head(items[n - 1]) == Some(name) {
                Some(n - 1)
            } else {
                None
            },
        }
    }
}

/// The first entry after the head of a list whose own head is `name`.
pub open spec fn spec_child(v: SpecSExpr, name: Seq<char>) -> Option<SpecSExpr> {
    match v {
        SpecSExpr::List(items) => match first_child_index(items, name, items.len() as int) {
            Some(i) => Some(items[i]),
            None => None,
        },
        _ => None,
    }
}

/// The entries in `1..n` whose head is `name`, in order.
pub open spec fn children_upto(items: Seq<SpecSExpr>, name: Seq<char>, n: int) -> Seq<SpecSExpr>
    decreases n,
{
    if n <= 1 {
        seq![]
    } else {
        children_upto(items, name, n - 1) + if spec_head(items[n - 1]) == Some(name) {
            seq![items[n - 1]]
        } else {
            seq![]
        }
    }
}

/// All entries after the head of a list whose own head is `name`, in order.
pub open spec fn spec_children(v: SpecSExpr, name: Seq<char>) -> Seq<SpecSExpr> {
    match v {
        SpecSExpr::List(items) => children_upto(items, name, items.len() as int),
        _ => seq![],
    }
}

/// The entries after the head of a list.
pub open spec fn spec_entries(v: SpecSExpr) -> Seq<SpecSExpr> {
    match v {
        SpecSExpr::List(items) => if items.len() > 0 {
            items.subrange(1, items.len() as int)
        } else {
            seq![]
        },
        _ => seq![],
    }
}

/// The entry of a list at position `index + 1`: its `index`-th argument.
pub open spec fn spec_argument(v: SpecSExpr, index: int) -> Option<SpecSExpr> {
    match v {
        SpecSExpr::List(items) => if 0 <= index && index + 1 < items.len() {
            Some(items[index + 1])
        } else {
            None
        },
        _ => None,
    }
}

/// The text of a string or a symbol.
pub open spec fn spec_text(v: SpecSExpr) -> Option<Seq<char>> {
    match v {
        SpecSExpr::Str(s) => Some(s),
        SpecSExpr::Symbol(s) => Some(s),
        _ => None,
    }
}

/// The value of a number.
pub open spec fn spec_number(v: SpecSExpr) -> Option<Real> {
    match v {
        SpecSExpr::Number(x, _) => Some(x),
        _ => None,
    }
}

/// The `i64` value of an integer.
pub open spec fn spec_integer(v: SpecSExpr) -> Option<i64> {
    match v {
        SpecSExpr::Number(_, i) => i,
        _ => None,
    }
}

/// The views of a sequence of trees.
pub open spec fn tree_refs(s: Seq<&SExpr>) -> Seq<SpecSExpr> {
    s.map_values(|c: &SExpr| c@)
}

/// The view of an optional tree.
pub open spec fn opt_tree(v: Option<&SExpr>) -> Option<SpecSExpr> {
    match v {
        Some(x) => Some(x@),
        None => None,
    }
}

/// The text of an optional tree.
pub open spec fn text_of(v: Option<SpecSExpr>) -> Option<Seq<char>> {
    match v {
        Some(x) => spec_text(x),
        None => None,
    }
}

/// The number of an optional tree.
pub open spec fn number_of(v: Option<SpecSExpr>) -> Option<Real> {
    match v {
        Some(x) => spec_number(x),
        None => None,
    }
}

/// The `i64` value of an optional tree.
pub open spec fn integer_of(v: Option<SpecSExpr>) -> Option<i64> {
    match v {
        Some(x) => spec_integer(x),
        None => None,
    }
}

/// A number, or `default` when absent.
pub open spec fn number_or(x: Option<Real>, default: Real) -> Real {
    match x {
        Some(v) => v,
        None => default,
    }
}

/// The `index`-th argument of an optional tree.
pub open spec fn argument_of(v: Option<SpecSExpr>, index: int) -> Option<SpecSExpr> {
    match v {
        Some(x) => spec_argument(x, index),
        None => None,
    }
}

/// The text of the first argument of the child `name`.
pub open spec fn spec_child_text(v: SpecSExpr, name: Seq<char>) -> Option<Seq<char>> {
    text_of(argument_of(spec_child(v, name), 0))
}

/// The number of the first argument of the child `name`.
pub open spec fn spec_child_number(v: SpecSExpr, name: Seq<char>) -> Option<Real> {
    number_of(argument_of(spec_child(v, name), 0))
}

/// The point whose coordinates are the first two arguments of `node`.
pub open spec fn node_point(node: SpecSExpr) -> Option<Point> {
    match (number_of(spec_argument(node, 0)), number_of(spec_argument(node, 1))) {
        (Some(x), Some(y)) => Some(Point { x_mm: x, y_mm: y }),
        _ => None,
    }
}

/// The point given by the first two arguments of the child `name`.
pub open spec fn spec_point(v: SpecSExpr, name: Seq<char>) -> Option<Point> {
    match spec_child(v, name) {
        Some(node) => node_point(node),
        None => None,
    }
}

/// The message for missing coordinates of the child `name`.
pub open spec fn missing_point_message(name: Seq<char>) -> Seq<char> {
    "Missing KiCad '"@ + name + "' coordinates"@
}

pub open spec fn spec_required_point(v: SpecSExpr, name: Seq<char>) -> Result<Point, SpecAdapterError> {
    match spec_point(v, name) {
        Some(p) => Ok(p),
        None => Err(SpecAdapterError::MissingField(missing_point_message(name))),
    }
}

/// The texts of the entries in `1..n`, skipping entries that have none.
pub open spec fn texts_upto(items: Seq<SpecSExpr>, n: int) -> Seq<Seq<char>>
    decreases n,
{
    if n <= 1 {
        seq![]
    } else {
        texts_upto(items, n - 1) + match spec_text(items[n - 1]) {
            Some(t) => seq![t],
            None => seq![],
        }
    }
}

/// The texts of the arguments of a list.
pub open spec fn spec_arguments_text(v: SpecSExpr) -> Seq<Seq<char>> {
    match v {
        SpecSExpr::List(items) => texts_upto(items, items.len() as int),
        _ => seq![],
    }
}

/// The third argument of the child `name` as an angle, zero when absent.
pub open spec fn spec_child_rotation(v: SpecSExpr, name: Seq<char>) -> Real {
    match number_of(argument_of(spec_child(v, name), 2)) {
        Some(x) => x,
        None => Real(0),
    }
}

/// The points of the first `n` of `nodes`, skipping nodes without two numbers.
pub open spec fn points_upto(nodes: Seq<SpecSExpr>, n: int) -> Seq<Point>
    decreases n,
{
    if n <= 0 {
        seq![]
    } else {
        points_upto(nodes, n - 1) + match node_point(nodes[n - 1]) {
            Some(p) => seq![p],
            None => seq![],
        }
    }
}

/// The points of the `xy` entries of the child `name`.
pub open spec fn spec_child_xy_points(v: SpecSExpr, name: Seq<char>) -> Seq<Point> {
    match spec_child(v, name) {
        Some(node) => {
            let xs = spec_children(node, "xy"@);
            points_upto(xs, xs.len() as int)
        },
        None => seq![],
    }
}

// ---------------------------------------------------------------------------
// Executable helpers.

/// Whether two texts are equal.
pub fn text_equals(a: &str, b: &str) -> (r: bool)
    ensures
        r == (a@ == b@),
{
    let n = a.unicode_len();
    if n != b.unicode_len() {
        return false;
    }
    let mut i: usize = 0;
    while i < n
        invariant
            i <= n,
            n == a@.len(),
            n == b@.len(),
            forall|x: int| 0 <= x < i ==> a@[x] == b@[x],
        decreases n - i,
    {
        if a.get_char(i) != b.get_char(i) {
            return false;
        }
        i = i + 1;
    }
    assert(a@ =~= b@);
    true
}

/// The entries of a list, or none for an atom.
pub(crate) fn list_items(value: &SExpr) -> (r: Option<&Vec<SExpr>>)
    ensures
        match value@ {
            SpecSExpr::List(items) => r matches Some(v) && v@.len() == items.len() && forall|i: int|
                0 <= i < items.len() ==> (#[trigger] v@[i])@ == items[i],
            _ => r is None,
        },
{
    match value {
        SExpr::List(items) => Some(items),
        _ => None,
    }
}

/// The head symbol of a list.
pub fn head(value: &SExpr) -> (r: Option<&str>)
    ensures
        match r {
            Some(s) => spec_head(value@) == Some(s@),
            None => spec_head(value@) is None,
        },
{
    match list_items(value) {
        Some(items) => {
            if items.len() > 0 {
                match &items[0] {
                    SExpr::Symbol(s) => Some(s.as_str()),
                    _ => None,
                }
            } else {
                None
            }
        },
        None => None,
    }
}

/// Whether the head of `value` is `name`.
pub fn has_head(value: &SExpr, name: &str) -> (r: bool)
    ensures
        r == (spec_head(value@) == Some(name@)),
{
    match head(value) {
        Some(h) => text_equals(h, name),
        None => false,
    }
}

proof fn lemma_first_child_stable(items: Seq<SpecSExpr>, name: Seq<char>, n: int, m: int)
    requires
        n <= m,
        first_child_index(items, name, n) is Some,
    ensures
        first_child_index(items, name, m) == first_child_index(items, name, n),
    decreases m - n,
{
    if n < m {
        lemma_first_child_stable(items, name, n, m - 1);
    }
}

proof fn lemma_first_child_index(items: Seq<SpecSExpr>, name: Seq<char>, n: int)
    ensures
        match first_child_index(items, name, n) {
            Some(i) => 1 <= i < n && spec_head(items[i]) == Some(name),
            None => true,
        },
    decreases n,
{
    if n > 1 {
        lemma_first_child_index(items, name, n - 1);
    }
}

/// The first entry after the head of a list whose own head is `name`.
pub fn child<'a>(value: &'a SExpr, name: &str) -> (r: Option<&'a SExpr>)
    ensures
        match r {
            Some(c) => spec_child(value@, name@) == Some(c@),
            None => spec_child(value@, name@) is None,
        },
{
    match list_items(value) {
        Some(items) => {
            let ghost tree = value@->List_0;
            let mut i: usize = 1;
            while i < items.len()
                invariant
                    1 <= i,
                    i <= items@.len() || i == 1,
                    items@.len() == tree.len(),
                    value@ == SpecSExpr::List(tree),
                    forall|x: int| 0 <= x < tree.len() ==> (#[trigger] items@[x])@ == tree[x],
                    first_child_index(tree, name@, i as int) is None,
                decreases items@.len() - i,
            {
                if has_head(&items[i], name) {
                    proof {
                        assert(first_child_index(tree, name@, i + 1) == Some(i as int));
                        lemma_first_child_stable(tree, name@, i + 1, tree.len() as int);
                    }
                    return Some(&items[i]);
                }
                i = i + 1;
            }
            proof {
                if tree.len() > 1 {
                    assert(first_child_index(tree, name@, tree.len() as int) is None);
                }
            }
            None
        },
        None => None,
    }
}

/// All entries after the head of a list whose own head is `name`, in order.
pub fn children<'a>(value: &'a SExpr, name: &str) -> (r: Vec<&'a SExpr>)
    ensures
        tree_refs(r@) == spec_children(value@, name@),
{
    let mut found: Vec<&'a SExpr> = Vec::new();
    match list_items(value) {
        Some(items) => {
            let ghost tree = value@->List_0;
            let mut i: usize = 1;
            while i < items.len()
                invariant
                    1 <= i,
                    i <= items@.len() || i == 1,
                    items@.len() == tree.len(),
                    value@ == SpecSExpr::List(tree),
                    forall|x: int| 0 <= x < tree.len() ==> (#[trigger] items@[x])@ == tree[x],
                    tree_refs(found@) == children_upto(tree, name@, i as int),
                decreases items@.len() - i,
            {
                let ghost prev = found@;
                if has_head(&items[i], name) {
                    found.push(&items[i]);
                }
                assert(tree_refs(found@) =~= children_upto(tree, name@, i + 1));
                i = i + 1;
            }
            proof {
                if tree.len() == 0 {
                    assert(children_upto(tree, name@, 0) =~= children_upto(tree, name@, 1));
                    assert(tree_refs(found@) =~= children_upto(tree, name@, tree.len() as int));
                } else {
                    assert(i as int == tree.len());
                    assert(tree_refs(found@) == children_upto(tree, name@, tree.len() as int));
                }
            }
        },
        None => {
            assert(tree_refs(found@) =~= seq![]);
        },
    }
    found
}

/// The entries after the head of a list.
pub fn list_entries(value: &SExpr) -> (r: Vec<&SExpr>)
    ensures
        tree_refs(r@) == spec_entries(value@),
{
    let mut found: Vec<&SExpr> = Vec::new();
    match list_items(value) {
        Some(items) => {
            let ghost tree = value@->List_0;
            let mut i: usize = 1;
            while i < items.len()
                invariant
                    1 <= i,
                    i <= items@.len() || i == 1,
                    items@.len() == tree.len(),
                    value@ == SpecSExpr::List(tree),
                    forall|x: int| 0 <= x < tree.len() ==> (#[trigger] items@[x])@ == tree[x],
                    tree_refs(found@) =~= if tree.len() > 0 {
                        tree.subrange(1, i as int)
                    } else {
                        seq![]
                    },
                decreases items@.len() - i,
            {
                let ghost prev = found@;
                found.push(&items[i]);
                assert(tree_refs(found@) =~= tree_refs(prev).push(tree[i as int]));
                i = i + 1;
            }
        },
        None => {},
    }
    assert(tree_refs(found@) =~= spec_entries(value@));
    found
}

/// The `index`-th argument of a list: its entry at position `index + 1`.
pub fn argument(value: &SExpr, index: usize) -> (r: Option<&SExpr>)
    ensures
        match r {
            Some(a) => spec_argument(value@, index as int) == Some(a@),
            None => spec_argument(value@, index as int) is None,
        },
{
    match list_items(value) {
        Some(items) => {
            if index < items.len() && index + 1 < items.len() {
                Some(&items[index + 1])
            } else {
                None
            }
        },
        None => None,
    }
}

/// The text of a string or a symbol.
pub fn text(value: &SExpr) -> (r: Option<&str>)
    ensures
        match r {
            Some(s) => spec_text(value@) == Some(s@),
            None => spec_text(value@) is None,
        },
{
    match value {
        SExpr::Str(s) => Some(s.as_str()),
        SExpr::Symbol(s) => Some(s.as_str()),
        _ => None,
    }
}

/// The value of a number.
pub fn number(value: &SExpr) -> (r: Option<Real>)
    ensures
        r == spec_number(value@),
{
    match value {
        SExpr::Number(x, _) => Some(*x),
        _ => None,
    }
}

/// The `i64` value of an integer.
pub fn integer(value: &SExpr) -> (r: Option<i64>)
    ensures
        r == spec_integer(value@),
{
    match value {
        SExpr::Number(_, i) => *i,
        _ => None,
    }
}

/// The text of an optional tree.
pub fn optional_text(value: Option<&SExpr>) -> (r: Option<&str>)
    ensures
        match r {
            Some(s) => text_of(opt_tree(value)) == Some(s@),
            None => text_of(opt_tree(value)) is None,
        },
{
    match value {
        Some(v) => text(v),
        None => None,
    }
}

/// The number of an optional tree.
pub fn optional_number(value: Option<&SExpr>) -> (r: Option<Real>)
    ensures
        r == number_of(opt_tree(value)),
{
    match value {
        Some(v) => number(v),
        None => None,
    }
}

/// The `i64` value of an optional tree.
pub fn optional_integer(value: Option<&SExpr>) -> (r: Option<i64>)
    ensures
        r == integer_of(opt_tree(value)),
{
    match value {
        Some(v) => integer(v),
        None => None,
    }
}

/// The `index`-th argument of an optional tree.
pub fn optional_argument(value: Option<&SExpr>, index: usize) -> (r: Option<&SExpr>)
    ensures
        opt_tree(r) == argument_of(opt_tree(value), index as int),
{
    match value {
        Some(v) => argument(v, index),
        None => None,
    }
}

/// The text of the first argument of the child `name`.
pub fn child_text<'a>(value: &'a SExpr, name: &str) -> (r: Option<&'a str>)
    ensures
        match r {
            Some(s) => spec_child_text(value@, name@) == Some(s@),
            None => spec_child_text(value@, name@) is None,
        },
{
    optional_text(optional_argument(child(value, name), 0))
}

/// The number of the first argument of the child `name`.
pub fn child_number(value: &SExpr, name: &str) -> (r: Option<Real>)
    ensures
        r == spec_child_number(value@, name@),
{
    optional_number(optional_argument(child(value, name), 0))
}

/// The point whose coordinates are the first two arguments of `node`.
fn node_coordinates(node: &SExpr) -> (r: Option<Point>)
    ensures
        r == node_point(node@),
{
    match (optional_number(argument(node, 0)), optional_number(argument(node, 1))) {
        (Some(x), Some(y)) => Some(Point::new(x, y)),
        _ => None,
    }
}

/// The point given by the first two arguments of the child `name`.
pub fn point(value: &SExpr, name: &str) -> (r: Option<Point>)
    ensures
        r == spec_point(value@, name@),
{
    match child(value, name) {
        Some(node) => node_coordinates(node),
        None => None,
    }
}

/// The point given by the child `name`, which must be present.
pub fn required_point(value: &SExpr, name: &str) -> (r: Result<Point, AdapterError>)
    ensures
        match r {
            Ok(p) => spec_required_point(value@, name@) == Ok::<Point, SpecAdapterError>(p),
            Err(e) => spec_required_point(value@, name@) == Err::<Point, SpecAdapterError>(e@),
        },
{
    match point(value, name) {
        Some(p) => Ok(p),
        None => {
            let mut message = String::from_str("Missing KiCad '");
            message.append(name);
            message.append("' coordinates");
            Err(AdapterError::MissingField(message))
        },
    }
}

/// The texts of the arguments of a list, skipping arguments that have none.
pub fn arguments_text(value: &SExpr) -> (r: Vec<String>)
    ensures
        r.deep_view() == spec_arguments_text(value@),
{
    let mut texts: Vec<String> = Vec::new();
    match list_items(value) {
        Some(items) => {
            let ghost tree = value@->List_0;
            let mut i: usize = 1;
            while i < items.len()
                invariant
                    1 <= i,
                    i <= items@.len() || i == 1,
                    items@.len() == tree.len(),
                    value@ == SpecSExpr::List(tree),
                    forall|x: int| 0 <= x < tree.len() ==> (#[trigger] items@[x])@ == tree[x],
                    texts.deep_view() == texts_upto(tree, i as int),
                decreases items@.len() - i,
            {
                match text(&items[i]) {
                    Some(t) => texts.push(t.to_owned()),
                    None => {},
                }
                assert(texts.deep_view() =~= texts_upto(tree, i + 1));
                i = i + 1;
            }
            proof {
                if tree.len() == 0 {
                    assert(texts_upto(tree, 0) =~= texts_upto(tree, 1));
                }
                assert(texts.deep_view() == texts_upto(tree, tree.len() as int));
                assert(spec_arguments_text(value@) == texts_upto(tree, tree.len() as int));
            }
        },
        None => {
            assert(texts.deep_view() =~= seq![]);
        },
    }
    texts
}

/// The third argument of the child `name` as an angle, zero when absent.
pub fn child_rotation(value: &SExpr, name: &str) -> (r: Real)
    ensures
        r == spec_child_rotation(value@, name@),
{
    match optional_number(optional_argument(child(value, name), 2)) {
        Some(x) => x,
        None => Real::zero(),
    }
}

/// The points of the `xy` entries of the child `name`.
pub fn child_xy_points(value: &SExpr, name: &str) -> (r: Vec<Point>)
    ensures
        r@ == spec_child_xy_points(value@, name@),
{
    let mut points: Vec<Point> = Vec::new();
    match child(value, name) {
        Some(node) => {
            let xs = children(node, "xy");
            let ghost nodes = spec_children(node@, "xy"@);
            let mut i: usize = 0;
            while i < xs.len()
                invariant
                    i <= xs@.len(),
                    tree_refs(xs@) == nodes,
                    points@ == points_upto(nodes, i as int),
                decreases xs@.len() - i,
            {
                assert(xs@[i as int]@ == nodes[i as int]);
                match node_coordinates(xs[i]) {
                    Some(p) => points.push(p),
                    None => {},
                }
                assert(points@ =~= points_upto(nodes, i + 1));
                i = i + 1;
            }
        },
        None => {},
    }
    points
}

/// The error for text that `lexpr` cannot read, with `lexpr`'s message.
pub open spec fn syntax_error(message: Seq<char>) -> SpecAdapterError {
    SpecAdapterError::InvalidSyntax("Invalid KiCad S-expression: "@ + message)
}

/// Reads KiCad S-expression text into a tree.
pub fn parse(source: &str) -> (r: Result<SExpr, AdapterError>)
    ensures
        match lexpr_reading(source@) {
            Ok(t) => r matches Ok(tree) && tree@ == t,
            Err(m) => r matches Err(e) && e@ == syntax_error(m),
        },
{
    match read_sexpr(source) {
        Ok(tree) => Ok(tree),
        Err(message) => {
            let mut text = String::from_str("Invalid KiCad S-expression: ");
            text.append(message.as_str());
            Err(AdapterError::InvalidSyntax(text))
        },
    }
}

} // verus!
