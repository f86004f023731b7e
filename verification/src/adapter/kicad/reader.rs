//! Reading S-expression text with the `lexpr` crate.
//!
//! `lexpr` parses the text into its own `Value` tree. The functions below are
//! the only places where the library touches that tree: each makes one call
//! into `lexpr` and states what it returns in terms of `value_tree`, the tree
//! of plain values that a `lexpr::Value` holds. The adapter then works on its
//! own `SExpr` tree only.

use vstd::prelude::*;

use super::sexpr::{SExpr, SpecSExpr};
use crate::model::common::Real;

verus! {

#[verifier::external_type_specification]
#[verifier::external_body]
pub struct ExLexprValue(lexpr::Value);

/// What a `lexpr::Value` holds, as a tree of plain values: a proper list
/// (`Null`, or a chain of cons cells, of which only the elements before a
/// non-list tail count, as `list_iter` yields them) is a `List` of the trees
/// of its elements; a `Symbol` is a `Symbol`; a `String` is a `Str`; a
/// `Number` is a `Number` of its `as_f64` value (by its bit pattern) and its
/// `as_i64` value; every other value (`Nil`, booleans, characters, keywords,
/// byte vectors, vectors) is `Other`.
pub uninterp spec fn value_tree(value: lexpr::Value) -> SpecSExpr;

/// What `lexpr::from_str` gives for a text with its default options: the tree
/// of the value it reads, or the message of its error.
pub uninterp spec fn lexpr_reading(source: Seq<char>) -> Result<SpecSExpr, Seq<char>>;

/// Calls `lexpr::from_str`. Claims that the value read, or the error message
/// (the error's `Display` text), is `lexpr_reading` of the text: a function of
/// the text alone.
#[verifier::external_body]
fn read_value(source: &str) -> (r: Result<lexpr::Value, String>)
    ensures
        match r {
            Ok(v) => lexpr_reading(source@) == Ok::<SpecSExpr, Seq<char>>(value_tree(v)),
            Err(m) => lexpr_reading(source@) == Err::<SpecSExpr, Seq<char>>(m@),
        },
{
    lexpr::from_str(source).map_err(|error| error.to_string())
}

/// Calls `lexpr::Value::list_iter` and collects the elements it yields before
/// its first `None`. Claims that a value is a list exactly when its tree is,
/// and that the elements' trees are the tree's elements.
#[verifier::external_body]
fn value_items(value: &lexpr::Value) -> (r: Option<Vec<lexpr::Value>>)
    ensures
        match value_tree(*value) {
            SpecSExpr::List(items) => r matches Some(vs) && vs@.len() == items.len() && forall|
                i: int,
            |
                0 <= i < items.len() ==> value_tree(#[trigger] vs@[i]) == items[i],
            _ => r is None,
        },
{
    value.list_iter().map(|elements| elements.cloned().collect())
}

/// Calls `lexpr::Value::as_symbol`. Claims that it gives the name of a
/// symbol and nothing for any other value.
#[verifier::external_body]
fn value_symbol(value: &lexpr::Value) -> (r: Option<String>)
    ensures
        match value_tree(*value) {
            SpecSExpr::Symbol(s) => r matches Some(t) && t@ == s,
            _ => r is None,
        },
{
    value.as_symbol().map(str::to_owned)
}

/// Calls `lexpr::Value::as_str`. Claims that it gives the text of a string
/// and nothing for any other value.
#[verifier::external_body]
fn value_string(value: &lexpr::Value) -> (r: Option<String>)
    ensures
        match value_tree(*value) {
            SpecSExpr::Str(s) => r matches Some(t) && t@ == s,
            _ => r is None,
        },
{
    value.as_str().map(str::to_owned)
}

/// Calls `lexpr::Value::as_f64`, giving the IEEE-754 bit pattern of the result.
/// Claims that it gives a value for every number and nothing otherwise.
#[verifier::external_body]
fn value_f64_bits(value: &lexpr::Value) -> (r: Option<u64>)
    ensures
        match value_tree(*value) {
            SpecSExpr::Number(x, _) => r == Some(x.0),
            _ => r is None,
        },
{
    value.as_f64().map(|number| number.to_bits())
}

/// Calls `lexpr::Value::as_i64`. Claims that it gives the integer part of a
/// number's tree and nothing for any other value.
#[verifier::external_body]
fn value_i64(value: &lexpr::Value) -> (r: Option<i64>)
    ensures
        match value_tree(*value) {
            SpecSExpr::Number(_, i) => r == i,
            _ => r is None,
        },
{
    value.as_i64()
}

/// The tree of a `lexpr::Value`, built from its parts.
fn to_tree(value: &lexpr::Value) -> (t: SExpr)
    ensures
        t@ == value_tree(*value),
    decreases value_tree(*value),
{
    match value_items(value) {
        Some(elements) => {
            let ghost items = value_tree(*value)->List_0;
            let mut trees: Vec<SExpr> = Vec::new();
            let mut i: usize = 0;
            while i < elements.len()
                invariant
                    i <= elements@.len(),
                    elements@.len() == items.len(),
                    value_tree(*value) == SpecSExpr::List(items),
                    forall|x: int|
                        0 <= x < items.len() ==> value_tree(#[trigger] elements@[x]) == items[x],
                    trees@.len() == i,
                    forall|x: int| 0 <= x < i ==> (#[trigger] trees@[x])@ == items[x],
                decreases elements@.len() - i,
            {
                proof {
                    let tree = value_tree(*value);
                    assert(decreases_to!(tree => tree->List_0));
                    assert(decreases_to!(tree->List_0 => tree->List_0[i as int]));
                }
                let t = to_tree(&elements[i]);
                trees.push(t);
                i = i + 1;
            }
            let t = SExpr::List(trees);
            assert(t@ == SpecSExpr::List(items)) by {
                assert(t@->List_0 =~= items);
            }
            t
        },
        None => match value_symbol(value) {
            Some(s) => SExpr::Symbol(s),
            None => match value_string(value) {
                Some(s) => SExpr::Str(s),
                None => match value_f64_bits(value) {
                    Some(bits) => SExpr::Number(Real(bits), value_i64(value)),
                    None => SExpr::Other,
                },
            },
        },
    }
}

/// Reads S-expression text with `lexpr`: the tree read, or the error message.
pub fn read_sexpr(source: &str) -> (r: Result<SExpr, String>)
    ensures
        match r {
            Ok(t) => lexpr_reading(source@) == Ok::<SpecSExpr, Seq<char>>(t@),
            Err(m) => lexpr_reading(source@) == Err::<SpecSExpr, Seq<char>>(m@),
        },
{
    match read_value(source) {
        Ok(value) => Ok(to_tree(&value)),
        Err(message) => Err(message),
    }
}

} // verus!
