//! KiCad footprint pad conversion. Pads stay in footprint-local coordinates.

use vstd::prelude::*;

use super::native::{
    kicad_id, kicad_object_id, native_id_or_unknown, native_or_unknown, or_empty, source_ref,
    spec_source_ref,
};
use super::pcb::{net_reference, spec_net_reference};
use super::sexpr::{
    argument, argument_of, arguments_text, child, number_of, number_or, optional_argument, optional_number, optional_text, required_point, spec_argument,
    spec_arguments_text, spec_child, spec_required_point, text_of, SExpr, SpecSExpr,
};
use crate::adapter::error::{result_view, AdapterError, SpecAdapterError};
use crate::model::common::{ObjectId, Real, Rotation, Size};
use crate::model::pcb::{Pad, SpecPad};

verus! {

/// The drill diameter of a pad: the first numeric argument of its `drill`
/// entry among the first two.
pub open spec fn spec_drill(v: SpecSExpr) -> Option<Real> {
    match spec_child(v, "drill"@) {
        Some(d) => match number_of(spec_argument(d, 0)) {
            Some(x) => Some(x),
            None => number_of(spec_argument(d, 1)),
        },
        None => None,
    }
}

/// The pad that a `pad` entry describes, for a board whose nets have the
/// ordinals `ordinals`.
pub open spec fn spec_pad(v: SpecSExpr, path: Seq<char>, ordinals: Seq<i64>) -> Result<
    SpecPad,
    SpecAdapterError,
> {
    let native = native_or_unknown(v);
    let size = spec_child(v, "size"@);
    let width = number_or(number_of(argument_of(size, 0)), Real(0));
    let height = number_or(number_of(argument_of(size, 1)), width);
    match spec_required_point(v, "at"@) {
        Err(e) => Err(e),
        Ok(position) => Ok(
            SpecPad {
                id: kicad_id(native),
                number: or_empty(text_of(spec_argument(v, 0))),
                kind: or_empty(text_of(spec_argument(v, 1))),
                shape: or_empty(text_of(spec_argument(v, 2))),
                position,
                rotation: Rotation {
                    degrees: number_or(number_of(argument_of(spec_child(v, "at"@), 2)), Real(0)),
                },
                size: Size { width_mm: width, height_mm: height },
                drill_mm: spec_drill(v),
                layers: match spec_child(v, "layers"@) {
                    Some(l) => spec_arguments_text(l),
                    None => seq![],
                },
                net_id: spec_net_reference(v, ordinals),
                source: spec_source_ref(path, native),
            },
        ),
    }
}

/// A text, or the empty text when absent.
fn text_or_empty(t: Option<&str>) -> (r: String)
    ensures
        r@ == or_empty(
            match t {
                Some(s) => Some(s@),
                None => None,
            },
        ),
{
    match t {
        Some(s) => s.to_owned(),
        None => String::new(),
    }
}

/// Converts a `pad` entry of a footprint.
pub fn parse(value: &SExpr, path: &str, net_ordinals: &Vec<i64>) -> (r: Result<Pad, AdapterError>)
    ensures
        result_view(r) == spec_pad(value@, path@, net_ordinals@),
{
    let native_id = native_id_or_unknown(value);
    let at = child(value, "at");
    let size = child(value, "size");
    let width_mm = match optional_number(optional_argument(size, 0)) {
        Some(x) => x,
        None => Real::zero(),
    };
    let height_mm = match optional_number(optional_argument(size, 1)) {
        Some(x) => x,
        None => width_mm,
    };
    let position = match required_point(value, "at") {
        Ok(p) => p,
        Err(e) => return Err(e),
    };
    let degrees = match optional_number(optional_argument(at, 2)) {
        Some(x) => x,
        None => Real::zero(),
    };
    let layers = match child(value, "layers") {
        Some(l) => arguments_text(l),
        None => Vec::new(),
    };
    proof {
        assert(layers.deep_view() =~= match spec_child(value@, "layers"@) {
            Some(l) => spec_arguments_text(l),
            None => seq![],
        });
    }
    Ok(
        Pad {
            id: ObjectId(kicad_object_id(native_id.as_str())),
            number: text_or_empty(optional_text(argument(value, 0))),
            kind: text_or_empty(optional_text(argument(value, 1))),
            shape: text_or_empty(optional_text(argument(value, 2))),
            position,
            rotation: Rotation { degrees },
            size: Size::new(width_mm, height_mm),
            drill_mm: parse_drill(value),
            layers,
            net_id: net_reference(value, net_ordinals),
            source: source_ref(path, native_id),
        },
    )
}

/// The drill diameter of a pad.
pub fn parse_drill(value: &SExpr) -> (r: Option<Real>)
    ensures
        r == spec_drill(value@),
{
    match child(value, "drill") {
        Some(drill) => match optional_number(argument(drill, 0)) {
            Some(x) => Some(x),
            None => optional_number(argument(drill, 1)),
        },
        None => None,
    }
}

} // verus!
