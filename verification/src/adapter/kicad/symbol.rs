//! KiCad embedded symbol-library conversion: the symbol definitions embedded
//! in `.kicad_sch` files, with their units, drawing primitives and pins.

use vstd::prelude::*;

use super::native::{decimal, digit_char, digits, or_empty};
use super::sexpr::{
    argument, child, child_number, child_rotation, child_text, child_xy_points, children, head,
    list_entries, optional_text, point, spec_argument, spec_child, spec_child_number,
    spec_child_rotation, spec_child_text, spec_child_xy_points, spec_children, spec_entries, spec_head,
    spec_point, text_equals, text_of, tree_refs, SExpr, SpecSExpr,
};
use crate::model::common::{Real, Rotation};
use crate::model::schematic::{
    SpecSymbolDefinition, SpecSymbolGraphic, SpecSymbolPin, SpecSymbolUnit, SymbolDefinition,
    SymbolFill, SymbolGraphic, SymbolPin, SymbolUnit,
};

verus! {

// ---------------------------------------------------------------------------
// Unit and style numbers: `<name>_<unit>_<style>`.

/// The last index below `n` of character `c` in `s`.
pub open spec fn last_index_of(s: Seq<char>, c: char, n: int) -> Option<int>
    decreases n,
{
    if n <= 0 {
        None
    } else if s[n - 1] == c {
        Some(n - 1)
    } else {
        last_index_of(s, c, n - 1)
    }
}

pub open spec fn is_digit(c: char) -> bool {
    '0' <= c <= '9'
}

/// The value of a sequence of decimal digits.
pub open spec fn digits_value(d: Seq<char>) -> nat
    decreases d.len(),
{
    if d.len() == 0 {
        0
    } else {
        digits_value(d.drop_last()) * 10 + (d.last() as nat - '0' as nat) as nat
    }
}

/// The text after an optional leading `+`.
pub open spec fn unsigned_digits(s: Seq<char>) -> Seq<char> {
    if s.len() > 0 && s[0] == '+' {
        s.drop_first()
    } else {
        s
    }
}

/// Every character is a decimal digit.
pub open spec fn all_digits(d: Seq<char>) -> bool {
    forall|i: int| 0 <= i < d.len() ==> is_digit(#[trigger] d[i])
}

/// What `str::parse::<u32>` gives: an optional `+` followed by at least one
/// decimal digit, whose value fits in a `u32`.
pub open spec fn spec_parse_u32(s: Seq<char>) -> Option<u32> {
    let d = unsigned_digits(s);
    if d.len() == 0 || !all_digits(d) {
        None
    } else if digits_value(d) > u32::MAX {
        None
    } else {
        Some(digits_value(d) as u32)
    }
}

/// The unit and style numbers of a unit symbol named `<name>_<unit>_<style>`:
/// the last two `_`-separated parts of the name.
pub open spec fn spec_unit_style(id: Seq<char>) -> Option<(u32, u32)> {
    match last_index_of(id, '_', id.len() as int) {
        None => None,
        Some(p) => {
            let style_text = id.subrange(p + 1, id.len() as int);
            let rest = id.subrange(0, p);
            let unit_text = match last_index_of(rest, '_', rest.len() as int) {
                Some(q) => rest.subrange(q + 1, rest.len() as int),
                None => rest,
            };
            match (spec_parse_u32(style_text), spec_parse_u32(unit_text)) {
                (Some(style), Some(unit)) => Some((unit, style)),
                _ => None,
            }
        },
    }
}

proof fn lemma_last_index_of(s: Seq<char>, c: char, n: int)
    requires
        n <= s.len(),
    ensures
        match last_index_of(s, c, n) {
            Some(i) => 0 <= i < n && s[i] == c,
            None => forall|x: int| 0 <= x < n ==> s[x] != c,
        },
    decreases n,
{
    if n > 0 {
        lemma_last_index_of(s, c, n - 1);
    }
}

proof fn lemma_digits_value_grows(d: Seq<char>, n: int)
    requires
        0 <= n <= d.len(),
        forall|x: int| 0 <= x < d.len() ==> is_digit(d[x]),
    ensures
        digits_value(d.take(n)) <= digits_value(d),
    decreases d.len() - n,
{
    if n < d.len() {
        lemma_digits_value_grows(d, n + 1);
        let longer = d.take(n + 1);
        assert(longer.drop_last() =~= d.take(n));
        assert(is_digit(longer.last()));
        assert(digits_value(longer) == digits_value(d.take(n)) * 10 + (longer.last() as nat
            - '0' as nat) as nat);
    } else {
        assert(d.take(n) =~= d);
    }
}

proof fn lemma_digit_char(k: nat)
    requires
        k < 10,
    ensures
        is_digit(digit_char(k)),
        digit_char(k) as nat - '0' as nat == k,
{
    assert('0' as nat == 48);
    if k == 0 {
        assert('0' as nat == 48);
    } else if k == 1 {
        assert('1' as nat == 49);
    } else if k == 2 {
        assert('2' as nat == 50);
    } else if k == 3 {
        assert('3' as nat == 51);
    } else if k == 4 {
        assert('4' as nat == 52);
    } else if k == 5 {
        assert('5' as nat == 53);
    } else if k == 6 {
        assert('6' as nat == 54);
    } else if k == 7 {
        assert('7' as nat == 55);
    } else if k == 8 {
        assert('8' as nat == 56);
    } else {
        assert('9' as nat == 57);
    }
}

proof fn lemma_digits_shape(n: nat)
    ensures
        digits(n).len() > 0,
        all_digits(digits(n)),
        digits_value(digits(n)) == n,
    decreases n,
{
    let d = digits(n);
    if n < 10 {
        lemma_digit_char(n);
        assert(d.drop_last() =~= Seq::<char>::empty());
        assert(d.last() == digit_char(n));
        assert(digits_value(d.drop_last()) == 0);
        assert(digits_value(d) == digits_value(d.drop_last()) * 10 + (d.last() as nat
            - '0' as nat) as nat);
    } else {
        lemma_digits_shape(n / 10);
        lemma_digit_char(n % 10);
        assert(d.drop_last() =~= digits(n / 10));
        assert(d.last() == digit_char(n % 10));
        assert(digits_value(d) == digits_value(d.drop_last()) * 10 + (d.last() as nat
            - '0' as nat) as nat);
        assert(digits_value(d) == (n / 10) * 10 + n % 10);
        assert(d.last() == digit_char(n % 10));
        assert forall|i: int| 0 <= i < d.len() implies is_digit(#[trigger] d[i]) by {
            if i < d.len() - 1 {
                assert(d[i] == digits(n / 10)[i]);
            }
        }
    }
}

/// The last `c` of `x + [c] + d` stands right after `x` when `d` holds no `c`.
proof fn lemma_last_index_after(x: Seq<char>, c: char, d: Seq<char>, n: int)
    requires
        x.len() < n <= x.len() + 1 + d.len(),
        forall|i: int| 0 <= i < d.len() ==> d[i] != c,
    ensures
        last_index_of(x + seq![c] + d, c, n) == Some(x.len() as int),
    decreases n,
{
    let t = x + seq![c] + d;
    if n > x.len() + 1 {
        assert(t[n - 1] == d[n - 1 - x.len() - 1]);
        lemma_last_index_after(x, c, d, n - 1);
    } else {
        assert(t[n - 1] == c);
    }
}

/// The digits of `n`, parsed as `str::parse::<u32>` does, give `n` back.
proof fn lemma_parse_digits(n: u32)
    ensures
        spec_parse_u32(digits(n as nat)) == Some(n),
        forall|i: int| 0 <= i < digits(n as nat).len() ==> digits(n as nat)[i] != '_',
{
    let d = digits(n as nat);
    lemma_digits_shape(n as nat);
    assert(unsigned_digits(d) == d) by {
        assert(is_digit(d[0]));
    }
    assert forall|i: int| 0 <= i < d.len() implies d[i] != '_' by {
        assert(is_digit(d[i]));
    }
}

/// In `x + "_" + d`, where `d` holds no `_`, the last `_` stands right after
/// `x`.
proof fn lemma_split_last(x: Seq<char>, d: Seq<char>)
    requires
        forall|i: int| 0 <= i < d.len() ==> d[i] != '_',
    ensures
        last_index_of(x + seq!['_'] + d, '_', (x + seq!['_'] + d).len() as int) == Some(
            x.len() as int,
        ),
        (x + seq!['_'] + d).subrange(x.len() as int + 1, (x + seq!['_'] + d).len() as int) == d,
        (x + seq!['_'] + d).subrange(0, x.len() as int) == x,
{
    let t = x + seq!['_'] + d;
    lemma_last_index_after(x, '_', d, t.len() as int);
    assert(t.subrange(x.len() as int + 1, t.len() as int) =~= d);
    assert(t.subrange(0, x.len() as int) =~= x);
}

/// A unit named `<name>_<unit>_<style>`, with both numbers written in
/// decimal, has that unit and that style, whatever the name holds (`_` in it
/// included).
pub proof fn lemma_unit_style_of_name(name: Seq<char>, unit: u32, style: u32)
    ensures
        spec_unit_style(name + "_"@ + decimal(unit as int) + "_"@ + decimal(style as int)) == Some(
            (unit, style),
        ),
{
    reveal_strlit("_");
    assert("_"@ =~= seq!['_']);
    let du = digits(unit as nat);
    let ds = digits(style as nat);
    assert(decimal(unit as int) == du);
    assert(decimal(style as int) == ds);
    lemma_parse_digits(unit);
    lemma_parse_digits(style);
    let rest = name + seq!['_'] + du;
    let id = rest + seq!['_'] + ds;
    lemma_split_last(rest, ds);
    lemma_split_last(name, du);
    assert(name + "_"@ + decimal(unit as int) + "_"@ + decimal(style as int) == id);
}

/// The last index of character `c` in `s`.
fn find_last(s: &str, c: char) -> (r: Option<usize>)
    ensures
        match r {
            Some(i) => last_index_of(s@, c, s@.len() as int) == Some(i as int),
            None => last_index_of(s@, c, s@.len() as int) is None,
        },
{
    let mut n = s.unicode_len();
    while n > 0
        invariant
            n <= s@.len(),
            last_index_of(s@, c, s@.len() as int) == last_index_of(s@, c, n as int),
        decreases n,
    {
        if s.get_char(n - 1) == c {
            return Some(n - 1);
        }
        n = n - 1;
    }
    None
}

/// Parses a `u32` as `str::parse::<u32>` does.
pub fn parse_u32(s: &str) -> (r: Option<u32>)
    ensures
        r == spec_parse_u32(s@),
{
    let len = s.unicode_len();
    let start: usize = if len > 0 && s.get_char(0) == '+' {
        1
    } else {
        0
    };
    let ghost d = unsigned_digits(s@);
    assert(d =~= s@.subrange(start as int, len as int));
    if start == len {
        return None;
    }
    let mut i = start;
    while i < len
        invariant
            start <= i <= len,
            len == s@.len(),
            d == unsigned_digits(s@),
            d =~= s@.subrange(start as int, len as int),
            forall|x: int| 0 <= x < i - start ==> is_digit(d[x]),
        decreases len - i,
    {
        let c = s.get_char(i);
        if !('0' <= c && c <= '9') {
            assert(d[i - start] == c);
            assert(!is_digit(d[i - start]));
            return None;
        }
        i = i + 1;
    }
    let mut value: u64 = 0;
    let mut i = start;
    while i < len
        invariant
            start <= i <= len,
            len == s@.len(),
            d == unsigned_digits(s@),
            d =~= s@.subrange(start as int, len as int),
            forall|x: int| 0 <= x < d.len() ==> is_digit(d[x]),
            value == digits_value(d.take(i - start)),
            value <= u32::MAX,
        decreases len - i,
    {
        let c = s.get_char(i);
        assert(d.take(i - start + 1).drop_last() =~= d.take(i - start));
        assert(d.take(i - start + 1).last() == c);
        let digit = (c as u32 - '0' as u32) as u64;
        let next = value * 10 + digit;
        if next > 0xffff_ffff {
            proof {
                lemma_digits_value_grows(d, i - start + 1);
            }
            return None;
        }
        value = next;
        i = i + 1;
    }
    assert(d.take(d.len() as int) =~= d);
    Some(value as u32)
}

/// The unit and style numbers of a unit symbol named `<name>_<unit>_<style>`.
pub fn unit_style(id: &str) -> (r: Option<(u32, u32)>)
    ensures
        r == spec_unit_style(id@),
{
    let p = match find_last(id, '_') {
        Some(p) => p,
        None => return None,
    };
    proof {
        lemma_last_index_of(id@, '_', id@.len() as int);
    }
    let len = id.unicode_len();
    let style_text = id.substring_char(p + 1, len);
    let rest = id.substring_char(0, p);
    let unit_text = match find_last(rest, '_') {
        Some(q) => {
            proof {
                lemma_last_index_of(rest@, '_', rest@.len() as int);
            }
            rest.substring_char(q + 1, rest.unicode_len())
        },
        None => rest,
    };
    match (parse_u32(style_text), parse_u32(unit_text)) {
        (Some(style), Some(unit)) => Some((unit, style)),
        _ => None,
    }
}

// ---------------------------------------------------------------------------
// What a symbol definition holds.

/// The stroke width of a drawing primitive, zero when absent.
pub open spec fn spec_stroke_width(v: SpecSExpr) -> Real {
    match spec_child(v, "stroke"@) {
        Some(stroke) => match spec_child_number(stroke, "width"@) {
            Some(x) => x,
            None => Real(0),
        },
        None => Real(0),
    }
}

/// The fill mode of a drawing primitive.
pub open spec fn spec_fill(v: SpecSExpr) -> SymbolFill {
    match spec_child(v, "fill"@) {
        Some(f) => match spec_child_text(f, "type"@) {
            Some(t) => if t == "outline"@ {
                SymbolFill::Outline
            } else if t == "background"@ {
                SymbolFill::Background
            } else {
                SymbolFill::Unfilled
            },
            None => SymbolFill::Unfilled,
        },
        None => SymbolFill::Unfilled,
    }
}

pub open spec fn spec_rectangle(v: SpecSExpr) -> Option<SpecSymbolGraphic> {
    match (spec_point(v, "start"@), spec_point(v, "end"@)) {
        (Some(start), Some(end)) => Some(
            SpecSymbolGraphic::Rectangle {
                start,
                end,
                stroke_width_mm: spec_stroke_width(v),
                fill: spec_fill(v),
            },
        ),
        _ => None,
    }
}

pub open spec fn spec_polyline(v: SpecSExpr) -> Option<SpecSymbolGraphic> {
    Some(
        SpecSymbolGraphic::Polyline {
            points: spec_child_xy_points(v, "pts"@),
            stroke_width_mm: spec_stroke_width(v),
            fill: spec_fill(v),
        },
    )
}

pub open spec fn spec_circle(v: SpecSExpr) -> Option<SpecSymbolGraphic> {
    match (spec_point(v, "center"@), spec_child_number(v, "radius"@)) {
        (Some(center), Some(radius_mm)) => Some(
            SpecSymbolGraphic::Circle {
                center,
                radius_mm,
                stroke_width_mm: spec_stroke_width(v),
                fill: spec_fill(v),
            },
        ),
        _ => None,
    }
}

pub open spec fn spec_symbol_arc(v: SpecSExpr) -> Option<SpecSymbolGraphic> {
    match (spec_point(v, "start"@), spec_point(v, "mid"@), spec_point(v, "end"@)) {
        (Some(start), Some(mid), Some(end)) => Some(
            SpecSymbolGraphic::Arc {
                start,
                mid,
                end,
                stroke_width_mm: spec_stroke_width(v),
                fill: spec_fill(v),
            },
        ),
        _ => None,
    }
}

/// The drawing primitive that an entry describes, by its head.
pub open spec fn spec_graphic(v: SpecSExpr) -> Option<SpecSymbolGraphic> {
    match spec_head(v) {
        Some(h) => if h == "rectangle"@ {
            spec_rectangle(v)
        } else if h == "polyline"@ {
            spec_polyline(v)
        } else if h == "circle"@ {
            spec_circle(v)
        } else if h == "arc"@ {
            spec_symbol_arc(v)
        } else {
            None
        },
        None => None,
    }
}

pub open spec fn graphics_upto(entries: Seq<SpecSExpr>, n: int) -> Seq<SpecSymbolGraphic>
    decreases n,
{
    if n <= 0 {
        seq![]
    } else {
        graphics_upto(entries, n - 1) + match spec_graphic(entries[n - 1]) {
            Some(g) => seq![g],
            None => seq![],
        }
    }
}

/// The pin that a `pin` entry describes.
pub open spec fn spec_pin(v: SpecSExpr) -> Option<SpecSymbolPin> {
    match (text_of(spec_argument(v, 0)), text_of(spec_argument(v, 1)), spec_point(v, "at"@)) {
        (Some(electrical_type), Some(graphic_style), Some(position)) => Some(
            SpecSymbolPin {
                number: or_empty(spec_child_text(v, "number"@)),
                name: or_empty(spec_child_text(v, "name"@)),
                electrical_type,
                graphic_style,
                position,
                rotation: Rotation { degrees: spec_child_rotation(v, "at"@) },
                length_mm: match spec_child_number(v, "length"@) {
                    Some(x) => x,
                    None => Real(0),
                },
            },
        ),
        _ => None,
    }
}

pub open spec fn pins_upto(nodes: Seq<SpecSExpr>, n: int) -> Seq<SpecSymbolPin>
    decreases n,
{
    if n <= 0 {
        seq![]
    } else {
        pins_upto(nodes, n - 1) + match spec_pin(nodes[n - 1]) {
            Some(p) => seq![p],
            None => seq![],
        }
    }
}

/// The unit drawn by the entries of `v`: its primitives in order and its pins.
pub open spec fn spec_unit(v: SpecSExpr, unit: u32, style: u32) -> SpecSymbolUnit {
    let entries = spec_entries(v);
    let pins = spec_children(v, "pin"@);
    SpecSymbolUnit {
        unit,
        style,
        graphics: graphics_upto(entries, entries.len() as int),
        pins: pins_upto(pins, pins.len() as int),
    }
}

pub open spec fn is_drawable_head(h: Option<Seq<char>>) -> bool {
    ||| h == Some("rectangle"@)
    ||| h == Some("polyline"@)
    ||| h == Some("circle"@)
    ||| h == Some("arc"@)
    ||| h == Some("pin"@)
}

/// Some entry of `v` draws something of its own.
pub open spec fn spec_has_drawables(v: SpecSExpr) -> bool {
    let entries = spec_entries(v);
    exists|i: int| 0 <= i < entries.len() && is_drawable_head(spec_head(#[trigger] entries[i]))
}

/// The units of the unit symbols among `nodes[..n]`, or nothing when one of
/// them has no name or no `<unit>_<style>` suffix.
pub open spec fn units_upto(nodes: Seq<SpecSExpr>, n: int) -> Option<Seq<SpecSymbolUnit>>
    decreases n,
{
    if n <= 0 {
        Some(seq![])
    } else {
        match units_upto(nodes, n - 1) {
            None => None,
            Some(units) => match text_of(spec_argument(nodes[n - 1], 0)) {
                None => None,
                Some(id) => match spec_unit_style(id) {
                    None => None,
                    Some((unit, style)) => Some(units.push(spec_unit(nodes[n - 1], unit, style))),
                },
            },
        }
    }
}

/// The definition that a library `symbol` entry describes: unit 0 for its own
/// drawing, if any, then its unit symbols.
pub open spec fn spec_definition(v: SpecSExpr) -> Option<SpecSymbolDefinition> {
    match text_of(spec_argument(v, 0)) {
        None => None,
        Some(library_id) => {
            let nodes = spec_children(v, "symbol"@);
            match units_upto(nodes, nodes.len() as int) {
                None => None,
                Some(units) => Some(
                    SpecSymbolDefinition {
                        library_id,
                        units: if spec_has_drawables(v) {
                            seq![spec_unit(v, 0, 0)] + units
                        } else {
                            units
                        },
                    },
                ),
            }
        },
    }
}

pub open spec fn definitions_upto(nodes: Seq<SpecSExpr>, n: int) -> Seq<SpecSymbolDefinition>
    decreases n,
{
    if n <= 0 {
        seq![]
    } else {
        definitions_upto(nodes, n - 1) + match spec_definition(nodes[n - 1]) {
            Some(d) => seq![d],
            None => seq![],
        }
    }
}

/// The symbol definitions of the `lib_symbols` entry of a schematic.
pub open spec fn spec_definitions(root: SpecSExpr) -> Seq<SpecSymbolDefinition> {
    match spec_child(root, "lib_symbols"@) {
        Some(library) => {
            let nodes = spec_children(library, "symbol"@);
            definitions_upto(nodes, nodes.len() as int)
        },
        None => seq![],
    }
}

// ---------------------------------------------------------------------------
// Executable conversion.

pub open spec fn graphic_views(g: Seq<SymbolGraphic>) -> Seq<SpecSymbolGraphic> {
    g.map_values(|x: SymbolGraphic| x@)
}

/// The stroke width of a drawing primitive.
pub fn stroke_width(value: &SExpr) -> (r: Real)
    ensures
        r == spec_stroke_width(value@),
{
    match child(value, "stroke") {
        Some(stroke) => match child_number(stroke, "width") {
            Some(x) => x,
            None => Real::zero(),
        },
        None => Real::zero(),
    }
}

/// The fill mode of a drawing primitive.
pub fn fill(value: &SExpr) -> (r: SymbolFill)
    ensures
        r == spec_fill(value@),
{
    proof {
        reveal_strlit("outline");
        reveal_strlit("background");
    }
    match child(value, "fill") {
        Some(f) => match child_text(f, "type") {
            Some(t) => if text_equals(t, "outline") {
                SymbolFill::Outline
            } else if text_equals(t, "background") {
                SymbolFill::Background
            } else {
                SymbolFill::Unfilled
            },
            None => SymbolFill::Unfilled,
        },
        None => SymbolFill::Unfilled,
    }
}

pub fn parse_rectangle(value: &SExpr) -> (r: Option<SymbolGraphic>)
    ensures
        match r {
            Some(g) => spec_rectangle(value@) == Some(g@),
            None => spec_rectangle(value@) is None,
        },
{
    match (point(value, "start"), point(value, "end")) {
        (Some(start), Some(end)) => Some(
            SymbolGraphic::Rectangle {
                start,
                end,
                stroke_width_mm: stroke_width(value),
                fill: fill(value),
            },
        ),
        _ => None,
    }
}

pub fn parse_polyline(value: &SExpr) -> (r: Option<SymbolGraphic>)
    ensures
        match r {
            Some(g) => spec_polyline(value@) == Some(g@),
            None => spec_polyline(value@) is None,
        },
{
    Some(
        SymbolGraphic::Polyline {
            points: child_xy_points(value, "pts"),
            stroke_width_mm: stroke_width(value),
            fill: fill(value),
        },
    )
}

pub fn parse_circle(value: &SExpr) -> (r: Option<SymbolGraphic>)
    ensures
        match r {
            Some(g) => spec_circle(value@) == Some(g@),
            None => spec_circle(value@) is None,
        },
{
    match (point(value, "center"), child_number(value, "radius")) {
        (Some(center), Some(radius_mm)) => Some(
            SymbolGraphic::Circle {
                center,
                radius_mm,
                stroke_width_mm: stroke_width(value),
                fill: fill(value),
            },
        ),
        _ => None,
    }
}

pub fn parse_arc(value: &SExpr) -> (r: Option<SymbolGraphic>)
    ensures
        match r {
            Some(g) => spec_symbol_arc(value@) == Some(g@),
            None => spec_symbol_arc(value@) is None,
        },
{
    match (point(value, "start"), point(value, "mid"), point(value, "end")) {
        (Some(start), Some(mid), Some(end)) => Some(
            SymbolGraphic::Arc {
                start,
                mid,
                end,
                stroke_width_mm: stroke_width(value),
                fill: fill(value),
            },
        ),
        _ => None,
    }
}

fn parse_graphic(node: &SExpr) -> (r: Option<SymbolGraphic>)
    ensures
        match r {
            Some(g) => spec_graphic(node@) == Some(g@),
            None => spec_graphic(node@) is None,
        },
{
    proof {
        reveal_strlit("rectangle");
        reveal_strlit("polyline");
        reveal_strlit("circle");
        reveal_strlit("arc");
    }
    match head(node) {
        Some(h) => if text_equals(h, "rectangle") {
            parse_rectangle(node)
        } else if text_equals(h, "polyline") {
            parse_polyline(node)
        } else if text_equals(h, "circle") {
            parse_circle(node)
        } else if text_equals(h, "arc") {
            parse_arc(node)
        } else {
            None
        },
        None => None,
    }
}

pub fn parse_pin(value: &SExpr) -> (r: Option<SymbolPin>)
    ensures
        match r {
            Some(p) => spec_pin(value@) == Some(p@),
            None => spec_pin(value@) is None,
        },
{
    let electrical_type = match optional_text(argument(value, 0)) {
        Some(t) => t.to_owned(),
        None => return None,
    };
    let graphic_style = match optional_text(argument(value, 1)) {
        Some(t) => t.to_owned(),
        None => return None,
    };
    let position = match point(value, "at") {
        Some(p) => p,
        None => return None,
    };
    let number = match child_text(value, "number") {
        Some(t) => t.to_owned(),
        None => String::new(),
    };
    let name = match child_text(value, "name") {
        Some(t) => t.to_owned(),
        None => String::new(),
    };
    let length_mm = match child_number(value, "length") {
        Some(x) => x,
        None => Real::zero(),
    };
    Some(
        SymbolPin {
            number,
            name,
            electrical_type,
            graphic_style,
            position,
            rotation: Rotation { degrees: child_rotation(value, "at") },
            length_mm,
        },
    )
}

/// The unit drawn by the entries of `value`.
pub fn parse_unit(value: &SExpr, unit: u32, style: u32) -> (r: SymbolUnit)
    ensures
        r@ == spec_unit(value@, unit, style),
{
    let entries = list_entries(value);
    let ghost es = spec_entries(value@);
    let mut graphics: Vec<SymbolGraphic> = Vec::new();
    let mut i: usize = 0;
    while i < entries.len()
        invariant
            i <= entries@.len(),
            tree_refs(entries@) == es,
            graphic_views(graphics@) == graphics_upto(es, i as int),
        decreases entries@.len() - i,
    {
        assert(entries@[i as int]@ == es[i as int]);
        let ghost prev = graphics@;
        match parse_graphic(entries[i]) {
            Some(g) => {
                graphics.push(g);
                assert(graphic_views(graphics@) =~= graphic_views(prev).push(g@));
            },
            None => {},
        }
        assert(graphic_views(graphics@) =~= graphics_upto(es, i + 1));
        i = i + 1;
    }
    let pin_nodes = children(value, "pin");
    let ghost ps = spec_children(value@, "pin"@);
    let mut pins: Vec<SymbolPin> = Vec::new();
    let mut i: usize = 0;
    while i < pin_nodes.len()
        invariant
            i <= pin_nodes@.len(),
            tree_refs(pin_nodes@) == ps,
            pins@.map_values(|p: SymbolPin| p@) == pins_upto(ps, i as int),
        decreases pin_nodes@.len() - i,
    {
        assert(pin_nodes@[i as int]@ == ps[i as int]);
        let ghost prev = pins@;
        match parse_pin(pin_nodes[i]) {
            Some(p) => {
                pins.push(p);
                assert(pins@.map_values(|p: SymbolPin| p@) =~= prev.map_values(|p: SymbolPin| p@).push(p@));
            },
            None => {},
        }
        assert(pins@.map_values(|p: SymbolPin| p@) =~= pins_upto(ps, i + 1));
        i = i + 1;
    }
    let result = SymbolUnit { unit, style, graphics, pins };
    assert(result@.graphics =~= graphic_views(result.graphics@));
    assert(result@.pins =~= result.pins@.map_values(|p: SymbolPin| p@));
    result
}

/// Whether some entry of `value` draws something of its own.
pub fn has_drawables(value: &SExpr) -> (r: bool)
    ensures
        r == spec_has_drawables(value@),
{
    proof {
        reveal_strlit("rectangle");
        reveal_strlit("polyline");
        reveal_strlit("circle");
        reveal_strlit("arc");
        reveal_strlit("pin");
    }
    let entries = list_entries(value);
    let ghost es = spec_entries(value@);
    let mut i: usize = 0;
    while i < entries.len()
        invariant
            i <= entries@.len(),
            tree_refs(entries@) == es,
            es == spec_entries(value@),
            forall|x: int| 0 <= x < i ==> !is_drawable_head(spec_head(#[trigger] es[x])),
        decreases entries@.len() - i,
    {
        assert(entries@[i as int]@ == es[i as int]);
        let drawable = match head(entries[i]) {
            Some(h) => text_equals(h, "rectangle") || text_equals(h, "polyline") || text_equals(
                h,
                "circle",
            ) || text_equals(h, "arc") || text_equals(h, "pin"),
            None => false,
        };
        if drawable {
            assert(is_drawable_head(spec_head(es[i as int])));
            return true;
        }
        i = i + 1;
    }
    false
}

/// The definition that a library `symbol` entry describes.
pub fn parse_definition(value: &SExpr) -> (r: Option<SymbolDefinition>)
    ensures
        match r {
            Some(d) => spec_definition(value@) == Some(d@),
            None => spec_definition(value@) is None,
        },
{
    let library_id = match optional_text(argument(value, 0)) {
        Some(t) => t.to_owned(),
        None => return None,
    };
    let mut units: Vec<SymbolUnit> = Vec::new();
    if has_drawables(value) {
        units.push(parse_unit(value, 0, 0));
    }
    let ghost first = units@.map_values(|u: SymbolUnit| u@);
    assert(first =~= if spec_has_drawables(value@) {
        seq![spec_unit(value@, 0, 0)]
    } else {
        seq![]
    });
    let nodes = children(value, "symbol");
    let ghost ns = spec_children(value@, "symbol"@);
    let mut i: usize = 0;
    while i < nodes.len()
        invariant
            i <= nodes@.len(),
            tree_refs(nodes@) == ns,
            ns == spec_children(value@, "symbol"@),
            units_upto(ns, i as int) matches Some(found) && units@.map_values(|u: SymbolUnit| u@)
                == first + found,
        decreases nodes@.len() - i,
    {
        let node = nodes[i];
        assert(node@ == ns[i as int]);
        let ghost prev = units@;
        let id = match optional_text(argument(node, 0)) {
            Some(t) => t,
            None => {
                proof {
                    lemma_units_none_stays(ns, i + 1, nodes@.len() as int);
                }
                return None;
            },
        };
        let (unit, style) = match unit_style(id) {
            Some(pair) => pair,
            None => {
                proof {
                    lemma_units_none_stays(ns, i + 1, nodes@.len() as int);
                }
                return None;
            },
        };
        let u = parse_unit(node, unit, style);
        units.push(u);
        assert(units@.map_values(|u: SymbolUnit| u@) =~= prev.map_values(|u: SymbolUnit| u@).push(
            u@,
        ));
        i = i + 1;
    }
    let definition = SymbolDefinition { library_id, units };
    assert(definition@.units =~= definition.units@.map_values(|u: SymbolUnit| u@));
    Some(definition)
}

proof fn lemma_units_none_stays(nodes: Seq<SpecSExpr>, n: int, m: int)
    requires
        0 <= n <= m,
        units_upto(nodes, n) is None,
    ensures
        units_upto(nodes, m) is None,
    decreases m - n,
{
    if n < m {
        lemma_units_none_stays(nodes, n, m - 1);
    }
}

/// The symbol definitions embedded in a schematic.
pub fn parse_definitions(root: &SExpr) -> (r: Vec<SymbolDefinition>)
    ensures
        r@.map_values(|d: SymbolDefinition| d@) == spec_definitions(root@),
{
    let mut definitions: Vec<SymbolDefinition> = Vec::new();
    let library = match child(root, "lib_symbols") {
        Some(l) => l,
        None => {
            assert(definitions@.map_values(|d: SymbolDefinition| d@) =~= seq![]);
            return definitions;
        },
    };
    let nodes = children(library, "symbol");
    let ghost ns = spec_children(library@, "symbol"@);
    let mut i: usize = 0;
    while i < nodes.len()
        invariant
            i <= nodes@.len(),
            tree_refs(nodes@) == ns,
            definitions@.map_values(|d: SymbolDefinition| d@) == definitions_upto(ns, i as int),
        decreases nodes@.len() - i,
    {
        assert(nodes@[i as int]@ == ns[i as int]);
        let ghost prev = definitions@;
        match parse_definition(nodes[i]) {
            Some(d) => {
                definitions.push(d);
                assert(definitions@.map_values(|d: SymbolDefinition| d@) =~= prev.map_values(
                    |d: SymbolDefinition| d@,
                ).push(d@));
            },
            None => {},
        }
        assert(definitions@.map_values(|d: SymbolDefinition| d@) =~= definitions_upto(ns, i + 1));
        i = i + 1;
    }
    definitions
}

} // verus!
