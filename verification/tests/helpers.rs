use eda_diff_core::adapter::kicad::ends_with;
use eda_diff_core::adapter::kicad::native::{integer_text, kicad_object_id};
use eda_diff_core::adapter::kicad::schematic::real_to_u32;
use eda_diff_core::adapter::kicad::sexpr::{self, SExpr};
use eda_diff_core::adapter::kicad::symbol::{parse_u32, unit_style};
use eda_diff_core::diff::pcb::pad_display_name;
use eda_diff_core::diff::types::{DiffReport, DiffSummary, ObjectChange};
use eda_diff_core::model::common::{ObjectId, Point, Real, Rotation, Size};
use eda_diff_core::model::pcb::{Footprint, Pad};
use eda_diff_core::model::source::{SourceFormat, SourceRef};

fn real_number(x: f64) -> Real {
    Real(x.to_bits())
}

#[test]
fn decimal_text_of_integers() {
    assert_eq!(integer_text(0), "0");
    assert_eq!(integer_text(42), "42");
    assert_eq!(integer_text(-7), "-7");
    assert_eq!(integer_text(i64::MIN), "-9223372036854775808");
    assert_eq!(kicad_object_id("abc"), "kicad:abc");
}

#[test]
fn unit_and_style_of_symbol_units() {
    assert_eq!(unit_style("R_1_1"), Some((1, 1)));
    assert_eq!(unit_style("Device_R_0_2"), Some((0, 2)));
    assert_eq!(unit_style("R_1"), None);
    assert_eq!(unit_style("R_x_1"), None);
    assert_eq!(parse_u32("4294967295"), Some(u32::MAX));
    assert_eq!(parse_u32("4294967296"), None);
    assert_eq!(parse_u32(""), None);
    assert_eq!(parse_u32("+1"), Some(1));
}

#[test]
fn numbers_convert_to_units_as_casts_do() {
    assert_eq!(real_to_u32(real_number(2.0)), 2);
    assert_eq!(real_to_u32(real_number(2.9)), 2);
    assert_eq!(real_to_u32(real_number(-1.0)), 0);
    assert_eq!(real_to_u32(real_number(f64::NAN)), 0);
    assert_eq!(real_to_u32(real_number(1e12)), u32::MAX);
}

#[test]
fn suffix_test() {
    assert!(ends_with("board.kicad_pcb", ".kicad_pcb"));
    assert!(ends_with("x", ""));
    assert!(!ends_with("pcb", ".kicad_pcb"));
}

#[test]
fn numbers_are_read_by_value() {
    let tree = sexpr::parse("(at 1.5 -2 90)").unwrap();
    let at = sexpr::argument(&tree, 0).unwrap();
    assert_eq!(f64::from_bits(sexpr::number(at).unwrap().0), 1.5);
    let y = sexpr::argument(&tree, 1).unwrap();
    assert_eq!(sexpr::integer(y), Some(-2));
    assert_eq!(sexpr::head(&tree), Some("at"));
    assert!(matches!(tree, SExpr::List(_)));
}

fn source() -> SourceRef {
    SourceRef { format: SourceFormat::KiCad, file_path: "t".to_owned(), native_id: None }
}

fn pad(number: &str) -> Pad {
    Pad {
        id: ObjectId::new("pad"),
        number: number.to_owned(),
        kind: "smd".to_owned(),
        shape: "rect".to_owned(),
        position: Point::new(real_number(0.0), real_number(0.0)),
        rotation: Rotation { degrees: real_number(0.0) },
        size: Size::new(real_number(1.0), real_number(1.0)),
        drill_mm: None,
        layers: Vec::new(),
        net_id: None,
        source: source(),
    }
}

#[test]
fn pads_are_named_after_their_footprint() {
    let footprint = Footprint {
        id: ObjectId::new("f"),
        reference: "U1".to_owned(),
        value: "MCU".to_owned(),
        library_link: None,
        position: Point::new(real_number(0.0), real_number(0.0)),
        rotation: Rotation { degrees: real_number(0.0) },
        layer: "F.Cu".to_owned(),
        pads: Vec::new(),
        source: source(),
    };
    assert_eq!(pad_display_name(&footprint, &pad("3")).as_deref(), Some("U1.3"));
    assert_eq!(pad_display_name(&footprint, &pad("")).as_deref(), Some("U1"));
}

#[test]
fn summaries_count_each_kind() {
    let changes = vec![
        ObjectChange::added("t", None, ObjectId::new("a")),
        ObjectChange::removed("t", None, ObjectId::new("b")),
        ObjectChange::added("t", None, ObjectId::new("c")),
    ];
    let report = DiffReport::new(changes);
    assert_eq!(report.summary.added, 2);
    assert_eq!(report.summary.removed, 1);
    assert_eq!(report.summary.modified + report.summary.unchanged, 0);
}

#[test]
fn unit_names_give_back_their_numbers() {
    for (name, unit, style) in [("R", 1u32, 1u32), ("Device_R_x", 0, 2), ("", 4294967295, 7)] {
        let id = format!("{name}_{unit}_{style}");
        assert_eq!(unit_style(&id), Some((unit, style)));
    }
    assert_eq!(unit_style(""), None);
}

#[test]
fn summaries_add_up_and_ignore_order() {
    let a = vec![
        ObjectChange::added("t", None, ObjectId::new("a")),
        ObjectChange::removed("t", None, ObjectId::new("b")),
    ];
    let b = vec![ObjectChange::added("t", None, ObjectId::new("c"))];
    let both: Vec<ObjectChange> = a.iter().chain(b.iter()).cloned().collect();
    let sa = DiffSummary::from_changes(&a);
    let sb = DiffSummary::from_changes(&b);
    let sum = DiffSummary::from_changes(&both);
    assert_eq!(sum.added, sa.added + sb.added);
    assert_eq!(sum.removed, sa.removed + sb.removed);
    let mut reversed = both.clone();
    reversed.reverse();
    assert_eq!(DiffSummary::from_changes(&reversed), sum);
    assert_eq!(DiffSummary::from_changes(&[]), DiffSummary::default());
}
