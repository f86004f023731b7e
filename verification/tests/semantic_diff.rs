use eda_diff_core::compare::PcbComparison;
use eda_diff_core::diff::{diff_pcb, diff_schematic, ChangeKind, FieldValue, MatchMethod};
use eda_diff_core::model::common::{ObjectId, Point, Real, Rotation};
use eda_diff_core::model::pcb::{Footprint, Net as PcbNet, Pcb};
use eda_diff_core::model::schematic::{Net as SchematicNet, Schematic, Symbol, Wire};
use eda_diff_core::model::source::{SourceFormat, SourceRef};

fn real_number(x: f64) -> Real {
    Real(x.to_bits())
}

fn source(id: &str) -> SourceRef {
    SourceRef {
        format: SourceFormat::KiCad,
        file_path: "test.kicad".to_owned(),
        native_id: Some(id.to_owned()),
    }
}

fn symbol(id: &str, reference: &str, value: &str, x: f64) -> Symbol {
    Symbol {
        id: ObjectId::new(id),
        reference: reference.to_owned(),
        value: value.to_owned(),
        library_id: Some("Device:R".to_owned()),
        footprint: None,
        unit: 1,
        position: Point::new(real_number(x), real_number(10.0)),
        rotation: Rotation { degrees: real_number(0.0) },
        mirror_x: false,
        mirror_y: false,
        source: source(id),
    }
}

fn footprint(id: &str, reference: &str, value: &str, x: f64) -> Footprint {
    Footprint {
        id: ObjectId::new(id),
        reference: reference.to_owned(),
        value: value.to_owned(),
        library_link: Some("Resistor_SMD:R_0603".to_owned()),
        position: Point::new(real_number(x), real_number(20.0)),
        rotation: Rotation { degrees: real_number(0.0) },
        layer: "F.Cu".to_owned(),
        pads: Vec::new(),
        source: source(id),
    }
}

#[test]
fn schematic_diff_reports_modified_added_removed_and_unchanged() {
    let mut before = Schematic::empty();
    before.symbols = vec![
        symbol("same-r1", "R1", "10k", 10.0),
        symbol("removed-r2", "R2", "1k", 20.0),
        symbol("same-r3", "R3", "4.7k", 30.0),
    ];

    let mut after = Schematic::empty();
    after.symbols = vec![
        symbol("same-r1", "R1", "22k", 12.0),
        symbol("added-r4", "R4", "100k", 40.0),
        symbol("same-r3", "R3", "4.7k", 30.0),
    ];

    let report = diff_schematic(&before, &after);

    assert_eq!(report.summary.modified, 1);
    assert_eq!(report.summary.added, 1);
    assert_eq!(report.summary.removed, 1);
    assert_eq!(report.summary.unchanged, 1);

    let r1 = report
        .changes
        .iter()
        .find(|change| change.display_name.as_deref() == Some("R1"))
        .expect("R1 should be present");

    assert_eq!(r1.kind, ChangeKind::Modified);
    assert_eq!(r1.match_method, Some(MatchMethod::ObjectId));
    assert!(r1.fields.iter().any(|field| field.field == "value"));
    assert!(r1.fields.iter().any(|field| field.field == "position"));
}

#[test]
fn schematic_symbol_falls_back_to_reference_when_id_changes() {
    let mut before = Schematic::empty();
    before.symbols.push(symbol("old-id", "U1", "MCU", 10.0));

    let mut after = Schematic::empty();
    after.symbols.push(symbol("new-id", "U1", "MCU", 11.0));

    let report = diff_schematic(&before, &after);

    assert_eq!(report.summary.modified, 1);
    assert_eq!(report.summary.added, 0);
    assert_eq!(report.summary.removed, 0);

    let change = &report.changes[0];
    assert_eq!(change.match_method, Some(MatchMethod::Reference));
    assert_eq!(change.before_id.as_ref().map(|id| id.0.as_str()), Some("old-id"));
    assert_eq!(change.after_id.as_ref().map(|id| id.0.as_str()), Some("new-id"));
}

#[test]
fn pcb_diff_matches_footprints_by_reference_and_nets_by_name() {
    let mut before = Pcb::empty();
    before.footprints.push(footprint("old-r1", "R1", "10k", 10.0));
    before.nets.push(PcbNet {
        id: ObjectId::new("old-gnd"),
        name: "GND".to_owned(),
    });

    let mut after = Pcb::empty();
    after.footprints.push(footprint("new-r1", "R1", "22k", 10.0));
    after.nets.push(PcbNet {
        id: ObjectId::new("new-gnd"),
        name: "GND".to_owned(),
    });

    let report = diff_pcb(&before, &after);

    let footprint = report
        .changes
        .iter()
        .find(|change| change.object_type == "pcb-footprint")
        .expect("footprint diff");
    assert_eq!(footprint.kind, ChangeKind::Modified);
    assert_eq!(footprint.match_method, Some(MatchMethod::Reference));
    assert!(footprint.fields.iter().any(|field| field.field == "value"));

    let net = report
        .changes
        .iter()
        .find(|change| change.object_type == "pcb-net")
        .expect("net diff");
    assert_eq!(net.kind, ChangeKind::Unchanged);
    assert_eq!(net.match_method, Some(MatchMethod::Name));
}

#[test]
fn duplicate_fallback_keys_do_not_create_ambiguous_matches() {
    let mut before = Schematic::empty();
    before.nets = vec![
        SchematicNet {
            id: ObjectId::new("old-1"),
            name: "DUP".to_owned(),
        },
        SchematicNet {
            id: ObjectId::new("old-2"),
            name: "DUP".to_owned(),
        },
    ];

    let mut after = Schematic::empty();
    after.nets = vec![
        SchematicNet {
            id: ObjectId::new("new-1"),
            name: "DUP".to_owned(),
        },
        SchematicNet {
            id: ObjectId::new("new-2"),
            name: "DUP".to_owned(),
        },
    ];

    let report = diff_schematic(&before, &after);

    assert_eq!(report.summary.added, 2);
    assert_eq!(report.summary.removed, 2);
    assert_eq!(report.summary.modified, 0);
    assert_eq!(report.summary.unchanged, 0);
}

#[test]
fn comparing_a_schematic_with_itself_reports_nothing_changed() {
    let mut schematic = Schematic::empty();
    schematic.symbols = vec![symbol("a", "R1", "1k", 1.0), symbol("b", "R2", "2k", 2.0)];
    schematic.wires.push(Wire {
        id: ObjectId::new("w"),
        points: vec![Point::new(real_number(0.0), real_number(0.0)), Point::new(real_number(1.0), real_number(0.0))],
        source: source("w"),
    });

    let report = diff_schematic(&schematic, &schematic);
    assert_eq!(report.changes.len(), 3);
    assert_eq!(report.summary.unchanged, 3);
    for change in &report.changes {
        assert_eq!(change.kind, ChangeKind::Unchanged);
        assert_eq!(change.match_method, Some(MatchMethod::ObjectId));
        assert!(change.fields.is_empty());
    }
}

#[test]
fn numbers_compare_as_numbers() {
    let mut before = Schematic::empty();
    before.symbols.push(symbol("a", "R1", "1k", 0.0));
    let mut after = Schematic::empty();
    after.symbols.push(symbol("a", "R1", "1k", -0.0));
    let report = diff_schematic(&before, &after);
    assert_eq!(report.summary.unchanged, 1);

    let mut nan_before = Schematic::empty();
    nan_before.symbols.push(symbol("a", "R1", "1k", f64::NAN));
    let report = diff_schematic(&nan_before, &nan_before);
    assert_eq!(report.summary.modified, 1);
    assert!(report.changes[0].fields.iter().any(|field| field.field == "position"));
}

#[test]
fn modified_fields_carry_both_values() {
    let mut before = Schematic::empty();
    before.symbols.push(symbol("a", "R1", "1k", 1.0));
    let mut after = Schematic::empty();
    after.symbols.push(symbol("a", "R1", "2k", 1.0));
    let report = diff_schematic(&before, &after);
    let field = &report.changes[0].fields[0];
    assert_eq!(field.field, "value");
    match (&field.before, &field.after) {
        (FieldValue::Text(old), FieldValue::Text(new)) => {
            assert_eq!(old, "1k");
            assert_eq!(new, "2k");
        }
        other => panic!("unexpected field values {:?}", other),
    }
    assert_eq!(report.changes[0].object_type, "schematic-symbol");
}

#[test]
fn pcb_comparison_keeps_both_revisions() {
    let mut before = Pcb::empty();
    before.footprints.push(footprint("f1", "R1", "10k", 1.0));
    let after = Pcb::empty();
    let comparison = PcbComparison::new(before, after);
    assert_eq!(comparison.before.footprints.len(), 1);
    assert!(comparison.after.footprints.is_empty());
    assert_eq!(comparison.diff.summary.removed, 1);
    assert_eq!(comparison.diff.changes[0].kind, ChangeKind::Removed);
    assert_eq!(comparison.diff.changes[0].display_name.as_deref(), Some("R1"));
}

#[test]
fn comparing_a_board_with_itself_reports_nothing_changed() {
    let board = eda_diff_core::adapter::kicad::pcb::parse(
        "(kicad_pcb (net 1 \"GND\") \
           (footprint \"R\" (at 1 2) (uuid f1) (property \"Reference\" \"R1\") \
             (pad \"1\" smd rect (at 0 0) (size 1 1) (uuid p1)) \
             (pad \"2\" smd rect (at 1 0) (size 1 1) (uuid p2))) \
           (segment (start 0 0) (end 1 0) (width 0.2) (uuid t1)) \
           (via (at 1 0) (size 0.8) (drill 0.4) (uuid v1)) \
           (gr_line (start 0 0) (end 5 0) (layer \"Edge.Cuts\") (uuid e1)))",
        "board.kicad_pcb",
    )
    .unwrap();
    let report = diff_pcb(&board, &board);
    // One footprint, two pads, one track, one via, one net and one edge.
    assert_eq!(report.changes.len(), 7);
    assert_eq!(report.summary.unchanged, 7);
    assert!(report
        .changes
        .iter()
        .all(|change| change.kind == ChangeKind::Unchanged
            && change.match_method == Some(MatchMethod::ObjectId)));
}

#[test]
fn summary_counts_add_up_to_the_reports() {
    let mut before = Schematic::empty();
    before.symbols = vec![symbol("a", "R1", "1k", 1.0), symbol("b", "R2", "1k", 2.0)];
    let mut after = Schematic::empty();
    after.symbols = vec![symbol("a", "R1", "2k", 1.0), symbol("c", "R3", "1k", 3.0)];
    let report = diff_schematic(&before, &after);
    let total = report.summary.added
        + report.summary.removed
        + report.summary.modified
        + report.summary.unchanged;
    assert_eq!(total, report.changes.len());
    assert_eq!(report.changes.len(), 3);
}

#[test]
fn every_report_is_well_formed() {
    let mut before = Schematic::empty();
    before.symbols = vec![symbol("a", "R1", "1k", 1.0), symbol("b", "R2", "1k", 2.0)];
    let mut after = Schematic::empty();
    after.symbols = vec![symbol("a", "R1", "2k", 1.0), symbol("c", "R3", "1k", 3.0)];
    let report = diff_schematic(&before, &after);
    for change in &report.changes {
        match change.kind {
            ChangeKind::Added => {
                assert!(change.before_id.is_none() && change.after_id.is_some());
                assert!(change.match_method.is_none() && change.fields.is_empty());
            }
            ChangeKind::Removed => {
                assert!(change.before_id.is_some() && change.after_id.is_none());
                assert!(change.match_method.is_none() && change.fields.is_empty());
            }
            ChangeKind::Modified => {
                assert!(change.before_id.is_some() && change.after_id.is_some());
                assert!(change.match_method.is_some() && !change.fields.is_empty());
            }
            ChangeKind::Unchanged => {
                assert!(change.before_id.is_some() && change.after_id.is_some());
                assert!(change.match_method.is_some() && change.fields.is_empty());
            }
        }
    }
    let modified = report.changes.iter().find(|c| c.kind == ChangeKind::Modified).unwrap();
    assert_eq!(modified.fields.len(), 1);
    assert_eq!(modified.fields[0].field, "value");
}

#[test]
fn swapping_schematics_swaps_added_and_removed() {
    let mut before = Schematic::empty();
    before.symbols = vec![symbol("a", "R1", "1k", 1.0), symbol("b", "R2", "1k", 2.0)];
    let mut after = Schematic::empty();
    after.symbols = vec![
        symbol("a", "R1", "2k", 1.0),
        symbol("c", "R3", "1k", 3.0),
        symbol("d", "R4", "1k", 4.0),
    ];
    let forward = diff_schematic(&before, &after).summary;
    let backward = diff_schematic(&after, &before).summary;
    assert_eq!(backward.added, forward.removed);
    assert_eq!(backward.removed, forward.added);
    assert_eq!(backward.modified, forward.modified);
    assert_eq!(backward.unchanged, forward.unchanged);
    assert_eq!((forward.added, forward.removed), (2, 1));
}

#[test]
fn self_diff_reports_have_equal_identifiers() {
    let board = eda_diff_core::adapter::kicad::pcb::parse(
        "(kicad_pcb (footprint \"R\" (at 1 2) (uuid f1) \
           (pad \"1\" smd rect (at 0 0) (size 1 1) (uuid p1))))",
        "board.kicad_pcb",
    )
    .unwrap();
    let report = diff_pcb(&board, &board);
    assert_eq!(report.changes.len(), 2);
    for change in &report.changes {
        assert_eq!(
            change.before_id.as_ref().map(|id| id.0.clone()),
            change.after_id.as_ref().map(|id| id.0.clone())
        );
        assert!(change.fields.is_empty());
    }
}
