use eda_diff_core::adapter::error::AdapterError;
use eda_diff_core::adapter::format_adapter::FormatAdapter;
use eda_diff_core::adapter::kicad::KiCadAdapter;
use eda_diff_core::model::common::Real;
use eda_diff_core::model::pcb::BoardEdge;

const BOARD: &str = r#"
(kicad_pcb
  (version 20240108)
  (generator pcbnew)
  (net 0 "")
  (net 1 "GND")
  (footprint "Resistor_SMD:R_0603"
    (layer "F.Cu")
    (at 10 20 90)
    (uuid 11111111-1111-1111-1111-111111111111)
    (property "Reference" "R1")
    (property "Value" "10k")
    (pad "1" smd roundrect
      (at -0.825 0 90)
      (size 0.8 0.95)
      (layers "F.Cu" "F.Mask" "F.Paste")
      (net 1 "GND")
      (uuid 44444444-4444-4444-4444-444444444444)
    )
  )
  (segment
    (start 10 20)
    (end 15 20)
    (width 0.25)
    (layer "F.Cu")
    (net 1)
    (tstamp 22222222-2222-2222-2222-222222222222)
  )
  (via
    (at 15 20)
    (size 0.8)
    (drill 0.4)
    (layers "F.Cu" "B.Cu")
    (net 1)
    (uuid 33333333-3333-3333-3333-333333333333)
  )
  (gr_line
    (start 0 0)
    (end 20 0)
    (layer "Edge.Cuts")
    (uuid 55555555-5555-5555-5555-555555555555)
  )
  (gr_arc
    (start 20 0)
    (mid 21 1)
    (end 20 2)
    (layer "Edge.Cuts")
    (uuid 66666666-6666-6666-6666-666666666666)
  )
)
"#;

fn value(r: Real) -> f64 {
    f64::from_bits(r.0)
}

#[test]
fn imports_core_board_objects() {
    let pcb = KiCadAdapter
        .parse_pcb(BOARD, "board.kicad_pcb")
        .expect("sample PCB should parse");

    assert_eq!(pcb.nets.len(), 2);
    assert_eq!(pcb.footprints.len(), 1);
    assert_eq!(pcb.tracks.len(), 1);
    assert_eq!(pcb.vias.len(), 1);
    assert_eq!(pcb.board_outline.len(), 2);

    let footprint = &pcb.footprints[0];
    assert_eq!(
        footprint.source.native_id.as_deref(),
        Some("11111111-1111-1111-1111-111111111111")
    );
    assert_eq!(footprint.reference, "R1");
    assert_eq!(footprint.value, "10k");
    assert_eq!(value(footprint.position.x_mm), 10.0);
    assert_eq!(value(footprint.rotation.degrees), 90.0);
    assert_eq!(footprint.pads.len(), 1);

    let pad = &footprint.pads[0];
    assert_eq!(pad.number, "1");
    assert_eq!(pad.shape, "roundrect");
    assert_eq!(value(pad.position.x_mm), -0.825);
    assert_eq!(value(pad.rotation.degrees), 90.0);
    assert_eq!(value(pad.size.width_mm), 0.8);
    assert_eq!(pad.layers, vec!["F.Cu", "F.Mask", "F.Paste"]);
    assert_eq!(pad.net_id.as_ref().map(|id| id.0.as_str()), Some("pcb-net:1"));

    let track = &pcb.tracks[0];
    assert_eq!(value(track.width_mm), 0.25);
    assert_eq!(track.layer, "F.Cu");
    assert_eq!(track.net_id.as_ref().map(|id| id.0.as_str()), Some("pcb-net:1"));

    let via = &pcb.vias[0];
    assert_eq!(value(via.diameter_mm), 0.8);
    assert_eq!(value(via.drill_mm), 0.4);
}

#[test]
fn rejects_non_board_documents() {
    let error = KiCadAdapter
        .parse_pcb("(kicad_sch (version 20231120))", "wrong.kicad_pcb")
        .expect_err("schematic must not parse as PCB");

    assert!(error.message().contains("Expected a KiCad"));
}

#[test]
fn board_identifiers_and_remaining_fields() {
    let pcb = KiCadAdapter.parse_pcb(BOARD, "board.kicad_pcb").unwrap();

    assert_eq!(pcb.nets[0].id.0, "pcb-net:0");
    assert_eq!(pcb.nets[0].name, "");
    assert_eq!(pcb.nets[1].id.0, "pcb-net:1");
    assert_eq!(pcb.nets[1].name, "GND");
    assert!(pcb.layers.is_empty());

    let footprint = &pcb.footprints[0];
    assert_eq!(footprint.id.0, "kicad:11111111-1111-1111-1111-111111111111");
    assert_eq!(footprint.library_link.as_deref(), Some("Resistor_SMD:R_0603"));
    assert_eq!(footprint.layer, "F.Cu");
    assert_eq!(value(footprint.position.y_mm), 20.0);
    assert_eq!(footprint.source.file_path, "board.kicad_pcb");

    let pad = &footprint.pads[0];
    assert_eq!(pad.kind, "smd");
    assert_eq!(value(pad.size.height_mm), 0.95);
    assert!(pad.drill_mm.is_none());

    let track = &pcb.tracks[0];
    assert_eq!(track.id.0, "kicad:22222222-2222-2222-2222-222222222222");
    assert_eq!(value(track.end.x_mm), 15.0);

    let via = &pcb.vias[0];
    assert_eq!(via.layers, vec!["F.Cu", "B.Cu"]);
    assert_eq!(via.net_id.as_ref().map(|id| id.0.as_str()), Some("pcb-net:1"));

    match &pcb.board_outline[0] {
        BoardEdge::Line { id, end, .. } => {
            assert_eq!(id.0, "kicad:55555555-5555-5555-5555-555555555555");
            assert_eq!(value(end.x_mm), 20.0);
        }
        other => panic!("expected a line, got {:?}", other),
    }
    match &pcb.board_outline[1] {
        BoardEdge::Arc { mid, .. } => {
            assert_eq!(value(mid.x_mm), 21.0);
            assert_eq!(value(mid.y_mm), 1.0);
        }
        other => panic!("expected an arc, got {:?}", other),
    }
}

#[test]
fn reports_syntax_errors() {
    let error = KiCadAdapter.parse_pcb("(kicad_pcb (net 0", "broken.kicad_pcb").unwrap_err();
    assert!(matches!(error, AdapterError::InvalidSyntax(_)));
    assert!(error.message().starts_with("Invalid KiCad S-expression"));
}

#[test]
fn reports_missing_coordinates() {
    let source = "(kicad_pcb (segment (end 1 2) (width 0.2) (layer \"F.Cu\")))";
    let error = KiCadAdapter.parse_pcb(source, "x.kicad_pcb").unwrap_err();
    assert!(matches!(error, AdapterError::MissingField(_)));
}

#[test]
fn supports_kicad_paths_only() {
    assert_eq!(KiCadAdapter.id(), "kicad");
    assert!(KiCadAdapter.supports_path("a/board.kicad_pcb"));
    assert!(KiCadAdapter.supports_path("sheet.kicad_sch"));
    assert!(!KiCadAdapter.supports_path("board.kicad_pro"));
    assert!(!KiCadAdapter.supports_path("kicad_pcb"));
}

#[test]
fn adapter_errors_compare_by_kind_and_message() {
    let a = AdapterError::MissingField("x".to_owned());
    assert_eq!(a, AdapterError::MissingField("x".to_owned()));
    assert_ne!(a, AdapterError::InvalidSyntax("x".to_owned()));
    assert_ne!(a, AdapterError::MissingField("y".to_owned()));
    let error = KiCadAdapter.parse_pcb("(kicad_sch)", "x.kicad_pcb").unwrap_err();
    assert_eq!(
        error,
        AdapterError::UnsupportedFormat("Expected a KiCad .kicad_pcb document".to_owned())
    );
}

#[test]
fn digit_identifiers_keep_their_leading_zeros() {
    let source = "(kicad_pcb \
        (segment (start 0 0) (end 1 0) (uuid 12345678-0123-0000-4567-000000000089)) \
        (segment (start 0 0) (end 1 0) (tstamp 00012345)) \
        (segment (start 0 0) (end 1 0) (uuid 1234abcd-5678-0000-0000-000000000000)))";
    let error = KiCadAdapter.parse_pcb(source, "x.kicad_pcb");
    // A group that begins with a digit and holds a letter is refused by the reader.
    assert!(matches!(error, Err(AdapterError::InvalidSyntax(_))));

    let source = "(kicad_pcb \
        (segment (start 0 0) (end 1 0) (uuid 12345678-0123-0000-4567-000000000089)) \
        (segment (start 0 0) (end 1 0) (uuid 00000000-0000-0000-0000-000000000000)) \
        (segment (start 0 0) (end 1 0) (tstamp 00012345)) \
        (segment (start 0 0) (end 1 0) (uuid 123)) \
        (segment (start 0 0) (end 1 0) (uuid 12345678-abcd-0123-4567-89abcdef0123)) \
        (segment (start 0 0) (end 1 0) (uuid abcdef01-2345-6789-abcd-ef0123456789)))";
    let pcb = KiCadAdapter.parse_pcb(source, "x.kicad_pcb").unwrap();
    assert_eq!(pcb.tracks[0].id.0, "kicad:12345678-0123-0000-4567-000000000089");
    assert_eq!(pcb.tracks[1].id.0, "kicad:00000000-0000-0000-0000-000000000000");
    // Numbers that are not a UUID written in digits give no identifier.
    assert_eq!(pcb.tracks[2].id.0, "kicad:unknown");
    assert_eq!(pcb.tracks[3].id.0, "kicad:unknown");
    assert_eq!(pcb.tracks[4].id.0, "kicad:unknown");
    assert_eq!(pcb.tracks[5].id.0, "kicad:abcdef01-2345-6789-abcd-ef0123456789");
}
