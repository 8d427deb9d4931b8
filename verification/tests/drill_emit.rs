use nextjlc::drill::{
    generate_jlc_excellon, generate_jlc_excellon_with_header, DrillCommand, DrillFile,
    DrillOperation, HoleType,
};

#[test]
fn program_is_written_in_the_canonical_dialect() {
    let file = DrillFile {
        operations: vec![
            DrillOperation {
                diameter: 30_000,
                hole_type: HoleType::Plated,
                commands: vec![
                    DrillCommand::Hole { x: 0, y: 0 },
                    DrillCommand::Hole { x: 500_000, y: -1_234_567 },
                ],
            },
            DrillOperation {
                diameter: 100_000,
                hole_type: HoleType::Plated,
                commands: vec![DrillCommand::Slot {
                    start_x: 10_000_000,
                    start_y: 20_000_000,
                    end_x: 30_000_000,
                    end_y: 20_000_000,
                }],
            },
        ],
    };
    let text = generate_jlc_excellon_with_header(&file, ";HEADER\n");
    let expected = ";HEADER\nM48\nMETRIC,LZ,0000.00000\n;Hole size 1 = 0.30000 METRIC\nT01C0.30000\n;Hole size 2 = 1.00000 METRIC\nT02C1.00000\n%\nG05\nG90\nT01\nX0.00000Y0.00000\nX5.00000Y-12.34567\nT02\nX100.00000Y200.00000G85X300.00000Y200.00000\nM30\n";
    assert_eq!(text, expected);
}

#[test]
fn empty_program_has_no_tools() {
    let file = DrillFile { operations: vec![] };
    let text = generate_jlc_excellon_with_header(&file, "");
    assert_eq!(text, "M48\nMETRIC,LZ,0000.00000\n%\nG05\nG90\nM30\n");
}

#[test]
fn tool_numbers_from_ten_on_need_no_padding() {
    let mut operations = Vec::new();
    for i in 0..11u64 {
        operations.push(DrillOperation {
            diameter: 10_000 * (i + 1),
            hole_type: HoleType::Plated,
            commands: vec![DrillCommand::Hole { x: 1, y: -1 }],
        });
    }
    let text = generate_jlc_excellon_with_header(&DrillFile { operations }, "");
    assert!(text.contains(";Hole size 9 = 0.90000 METRIC\nT09C0.90000\n"));
    assert!(text.contains(";Hole size 10 = 1.00000 METRIC\nT10C1.00000\n"));
    assert!(text.contains("T11\nX0.00001Y-0.00001\n"));
}

#[test]
fn extreme_coordinates_are_written_in_full() {
    let file = DrillFile {
        operations: vec![DrillOperation {
            diameter: u64::MAX,
            hole_type: HoleType::Plated,
            commands: vec![DrillCommand::Hole { x: i64::MIN, y: i64::MAX }],
        }],
    };
    let text = generate_jlc_excellon_with_header(&file, "");
    assert!(text.contains("T01C184467440737095.51615\n"));
    assert!(text.contains("X-92233720368547.75808Y92233720368547.75807\n"));
}

#[test]
fn header_block_names_the_class() {
    let file = DrillFile { operations: vec![] };
    let pth = generate_jlc_excellon(&file, HoleType::Plated);
    assert!(pth.starts_with(";TYPE=PLATED\n;Layer: PTH_Through\n;EasyEDA"));
    assert!(pth.ends_with("\n;Gerber Generator version 0.3\nM48\nMETRIC,LZ,0000.00000\n%\nG05\nG90\nM30\n"));
    let npth = generate_jlc_excellon(&file, HoleType::NonPlated);
    assert!(npth.starts_with(";TYPE=NON_PLATED\n;Layer: NPTH_Through\n;EasyEDA"));
}
