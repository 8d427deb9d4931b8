use nextjlc::drill::{
    parse_ad_excellon, parse_kicad_excellon, DrillCommand, HoleType, STEPS_PER_MM,
};

const MM: i64 = STEPS_PER_MM as i64;

#[test]
fn route_between_plunge_and_retract_is_one_slot() {
    let text = "M48\nMETRIC,LZ\n;FILE_FORMAT=3:3\nT01F00S00C1.0\n%\nT01\nG00X100Y200\nM15\nG01X300Y200\nM16\nM30\n";
    let file = parse_ad_excellon(text);
    assert_eq!(file.operations.len(), 1);
    let op = &file.operations[0];
    assert_eq!(op.diameter, 100_000);
    assert_eq!(op.hole_type, HoleType::Plated);
    assert_eq!(
        op.commands,
        vec![DrillCommand::Slot {
            start_x: 100 * MM,
            start_y: 200 * MM,
            end_x: 300 * MM,
            end_y: 200 * MM
        }]
    );
}

#[test]
fn kicad_route_between_plunge_and_retract_is_one_slot() {
    let text = "T1C1.0\n%\nT1\nG00X100Y200\nM15\nG01X300Y200\nM16\n";
    let (file, _) = parse_kicad_excellon(text);
    assert_eq!(file.operations.len(), 1);
    assert_eq!(
        file.operations[0].commands,
        vec![DrillCommand::Slot {
            start_x: 100 * MM,
            start_y: 200 * MM,
            end_x: 300 * MM,
            end_y: 200 * MM
        }]
    );
}

#[test]
fn default_format_has_two_integer_places() {
    let text = "T01F00S00C1.0\n%\nT01\nG00X100Y200\nM15\nG01X300Y200\nM16\n";
    let file = parse_ad_excellon(text);
    assert_eq!(
        file.operations[0].commands,
        vec![DrillCommand::Slot {
            start_x: 10 * MM,
            start_y: 20 * MM,
            end_x: 30 * MM,
            end_y: 20 * MM
        }]
    );
}

#[test]
fn linear_move_outside_a_route_is_ignored() {
    let text = "METRIC,LZ\nT01F00S00C1.0\n%\nT01\nG00X1.0Y2.0\nG01X3.0Y2.0\n";
    let file = parse_ad_excellon(text);
    assert_eq!(file.operations.len(), 0);
}

#[test]
fn holes_follow_the_declared_format() {
    let text = "M48\n;FILE_FORMAT=2:4\nINCH,TZ\n;TYPE=NON_PLATED\nT02F00S00C0.1000\n%\nT02\nX10000Y-5000\nY2500\nM30\n";
    let file = parse_ad_excellon(text);
    assert_eq!(file.operations.len(), 1);
    let op = &file.operations[0];
    assert_eq!(op.diameter, 254_000);
    assert_eq!(op.hole_type, HoleType::NonPlated);
    assert_eq!(
        op.commands,
        vec![
            DrillCommand::Hole { x: 2_540_000, y: -1_270_000 },
            DrillCommand::Hole { x: 2_540_000, y: 635_000 },
        ]
    );
}

#[test]
fn leading_zero_tokens_split_after_the_integer_places() {
    let text = "METRIC,LZ\n;FILE_FORMAT=3:3\nT1F0S0C0.5\n%\nT1\nX012345Y0015\n";
    let file = parse_ad_excellon(text);
    assert_eq!(
        file.operations[0].commands,
        vec![DrillCommand::Hole { x: 1_234_500, y: 150_000 }]
    );
}

#[test]
fn tools_come_out_in_ascending_order_and_unused_tools_are_dropped() {
    let text = "METRIC,LZ\nT03F00S00C0.8\nT01F00S00C0.3\nT02F00S00C0.5\n%\nT03\nX1.0Y1.0\nT01\nX2.0Y2.0\nT03\nX3.0Y3.0\n";
    let file = parse_ad_excellon(text);
    assert_eq!(file.operations.len(), 2);
    assert_eq!(file.operations[0].diameter, 30_000);
    assert_eq!(file.operations[0].commands, vec![DrillCommand::Hole { x: 2 * MM, y: 2 * MM }]);
    assert_eq!(file.operations[1].diameter, 80_000);
    assert_eq!(
        file.operations[1].commands,
        vec![
            DrillCommand::Hole { x: MM, y: MM },
            DrillCommand::Hole { x: 3 * MM, y: 3 * MM }
        ]
    );
}

#[test]
fn plating_class_is_taken_at_the_declaration() {
    let text = "METRIC,LZ\n;TYPE=PLATED\nT01F00S00C0.3\n;TYPE=NON_PLATED\nT02F00S00C3.0\n%\nT01\nX1.0Y1.0\nT02\nX2.0Y2.0\n";
    let file = parse_ad_excellon(text);
    assert_eq!(file.operations.len(), 2);
    assert_eq!(file.operations[0].hole_type, HoleType::Plated);
    assert_eq!(file.operations[1].hole_type, HoleType::NonPlated);
}

#[test]
fn undeclared_tool_selection_keeps_the_active_tool() {
    let text = "METRIC,LZ\nT01F00S00C0.3\n%\nT01\nX1.0Y1.0\nT09\nX2.0Y2.0\n";
    let file = parse_ad_excellon(text);
    assert_eq!(file.operations.len(), 1);
    assert_eq!(file.operations[0].commands.len(), 2);
}

#[test]
fn header_lines_give_no_commands() {
    let text = "METRIC,LZ\nT01F00S00C0.3\nT01\nX1.0Y1.0\n";
    let file = parse_ad_excellon(text);
    assert_eq!(file.operations.len(), 0);
}

#[test]
fn drill_position_while_routing_gives_no_hole() {
    let text = "METRIC,LZ\nT01F00S00C0.3\n%\nT01\nM15\nX1.0Y1.0\nM16\nX2.0Y2.0\n";
    let file = parse_ad_excellon(text);
    assert_eq!(file.operations[0].commands, vec![DrillCommand::Hole { x: 2 * MM, y: 2 * MM }]);
}

#[test]
fn kicad_file_with_npth_anywhere_is_non_plated() {
    let text = "M48\n; DRILL file {KiCad 7.0} date today\n; #@! TF.FileFunction,NonPlated,1,2,NPTH\nMETRIC\nT1C3.200\n%\nG90\nG05\nT1\nX10.0Y-20.5\nM30\n";
    let (file, hole_type) = parse_kicad_excellon(text);
    assert_eq!(hole_type, HoleType::NonPlated);
    assert_eq!(file.operations.len(), 1);
    assert_eq!(file.operations[0].hole_type, HoleType::NonPlated);
    assert_eq!(file.operations[0].diameter, 320_000);
    assert_eq!(
        file.operations[0].commands,
        vec![DrillCommand::Hole { x: 10 * MM, y: -2_050_000 }]
    );
}

#[test]
fn kicad_class_marker_is_read_in_any_case() {
    let (_, a) = parse_kicad_excellon("; board-npth.drl\nT1C1.0\n%\nT1\nX1Y1\n");
    assert_eq!(a, HoleType::NonPlated);
    let (_, b) = parse_kicad_excellon("; NonPlated\nT1C1.0\n%\nT1\nX1Y1\n");
    assert_eq!(b, HoleType::NonPlated);
    let (_, c) = parse_kicad_excellon("; Plated\nT1C1.0\n%\nT1\nX1Y1\n");
    assert_eq!(c, HoleType::Plated);
}

#[test]
fn kicad_route_is_a_slot_from_the_cursor() {
    let text = "T1C1.0\n%\nT1\nG00X1.5Y2.5\nM15\nG01X3.5\nG01Y4.5\nM16\nX7Y8\n";
    let (file, _) = parse_kicad_excellon(text);
    assert_eq!(
        file.operations[0].commands,
        vec![
            DrillCommand::Slot { start_x: 150_000, start_y: 250_000, end_x: 350_000, end_y: 250_000 },
            DrillCommand::Slot { start_x: 350_000, start_y: 250_000, end_x: 350_000, end_y: 450_000 },
            DrillCommand::Hole { x: 7 * MM, y: 8 * MM },
        ]
    );
}

#[test]
fn carriage_returns_and_blank_lines_do_not_matter() {
    let text = "METRIC,LZ\r\nT01F00S00C0.3\r\n%\r\n\r\n  T01  \r\n; comment\r\nX1.0Y1.0\r\n";
    let file = parse_ad_excellon(text);
    assert_eq!(file.operations[0].commands, vec![DrillCommand::Hole { x: MM, y: MM }]);
}
