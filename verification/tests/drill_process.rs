use nextjlc::drill::{
    detect_drill_eda, is_drill_file, is_through_drill, process_drill_files,
    process_drill_files_with_headers, DrillEdaType,
};

fn altium(x: &str, y: &str) -> String {
    format!(
        "M48\n;TYPE=PLATED\nMETRIC,LZ\n;FILE_FORMAT=2:4\nT01F00S00C0.3\n%\nT01\nX{}Y{}\nM30\n",
        x, y
    )
}

#[test]
fn two_altium_files_merge_into_one_tool() {
    let contents = vec![altium("0", "0"), altium("050000", "050000")];
    let names = vec!["a.drl".to_string(), "b.drl".to_string()];
    let result = process_drill_files_with_headers(&contents, &names, ";P\n", ";N\n");
    assert!(result.warnings.is_empty());
    assert!(result.npth_content.is_none());
    assert_eq!(
        result.pth_content.unwrap(),
        ";P\nM48\nMETRIC,LZ,0000.00000\n;Hole size 1 = 0.30000 METRIC\nT01C0.30000\n%\nG05\nG90\nT01\nX0.00000Y0.00000\nX5.00000Y5.00000\nM30\n"
    );
}

#[test]
fn blind_via_file_is_left_out_with_one_warning() {
    let contents = vec![altium("1.0", "1.0"), altium("2.0", "2.0")];
    let names = vec!["Board.tx3".to_string(), "Board.drl".to_string()];
    let result = process_drill_files_with_headers(&contents, &names, "", "");
    assert_eq!(
        result.warnings,
        vec!["Skipped blind/buried via file: Board.tx3. JLC only supports through holes.".to_string()]
    );
    let pth = result.pth_content.unwrap();
    assert!(pth.contains("X2.00000Y2.00000\n"));
    assert!(!pth.contains("X1.00000Y1.00000\n"));
}

#[test]
fn nothing_to_process_gives_an_empty_result() {
    let result = process_drill_files(&[], &[]);
    assert!(result.pth_content.is_none());
    assert!(result.npth_content.is_none());
    assert!(result.warnings.is_empty());
}

#[test]
fn texts_and_names_are_paired_as_far_as_both_go() {
    let contents = vec![altium("1.0", "1.0"), altium("2.0", "2.0")];
    let names = vec!["a.drl".to_string()];
    let result = process_drill_files_with_headers(&contents, &names, "", "");
    let pth = result.pth_content.unwrap();
    assert!(pth.contains("X1.00000Y1.00000\n"));
    assert!(!pth.contains("X2.00000Y2.00000\n"));
}

#[test]
fn first_kicad_file_of_each_class_is_written_directly() {
    let pth = "; KiCad\nT1C0.4\n%\nT1\nX1.0Y1.0\n".to_string();
    let npth = "; KiCad NPTH\nT1C3.0\n%\nT1\nX2.0Y2.0\n".to_string();
    let names = vec!["b-PTH.drl".to_string(), "b-NPTH.drl".to_string()];
    let result = process_drill_files_with_headers(&[pth, npth], &names, ";P\n", ";N\n");
    assert_eq!(
        result.pth_content.unwrap(),
        ";P\nM48\nMETRIC,LZ,0000.00000\n;Hole size 1 = 0.40000 METRIC\nT01C0.40000\n%\nG05\nG90\nT01\nX1.00000Y1.00000\nM30\n"
    );
    assert_eq!(
        result.npth_content.unwrap(),
        ";N\nM48\nMETRIC,LZ,0000.00000\n;Hole size 1 = 3.00000 METRIC\nT01C3.00000\n%\nG05\nG90\nT01\nX2.00000Y2.00000\nM30\n"
    );
}

#[test]
fn merged_program_takes_the_place_of_the_direct_one() {
    let first = "; KiCad\nT1C0.4\n%\nT1\nX1.0Y1.0\n".to_string();
    let second = "; KiCad\nT1C0.5\n%\nT1\nX2.0Y2.0\n".to_string();
    let names = vec!["a.drl".to_string(), "b.drl".to_string()];
    let result = process_drill_files_with_headers(&[first, second], &names, "", "");
    let pth = result.pth_content.unwrap();
    assert!(pth.contains("T01C0.50000\n"));
    assert!(!pth.contains("0.40000"));
}

#[test]
fn fresh_headers_name_the_classes() {
    let contents = vec![altium("1.0", "1.0")];
    let names = vec!["a.drl".to_string()];
    let result = process_drill_files(&contents, &names);
    let pth = result.pth_content.unwrap();
    assert!(pth.starts_with(";TYPE=PLATED\n;Layer: PTH_Through\n;EasyEDA"));
    assert!(pth.ends_with("M48\nMETRIC,LZ,0000.00000\n;Hole size 1 = 0.30000 METRIC\nT01C0.30000\n%\nG05\nG90\nT01\nX1.00000Y1.00000\nM30\n"));
}

#[test]
fn drill_files_are_known_by_their_names() {
    assert!(is_drill_file("Board.DRL"));
    assert!(is_drill_file("board-RoundHoles.TXT"));
    assert!(is_drill_file("drill_map.txt"));
    assert!(is_drill_file("Board.tx1"));
    assert!(is_drill_file("Board.TX6"));
    assert!(!is_drill_file("readme.txt"));
    assert!(!is_drill_file("Board.tx7"));
    assert!(!is_drill_file("Board.gtl"));
    assert!(!is_drill_file("drl"));
}

#[test]
fn blind_via_files_are_not_through_drills() {
    assert!(!is_through_drill("Board.tx3"));
    assert!(!is_through_drill("Board.TX1"));
    assert!(is_through_drill("Board.drl"));
    assert!(is_through_drill("Board.tx7"));
    assert!(is_through_drill("tx3"));
}

#[test]
fn dialect_is_detected_from_the_text() {
    assert_eq!(detect_drill_eda("; DRILL file {KiCad 7}\nT1F00S00C1\n"), DrillEdaType::KiCad);
    assert_eq!(detect_drill_eda("T01F00S00C0.3\n%\n"), DrillEdaType::Altium);
    assert_eq!(detect_drill_eda(";Altium Designer\nM48\n"), DrillEdaType::Altium);
    assert_eq!(detect_drill_eda("M48\nT01F00S00C0.3\n"), DrillEdaType::Unknown);
    assert_eq!(detect_drill_eda("TF00S00C0.3"), DrillEdaType::Unknown);
    assert_eq!(detect_drill_eda(""), DrillEdaType::Unknown);
}

#[test]
fn long_file_is_processed_in_full() {
    let mut text = String::from("M48\nMETRIC,LZ\n;FILE_FORMAT=4:4\nT01F00S00C0.3\nT02F00S00C0.8\n%\n");
    for i in 0..20_000 {
        if i % 1000 == 0 {
            text.push_str(if (i / 1000) % 2 == 0 { "T01\n" } else { "T02\n" });
        }
        text.push_str(&format!("X{:08}Y{:08}\n", i, 2 * i));
    }
    text.push_str("M30\n");
    let result = process_drill_files_with_headers(&[text], &["big.drl".to_string()], "", "");
    let pth = result.pth_content.unwrap();
    assert_eq!(pth.lines().count(), 2 + 4 + 3 + 2 + 20_000 + 1);
    assert!(pth.contains("\nX1.99990Y3.99980\nM30\n"));
}
