use nextjlc::drill::{
    merge_and_split_drills, merge_operations_by_diameter, parse_ad_excellon, DrillCommand,
    DrillFile, DrillOperation, HoleType,
};

fn hole(x: i64, y: i64) -> DrillCommand {
    DrillCommand::Hole { x, y }
}

fn op(diameter: u64, hole_type: HoleType, commands: Vec<DrillCommand>) -> DrillOperation {
    DrillOperation { diameter, hole_type, commands }
}

#[test]
fn equal_diameters_share_one_tool() {
    let merged = merge_operations_by_diameter(vec![
        op(30_000, HoleType::Plated, vec![hole(0, 0)]),
        op(30_000, HoleType::Plated, vec![hole(500_000, 500_000)]),
    ]);
    assert_eq!(merged.len(), 1);
    assert_eq!(merged[0].diameter, 30_000);
    assert_eq!(merged[0].commands, vec![hole(0, 0), hole(500_000, 500_000)]);
}

#[test]
fn diameters_a_step_apart_stay_apart() {
    let merged = merge_operations_by_diameter(vec![
        op(29_999, HoleType::Plated, vec![hole(0, 0)]),
        op(30_001, HoleType::Plated, vec![hole(1, 1)]),
    ]);
    assert_eq!(merged.len(), 2);
    let merged = merge_operations_by_diameter(vec![
        op(29_400, HoleType::Plated, vec![hole(0, 0)]),
        op(29_600, HoleType::Plated, vec![hole(1, 1)]),
    ]);
    assert_eq!(merged.len(), 2);
}

#[test]
fn merged_tools_ascend_by_diameter() {
    let merged = merge_operations_by_diameter(vec![
        op(80_000, HoleType::Plated, vec![hole(1, 1)]),
        op(30_000, HoleType::Plated, vec![hole(2, 2)]),
        op(50_000, HoleType::Plated, vec![hole(3, 3)]),
        op(30_000, HoleType::Plated, vec![hole(4, 4)]),
    ]);
    let diameters: Vec<u64> = merged.iter().map(|o| o.diameter).collect();
    assert_eq!(diameters, vec![30_000, 50_000, 80_000]);
    assert_eq!(merged[0].commands, vec![hole(2, 2), hole(4, 4)]);
}

#[test]
fn classes_are_split() {
    let a = DrillFile {
        operations: vec![
            op(30_000, HoleType::Plated, vec![hole(0, 0)]),
            op(300_000, HoleType::NonPlated, vec![hole(9, 9)]),
        ],
    };
    let b = DrillFile { operations: vec![op(30_000, HoleType::Plated, vec![hole(5, 5)])] };
    let (pth, npth) = merge_and_split_drills(vec![a, b]);
    let pth = pth.unwrap();
    let npth = npth.unwrap();
    assert_eq!(pth.operations.len(), 1);
    assert_eq!(pth.operations[0].commands, vec![hole(0, 0), hole(5, 5)]);
    assert_eq!(npth.operations.len(), 1);
    assert_eq!(npth.operations[0].diameter, 300_000);
}

#[test]
fn empty_class_is_none() {
    let a = DrillFile { operations: vec![op(30_000, HoleType::Plated, vec![hole(0, 0)])] };
    let (pth, npth) = merge_and_split_drills(vec![a]);
    assert!(pth.is_some());
    assert!(npth.is_none());
    let (pth, npth) = merge_and_split_drills(vec![]);
    assert!(pth.is_none());
    assert!(npth.is_none());
}

fn one_tool_file(diameter: &str) -> DrillFile {
    parse_ad_excellon(&format!("METRIC,LZ\nT01F00S00C{}\n%\nT01\nX1.0Y1.0\n", diameter))
}

fn plated_tools(diameters: &[&str]) -> Vec<u64> {
    let files = diameters.iter().map(|d| one_tool_file(d)).collect();
    let (pth, _) = merge_and_split_drills(files);
    pth.unwrap().operations.iter().map(|o| o.diameter).collect()
}

#[test]
fn written_diameters_merge_when_they_round_to_the_same_step() {
    assert_eq!(plated_tools(&["0.300001", "0.300004", "0.3"]), vec![30_000]);
    assert_eq!(plated_tools(&["0.299996", "0.3"]), vec![30_000]);
    assert_eq!(plated_tools(&["0.29999", "0.30001"]), vec![29_999, 30_001]);
    assert_eq!(plated_tools(&["0.294", "0.296"]), vec![29_400, 29_600]);
    assert_eq!(plated_tools(&["0.299994", "0.3"]), vec![29_999, 30_000]);
}

#[test]
fn inch_diameters_are_merged_in_millimetres() {
    let inch = parse_ad_excellon("INCH,LZ\nT01F00S00C0.0394\n%\nT01\nX1.0Y1.0\n");
    assert_eq!(inch.operations[0].diameter, 100_076);
    let metric = one_tool_file("1.00076");
    let (pth, _) = merge_and_split_drills(vec![inch, metric]);
    let pth = pth.unwrap();
    assert_eq!(pth.operations.len(), 1);
    assert_eq!(pth.operations[0].commands.len(), 2);
}
