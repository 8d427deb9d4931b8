use nextjlc::outline::{get_file_priority, sort_gerber_files};
use nextjlc::rename::{get_final_filename, map_filenames, EdaType};
use nextjlc::validation::{validate_gerber_files, ValidationReport};

fn names(list: &[&str]) -> Vec<String> {
    list.iter().map(|s| s.to_string()).collect()
}

#[test]
fn altium_names_are_mapped_by_extension() {
    let files = names(&[
        "board.GTL",
        "board.gm1",
        "board.GM13",
        "board.GM",
        "board.gbp",
        "board.GPB",
        "board.GD1",
        "board-RoundHoles.TXT",
        "board-SlotHoles.txt",
        "board.REP",
        "readme.md",
        "board.G3",
    ]);
    let mapped = map_filenames(&files, EdaType::Ad);
    let expected = [
        "Gerber_TopLayer.GTL",
        "Gerber_BoardOutlineLayer.GKO",
        "Gerber_BoardOutlineLayer.GKO",
        "Gerber_DocumentLayer.gbr",
        "Gerber_BottomSilkscreenLayer.GBO",
        "Gerber_BottomPasteMaskLayer.GBP",
        "Drill_PTH_Through_GBR.gbr",
        "Drill_PTH_Through.DRL",
        "Drill_NPTH_Through.DRL",
        "Drill_PTH_Through_Via.DRL",
        "readme.md",
        "Gerber_InnerLayer3.G3",
    ];
    assert_eq!(mapped.len(), files.len());
    for (i, (old, new)) in mapped.iter().enumerate() {
        assert_eq!(old, &files[i]);
        assert_eq!(new, expected[i]);
    }
}

#[test]
fn kicad_names_are_mapped_by_layer() {
    let files = names(&[
        "b-Edge_Cuts.gbr",
        "b-F_Cu.gbr",
        "b-B_Silkscreen.gbr",
        "b-In2_Cu.gbr",
        "b-NPTH.drl",
        "b-PTH.drl",
        "b.drl",
        "b-VIA.drl",
        "b-NPTH-drl_map.gbr",
        "b-PTH-drl_map.gbr",
        "b-drl_map",
        "b-job.gbrjob",
    ]);
    let mapped = map_filenames(&files, EdaType::KiCad);
    let expected = [
        "Gerber_BoardOutlineLayer.GKO",
        "Gerber_TopLayer.GTL",
        "Gerber_BottomSilkscreenLayer.GBO",
        "Gerber_InnerLayer2.G2",
        "Drill_NPTH_Through.DRL",
        "Drill_PTH_Through.DRL",
        "Drill_PTH_Through.DRL",
        "Drill_PTH_Through_Via.DRL",
        "Drill_NPTH_Through_GBR.gbr",
        "Drill_PTH_Through_GBR.gbr",
        "Drill_MAP_GBR.gbr",
        "b-job.gbrjob",
    ];
    for (i, (old, new)) in mapped.iter().enumerate() {
        assert_eq!(old, &files[i]);
        assert_eq!(new, expected[i], "{}", old);
    }
}

#[test]
fn final_names_carry_the_standard_extension() {
    assert_eq!(get_final_filename("Gerber_TopSolderMaskLayer"), "Gerber_TopSolderMaskLayer.GTS");
    assert_eq!(get_final_filename("Gerber_BoardOutlineLayer"), "Gerber_BoardOutlineLayer.GKO");
    assert_eq!(get_final_filename("Gerber_InnerLayer6"), "Gerber_InnerLayer6.G6");
    assert_eq!(get_final_filename("Drill_PTH_Through_Via"), "Drill_PTH_Through_Via.DRL");
    assert_eq!(get_final_filename("Drill_NPTH_Through"), "Drill_NPTH_Through.DRL");
    assert_eq!(get_final_filename("Gerber_DocumentLayer"), "Gerber_DocumentLayer.gbr");
    assert_eq!(get_final_filename(""), ".gbr");
}

#[test]
fn priorities_follow_names_then_extensions() {
    assert_eq!(get_file_priority("b-Edge_Cuts.gbr"), 0);
    assert_eq!(get_file_priority("b-F_Cu.gtl"), 1);
    assert_eq!(get_file_priority("b-F_Mask.gbr"), 2);
    assert_eq!(get_file_priority("b.GTO"), 3);
    assert_eq!(get_file_priority("b.gtl"), 4);
    assert_eq!(get_file_priority("b.Gbl"), 5);
    assert_eq!(get_file_priority("b-edge_cuts.gbr"), isize::MAX);
    assert_eq!(get_file_priority("b.gbs"), isize::MAX);
}

#[test]
fn files_are_sorted_by_priority_and_keep_their_order_within_one() {
    let mut files = names(&["z.txt", "b.gbl", "a.gtl", "b-F_Cu.gbr", "a.txt", "c.GTO", "b-Edge_Cuts.gbr", "d.gtl"]);
    let sorted = sort_gerber_files(&mut files);
    let expected = names(&["b-Edge_Cuts.gbr", "b-F_Cu.gbr", "c.GTO", "a.gtl", "d.gtl", "b.gbl", "z.txt", "a.txt"]);
    assert_eq!(sorted, expected);
    assert_eq!(files, expected);
}

#[test]
fn sorting_nothing_gives_nothing() {
    let mut files: Vec<String> = Vec::new();
    assert!(sort_gerber_files(&mut files).is_empty());
}

#[test]
fn complete_two_layer_set_passes() {
    let files = names(&[
        "Gerber_BoardOutlineLayer.GKO",
        "Gerber_TopLayer.GTL",
        "Gerber_TopSolderMaskLayer.GTS",
        "Gerber_TopSilkscreenLayer.GTO",
        "Gerber_TopPasteMaskLayer.GTP",
        "Gerber_BottomLayer.GBL",
        "Gerber_BottomSolderMaskLayer.GBS",
        "Gerber_BottomSilkscreenLayer.GBO",
        "Gerber_BottomPasteMaskLayer.GBP",
    ]);
    assert_eq!(
        validate_gerber_files(&files),
        Ok(ValidationReport { layer_count: 2, warnings: vec![] })
    );
}

#[test]
fn missing_optional_layers_give_warnings() {
    let files = names(&[
        "Gerber_BoardOutlineLayer.GKO",
        "Gerber_TopLayer.GTL",
        "Gerber_TopSolderMaskLayer.GTS",
        "Gerber_InnerLayer1.G1",
        "Gerber_InnerLayer2.G2",
        "Gerber_BottomLayer.GBL",
        "Gerber_BottomSolderMaskLayer.GBS",
    ]);
    assert_eq!(
        validate_gerber_files(&files),
        Ok(ValidationReport {
            layer_count: 4,
            warnings: names(&[
                "Warning: 'Gerber_TopSilkscreenLayer' is missing for the top side.",
                "Warning: 'Gerber_TopPasteMaskLayer' is missing. This is usually needed for SMD components.",
                "Warning: 'Gerber_BottomSilkscreenLayer' is missing for the bottom side.",
                "Warning: 'Gerber_BottomPasteMaskLayer' is missing for the bottom side.",
            ]),
        })
    );
}

#[test]
fn every_broken_rule_is_reported() {
    assert_eq!(
        validate_gerber_files(&[]),
        Err(names(&[
            "Missing required file starting with: 'Gerber_BoardOutlineLayer'",
            "Missing required file starting with: 'Gerber_TopLayer'",
            "Missing required file starting with: 'Gerber_TopSolderMaskLayer'",
        ]))
    );
    let files = names(&["Gerber_TopLayer.GTL", "Gerber_InnerLayer1.G1", "Gerber_BoardOutlineLayer.GKO"]);
    assert_eq!(
        validate_gerber_files(&files),
        Err(names(&[
            "Missing required file starting with: 'Gerber_TopSolderMaskLayer'",
            "Invalid layer stackup: A board with top and inner copper layers must also have a bottom copper layer.",
        ]))
    );
    let files = names(&[
        "Gerber_BoardOutlineLayer.GKO",
        "Gerber_TopLayer.GTL",
        "Gerber_TopSolderMaskLayer.GTS",
        "Gerber_BottomLayer.GBL",
    ]);
    assert_eq!(
        validate_gerber_files(&files),
        Err(names(&[
            "Bottom copper layer is present, but 'Gerber_BottomSolderMaskLayer' is missing.",
        ]))
    );
}
