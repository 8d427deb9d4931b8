use md5::{Digest, Md5};
use nextjlc::dcode::{process_d_codes, should_keep, GerberFlavor};
use nextjlc::file_type::identify_software;
use nextjlc::fingerprint::{
    add_fingerprint, add_fingerprint_with, create_fingerprint_aperture_line, format_dimension,
    generate_hashed_dimension, insert_new_aperture_line, lines_of, renumber_apertures,
    scan_for_aperture_definitions, select_injection_template, Patterns,
};
use nextjlc::header::{
    format_drill_header, format_generator, format_gerber_header, get_drill_header,
    get_gerber_header, get_order_guide_text,
};

fn chars(s: &str) -> Vec<char> {
    s.chars().collect()
}

fn text(v: &[char]) -> String {
    v.iter().collect()
}

#[test]
fn kicad_d_codes_get_the_prefix() {
    let data = "D10*\n%ADD10C,0.1*%\nG54D11*\nX1Y1D03*\nD1*\nD12345*\n".to_string();
    assert_eq!(
        process_d_codes(data, GerberFlavor::KiCad),
        "G54D10*\n%ADD10C,0.1*%\nG54D11*\nX1Y1G54D03*\nD1*\nD12345*\n"
    );
}

#[test]
fn altium_draw_lines_are_kept() {
    let data = "G01X1Y1D01*\nG04 D12* note\nD10*\nG36*\nG54D10*\nX5Y5D02*D03*".to_string();
    assert_eq!(
        process_d_codes(data, GerberFlavor::Altium),
        "G01X1Y1D01*\nG04 G54D12* note\nG54D10*\nG36*\nG54D10*\nX5Y5G54D02*G54D03*"
    );
}

#[test]
fn altium_rewrites_aperture_definitions_with_a_d_code() {
    let data = "%ADD10*%\nG02D11*".to_string();
    assert_eq!(process_d_codes(data, GerberFlavor::Altium), "%ADG54D10*%\nG02G54D11*");
}

#[test]
fn empty_text_stays_empty() {
    assert_eq!(process_d_codes(String::new(), GerberFlavor::KiCad), "");
}

#[test]
fn kept_lines_are_told_by_dialect() {
    assert!(should_keep(&chars("%ADD10C,0.1*%"), GerberFlavor::KiCad));
    assert!(!should_keep(&chars("%ADD10C,0.1*%"), GerberFlavor::Altium));
    assert!(should_keep(&chars("G37Y5*"), GerberFlavor::Altium));
    assert!(!should_keep(&chars("G37*"), GerberFlavor::Altium));
    assert!(!should_keep(&chars(" G01X1*"), GerberFlavor::Altium));
    assert!(!should_keep(&chars("G01X1*"), GerberFlavor::KiCad));
}

#[test]
fn software_is_named_by_keyword() {
    assert_eq!(identify_software("G04 Generated by ALTIUM*"), Some("Altium"));
    assert_eq!(identify_software("G04 KiCad and altium*"), Some("Altium"));
    assert_eq!(identify_software("G04 Created by KiCad (PCBNEW)*"), Some("KiCad"));
    assert_eq!(identify_software("G04 EasyEDA v6*"), Some("EasyEDA"));
    assert_eq!(identify_software("G04 other*"), None);
    assert_eq!(identify_software(""), None);
}

#[test]
fn generator_text_is_written_from_its_parts() {
    assert_eq!(
        text(&format_generator(true, 2, 5, 42, 0, "2024-01-02 03:04:05")),
        "EasyEDA Pro v2.5.42.0, 2024-01-02 03:04:05"
    );
    assert_eq!(text(&format_generator(false, 3, 1, 1, 2, "t")), "EasyEDA v3.1.1.2, t");
}

#[test]
fn headers_are_written_around_the_generator() {
    assert_eq!(
        format_gerber_header(&chars("EasyEDA v3.1.1.2, t")),
        "G04 EasyEDA v3.1.1.2, t*\nG04 Gerber Generator version 0.3*\n"
    );
    assert_eq!(
        format_drill_header("PLATED", "PTH_Through", &chars("EasyEDA v3.1.1.2, t")),
        ";TYPE=PLATED\n;Layer: PTH_Through\n;EasyEDA v3.1.1.2, t\n;Gerber Generator version 0.3\n"
    );
}

fn check_generator(generator: &str) {
    let rest = generator
        .strip_prefix("EasyEDA Pro v")
        .or_else(|| generator.strip_prefix("EasyEDA v"))
        .unwrap();
    let (version, stamp) = rest.split_once(", ").unwrap();
    let parts: Vec<u32> = version.split('.').map(|p| p.parse().unwrap()).collect();
    assert_eq!(parts.len(), 4);
    assert!((2..=3).contains(&parts[0]));
    assert!((1..=5).contains(&parts[1]));
    assert!((1..=42).contains(&parts[2]));
    assert!(parts[3] <= 2);
    let b = stamp.as_bytes();
    assert_eq!(b.len(), 19);
    for (i, c) in b.iter().enumerate() {
        match i {
            4 | 7 => assert_eq!(*c, b'-'),
            10 => assert_eq!(*c, b' '),
            13 | 16 => assert_eq!(*c, b':'),
            _ => assert!(c.is_ascii_digit()),
        }
    }
}

#[test]
fn gerber_header_names_a_generator_in_range() {
    for _ in 0..50 {
        let header = get_gerber_header();
        let generator = header
            .strip_prefix("G04 ")
            .unwrap()
            .strip_suffix("*\nG04 Gerber Generator version 0.3*\n")
            .unwrap();
        check_generator(generator);
    }
}

#[test]
fn drill_header_names_a_generator_in_range() {
    let header = get_drill_header("NON_PLATED", "NPTH_Through");
    let generator = header
        .strip_prefix(";TYPE=NON_PLATED\n;Layer: NPTH_Through\n;")
        .unwrap()
        .strip_suffix("\n;Gerber Generator version 0.3\n")
        .unwrap();
    check_generator(generator);
}

#[test]
fn order_guide_points_to_the_documentation() {
    let guide = get_order_guide_text();
    assert!(guide.starts_with("如何进行PCB下单\n\n请查看：\n"));
    assert!(guide.ends_with("https://prodocs.lceda.cn/cn/pcb/order-order-pcb/index.html"));
}

#[test]
fn lines_end_at_line_feeds() {
    let lines = lines_of(&chars("a\r\nb\n\nc\r"));
    let lines: Vec<String> = lines.iter().map(|l| text(l)).collect();
    assert_eq!(lines, vec!["a", "b", "", "c\r"]);
    assert!(lines_of(&chars("")).is_empty());
    assert_eq!(lines_of(&chars("x\n")).len(), 1);
    assert_eq!(lines_of(&chars("\n")).len(), 1);
}

#[test]
fn fingerprint_line_goes_before_the_first_drawing_command() {
    let content = "%FSLAX46Y46*%\n%MOMM*%\n%ADD10C,0.1*%\nG54D10*\nX0Y0D03*\n";
    assert_eq!(
        insert_new_aperture_line(content, "%ADD11C,0.5*%"),
        "%FSLAX46Y46*%\n%MOMM*%\n%ADD10C,0.1*%\n%ADD11C,0.5*%\nG54D10*\nX0Y0D03*"
    );
    assert_eq!(
        insert_new_aperture_line("%MOMM*%\n%LPD*%\nG01*\n", "F"),
        "%MOMM*%\nF\n%LPD*%\nG01*"
    );
}

#[test]
fn fingerprint_line_goes_to_the_end_without_a_place() {
    assert_eq!(insert_new_aperture_line("G04 a*\nG01*\n", "F"), "G04 a*\nG01*\nF");
    assert_eq!(insert_new_aperture_line("%MOMM*%\r\n%ADD10C,1*%", "F"), "%MOMM*%\n%ADD10C,1*%\nF");
    assert_eq!(insert_new_aperture_line("", "F"), "F");
}

#[test]
fn dimension_is_base_and_suffix() {
    assert_eq!(text(&format_dimension(37, 5)), "0.3705");
    assert_eq!(text(&format_dimension(100, 99)), "1.0099");
    assert_eq!(text(&format_dimension(0, 1)), "0.0001");
    assert_eq!(text(&format_dimension(0, 0)), "0.0100");
    assert_eq!(text(&format_dimension(5, 0)), "0.0500");
}

fn suffix_of(data: &str) -> String {
    let digest = Md5::digest(data.as_bytes());
    format!("{:02}", digest[15] % 100)
}

fn check_dimension(dimension: &str, shifted: &str, foreign: bool) {
    let b = dimension.as_bytes();
    assert_eq!(b.len(), 6);
    assert_eq!(b[1], b'.');
    let base: u32 = format!("{}{}", &dimension[0..1], &dimension[2..4]).parse().unwrap();
    assert!(base <= 100);
    let data = if foreign { format!("494d{}", shifted) } else { shifted.to_string() };
    let suffix = suffix_of(&data);
    if base == 0 && suffix == "00" {
        assert_eq!(dimension, "0.0100");
    } else {
        assert_eq!(&dimension[4..6], suffix);
    }
}

#[test]
fn fingerprint_is_modelled_on_the_last_of_few_definitions() {
    let content = "%FSLAX46Y46*%\n%MOMM*%\n%ADD10C,0.1000*%\n%ADD11R,1.0X2.0*%\nG54D10*\nX0Y0D03*\nG54D11*\nD11*\nM02*\n";
    let shifted = "%FSLAX46Y46*%\n%MOMM*%\n%ADD10C,0.1000*%\n%ADD12R,1.0X2.0*%\nG54D10*\nX0Y0D03*\nG54D12*\nD11*\nM02*\n";
    for foreign in [false, true] {
        let marked = add_fingerprint(content, foreign);
        let lines: Vec<&str> = marked.split('\n').collect();
        assert_eq!(lines.len(), 10);
        assert_eq!(lines[2], "%ADD10C,0.1000*%");
        assert_eq!(lines[3], "%ADD12R,1.0X2.0*%");
        assert_eq!(lines[5], "G54D10*");
        assert_eq!(lines[7], "G54D12*");
        assert_eq!(lines[8], "D11*");
        assert_eq!(lines[9], "M02*");
        let dimension = lines[4]
            .strip_prefix("%ADD11R,")
            .unwrap()
            .strip_suffix("X2.0*%")
            .unwrap();
        check_dimension(dimension, shifted, foreign);
    }
}

#[test]
fn fingerprint_without_a_model_is_a_circle_numbered_ten() {
    let content = "G04 test*\n%MOMM*%\nG54D10*\nG54D09*\nG54D9999*\n";
    let shifted = "G04 test*\n%MOMM*%\nG54D11*\nG54D09*\nG54D9999*\n";
    let marked = add_fingerprint(content, false);
    let lines: Vec<&str> = marked.split('\n').collect();
    assert_eq!(lines.len(), 6);
    assert_eq!(lines[3], "G54D11*");
    assert_eq!(lines[4], "G54D09*");
    assert_eq!(lines[5], "G54D9999*");
    let dimension = lines[2].strip_prefix("%ADD10C,").unwrap().strip_suffix("*%").unwrap();
    check_dimension(dimension, shifted, false);
}

#[test]
fn fingerprint_with_many_definitions_takes_a_later_one_as_model() {
    let mut content = String::from("%MOMM*%\n");
    for i in 10..20 {
        content.push_str(&format!("%ADD{}C,0.{}*%\n", i, i));
    }
    content.push_str("G01*\n");
    let mut models = std::collections::BTreeSet::new();
    for _ in 0..60 {
        let marked = add_fingerprint(&content, false);
        let lines: Vec<&str> = marked.split('\n').collect();
        assert_eq!(lines.len(), 13);
        let line = lines[11];
        let id: u32 = line[4..6].parse().unwrap();
        assert!((15..20).contains(&id));
        models.insert(id);
        assert!(line.starts_with(&format!("%ADD{}C,", id)));
        assert!(line.ends_with("*%"));
        assert_eq!(lines[(id - 10) as usize + 1], format!("%ADD{}C,0.{}*%", id + 1, id));
        assert_eq!(lines[1], "%ADD10C,0.10*%");
        assert_eq!(lines[12], "G01*");
    }
    assert!(models.len() > 1);
}

fn many_definitions() -> String {
    let mut content = String::from("%MOMM*%\n");
    for i in 10..20 {
        content.push_str(&format!("%ADD{}C,0.{}*%\n", i, i));
    }
    content.push_str("G01*\n");
    content
}

fn shifted_from(first: u32) -> String {
    let mut shifted = String::from("%MOMM*%\n");
    for i in 10..20 {
        let number = if i >= first { i + 1 } else { i };
        shifted.push_str(&format!("%ADD{}C,0.{}*%\n", number, i));
    }
    shifted.push_str("G01*\n");
    shifted
}

fn marked_with(model: u32, base: &str, foreign: bool) -> String {
    let shifted = shifted_from(model);
    let data = if foreign { format!("494d{}", shifted) } else { shifted.clone() };
    let line = format!("%ADD{}C,{}{}*%", model, base, suffix_of(&data));
    let mut lines: Vec<&str> = shifted.lines().collect();
    lines.insert(11, &line);
    lines.join("\n")
}

#[test]
fn given_picks_fix_the_fingerprint() {
    let content = many_definitions();
    assert_eq!(add_fingerprint_with(&content, false, 7, 37), marked_with(17, "0.37", false));
    assert_eq!(add_fingerprint_with(&content, true, 7, 37), marked_with(17, "0.37", true));
    assert_eq!(add_fingerprint_with(&content, false, 5, 100), marked_with(15, "1.00", false));
    assert_eq!(add_fingerprint_with(&content, false, 9, 5), marked_with(19, "0.05", false));
}

#[test]
fn pick_outside_the_later_definitions_takes_the_last() {
    let content = many_definitions();
    let last = marked_with(19, "0.50", false);
    assert_eq!(add_fingerprint_with(&content, false, 3, 50), last);
    assert_eq!(add_fingerprint_with(&content, false, 10, 50), last);
    assert_eq!(add_fingerprint_with(&content, false, usize::MAX, 50), last);
}

#[test]
fn definitions_are_found_among_the_first_lines_only() {
    let p = Patterns::new();
    let mut lines: Vec<Vec<char>> = Vec::new();
    for i in 0..250 {
        lines.push(chars(&format!("%ADD{}C,0.1*%", 10 + i)));
    }
    lines[3] = chars("%ADD5C,0.1*%");
    lines[4] = chars("%ADD12345C,0.1*%");
    lines[5] = chars(" %ADD15C,0.1*%");
    lines[6] = chars("%ADD16");
    let (definitions, ids) = scan_for_aperture_definitions(&p, &lines);
    assert_eq!(definitions.len(), 196);
    assert_eq!(ids.len(), 196);
    assert_eq!(ids[0], 10);
    assert_eq!(ids[3], 17);
    assert_eq!(*ids.last().unwrap(), 209);
    assert_eq!(text(&definitions[3]), "%ADD17C,0.1*%");
}

#[test]
fn model_is_selected_by_count_and_pick() {
    let definitions: Vec<Vec<char>> = (0..8).map(|i| chars(&format!("d{}", i))).collect();
    let ids: Vec<u32> = (20..28).collect();
    let (template, id) = select_injection_template(&definitions, &ids, 6);
    assert_eq!(text(&template.unwrap()), "d6");
    assert_eq!(id, 26);
    let (template, id) = select_injection_template(&definitions, &ids, 2);
    assert_eq!(text(&template.unwrap()), "d7");
    assert_eq!(id, 27);
    let few: Vec<Vec<char>> = definitions[..5].to_vec();
    let (template, id) = select_injection_template(&few, &ids[..5].to_vec(), 3);
    assert_eq!(text(&template.unwrap()), "d4");
    assert_eq!(id, 24);
    let (template, id) = select_injection_template(&Vec::new(), &Vec::new(), 0);
    assert!(template.is_none());
    assert_eq!(id, 10);
}

#[test]
fn aperture_numbers_from_the_model_on_are_raised() {
    let p = Patterns::new();
    let content = chars("%ADD10C,1*%\r\nG54D11*\n G54D12*\n%ADD9998C,1*%\n%ADD9999C,1*%\nD11*\n%ADD11\n");
    assert_eq!(
        text(&renumber_apertures(&p, &content, 11)),
        "%ADD10C,1*%\r\nG54D12*\n G54D12*\n%ADD9999C,1*%\n%ADD9999C,1*%\nD11*\n%ADD12\n"
    );
}

#[test]
fn dimension_is_drawn_from_the_digest() {
    let shifted = "%ADD10C,1*%\nG54D10*\n";
    let plain = text(&generate_hashed_dimension(&chars(shifted), false, 42));
    assert_eq!(plain, format!("0.42{}", suffix_of(shifted)));
    let foreign = text(&generate_hashed_dimension(&chars(shifted), true, 42));
    assert_eq!(foreign, format!("0.42{}", suffix_of(&format!("494d{}", shifted))));
}

#[test]
fn fingerprint_line_is_written_from_the_model() {
    let p = Patterns::new();
    let dimension = chars("0.4217");
    let line = create_fingerprint_aperture_line(&p, Some(chars("%ADD15R,1.5X2.5*%")), 15, &dimension);
    assert_eq!(text(&line), "%ADD15R,0.4217X2.5*%");
    let line = create_fingerprint_aperture_line(&p, Some(chars("%ADD123O,1,2,3*%")), 7, &dimension);
    assert_eq!(text(&line), "%ADD7O,0.4217,2,3*%");
    let line = create_fingerprint_aperture_line(&p, None, 10, &dimension);
    assert_eq!(text(&line), "%ADD10C,0.4217*%");
}
