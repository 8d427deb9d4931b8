//! Giving the files of an export their standard names, by the rules of the
//! design tool that wrote them.

use vstd::prelude::*;
use crate::fancy::{compile_fancy, fancy_compiles, fancy_is_match, is_match, FancyPattern};
use crate::text::{equal, extend_str, from_chars, to_chars};

verus! {

/// The design tools whose file names are known.
#[derive(Debug, Clone, Copy, PartialEq, Eq, Structural)]
pub enum EdaType {
    /// Altium Designer.
    Ad,
    KiCad,
}

/// A rule as it is written: the logical name of a kind of file, and the
/// pattern of the file names of that kind.
pub struct RuleText {
    pub logical_name: Seq<char>,
    pub pattern: Seq<char>,
}

/// A rule ready for use.
pub struct Rule {
    pub logical_name: &'static str,
    pub source: &'static str,
    /// The compiled pattern; `None` where the pattern cannot be compiled.
    pub pattern: Option<FancyPattern>,
}

impl Rule {
    /// The pattern of the rule is the compiled form of its source.
    pub open spec fn wf(&self) -> bool {
        &&& self.pattern.is_some() == fancy_compiles(self.source@)
        &&& self.pattern matches Some(p) ==> p@ == self.source@
    }
}

impl View for Rule {
    type V = RuleText;

    open spec fn view(&self) -> RuleText {
        RuleText { logical_name: self.logical_name@, pattern: self.source@ }
    }
}

/// A rule from its two texts.
pub open spec fn rule_text(logical_name: &str, pattern: &str) -> RuleText {
    RuleText { logical_name: logical_name@, pattern: pattern@ }
}

/// The rules for Altium Designer, in order of precedence.
pub open spec fn ad_rule_texts() -> Seq<RuleText> {
    seq![
        rule_text("Gerber_BoardOutlineLayer", "(?i)\\.GM(1|13)$"),
        rule_text("Gerber_DocumentLayer", "(?i)\\.GM$"),
        rule_text("Gerber_TopLayer", "(?i)\\.GTL$"),
        rule_text("Gerber_TopSilkscreenLayer", "(?i)\\.GTO$"),
        rule_text("Gerber_TopSolderMaskLayer", "(?i)\\.GTS$"),
        rule_text("Gerber_TopPasteMaskLayer", "(?i)\\.GTP$"),
        rule_text("Gerber_BottomLayer", "(?i)\\.GBL$"),
        rule_text("Gerber_BottomSilkscreenLayer", "(?i)\\.GBP$"),
        rule_text("Gerber_BottomSolderMaskLayer", "(?i)\\.GBS$"),
        rule_text("Gerber_BottomPasteMaskLayer", "(?i)\\.GPB$"),
        rule_text("Gerber_InnerLayer1", "(?i)\\.G1$"),
        rule_text("Gerber_InnerLayer2", "(?i)\\.G2$"),
        rule_text("Gerber_InnerLayer3", "(?i)\\.G3$"),
        rule_text("Gerber_InnerLayer4", "(?i)\\.G4$"),
        rule_text("Gerber_InnerLayer5", "(?i)\\.G5$"),
        rule_text("Gerber_InnerLayer6", "(?i)\\.G6$"),
        rule_text("Drill_NPTH_Through", "(?i).*slot\\s?h?oles.*\\.txt$"),
        rule_text("Drill_PTH_Through", "(?i).*round\\s?h?oles.*\\.txt$"),
        rule_text("Drill_PTH_Through_Via", "(?i)\\.REP$|.*via.*\\.txt$"),
        rule_text("Drill_PTH_Through_GBR", "(?i)\\.GD1$"),
        rule_text("Drill_PTH_Through_Via_GBR", "(?i)\\.GG1$"),
    ]
}

/// The rules for KiCad, in order of precedence. The drill rules run from
/// the most particular to the least.
pub open spec fn kicad_rule_texts() -> Seq<RuleText> {
    seq![
        rule_text("Gerber_BoardOutlineLayer", "(?i).*Edge_Cuts.*"),
        rule_text("Gerber_DocumentLayer", "(?i).*GM.*"),
        rule_text("Gerber_TopLayer", "(?i).*F_Cu.*"),
        rule_text("Gerber_TopSilkscreenLayer", "(?i).*F_Silkscreen.*"),
        rule_text("Gerber_TopSolderMaskLayer", "(?i).*F_Mask.*"),
        rule_text("Gerber_TopPasteMaskLayer", "(?i).*F_Paste.*"),
        rule_text("Gerber_BottomLayer", "(?i).*B_Cu.*"),
        rule_text("Gerber_BottomSilkscreenLayer", "(?i).*B_Silkscreen.*"),
        rule_text("Gerber_BottomSolderMaskLayer", "(?i).*B_Mask.*"),
        rule_text("Gerber_BottomPasteMaskLayer", "(?i).*B_Paste.*"),
        rule_text("Gerber_InnerLayer1", "(?i).*In1_Cu.*"),
        rule_text("Gerber_InnerLayer2", "(?i).*In2_Cu.*"),
        rule_text("Gerber_InnerLayer3", "(?i).*In3_Cu.*"),
        rule_text("Gerber_InnerLayer4", "(?i).*In4_Cu.*"),
        rule_text("Gerber_InnerLayer5", "(?i).*In5_Cu.*"),
        rule_text("Gerber_InnerLayer6", "(?i).*In6_Cu.*"),
        rule_text("Drill_PTH_Through_Via", "(?i)^.*\\bVIA\\b.*\\.DRL$"),
        rule_text("Drill_NPTH_Through", "(?i)^.*\\bNPTH\\b.*\\.DRL$"),
        rule_text("Drill_PTH_Through", "(?i)^(?!.*NPTH).*\\.DRL$"),
        rule_text("Drill_PTH_Through_Via_GBR", "(?i)^.*\\bVIA\\b.*\\.GBR$"),
        rule_text("Drill_NPTH_Through_GBR", "(?i)^.*\\bNPTH\\b.*\\.GBR$"),
        rule_text("Drill_PTH_Through_GBR", "(?i)^[^N]*PTH[^N]*\\.GBR$"),
        rule_text("Drill_MAP_GBR", "(?i).*?-drl_map$"),
    ]
}

/// The rules of a design tool.
pub open spec fn rule_texts(eda: EdaType) -> Seq<RuleText> {
    match eda {
        EdaType::Ad => ad_rule_texts(),
        EdaType::KiCad => kicad_rule_texts(),
    }
}

/// The extension of the standard name of a kind of file.
pub open spec fn extension_of(logical_name: Seq<char>) -> Seq<char> {
    if logical_name == "Gerber_TopSolderMaskLayer"@ {
        "GTS"@
    } else if logical_name == "Gerber_TopSilkscreenLayer"@ {
        "GTO"@
    } else if logical_name == "Gerber_TopPasteMaskLayer"@ {
        "GTP"@
    } else if logical_name == "Gerber_TopLayer"@ {
        "GTL"@
    } else if logical_name == "Gerber_InnerLayer1"@ {
        "G1"@
    } else if logical_name == "Gerber_InnerLayer2"@ {
        "G2"@
    } else if logical_name == "Gerber_InnerLayer3"@ {
        "G3"@
    } else if logical_name == "Gerber_InnerLayer4"@ {
        "G4"@
    } else if logical_name == "Gerber_InnerLayer5"@ {
        "G5"@
    } else if logical_name == "Gerber_InnerLayer6"@ {
        "G6"@
    } else if logical_name == "Gerber_BottomSolderMaskLayer"@ {
        "GBS"@
    } else if logical_name == "Gerber_BottomSilkscreenLayer"@ {
        "GBO"@
    } else if logical_name == "Gerber_BottomPasteMaskLayer"@ {
        "GBP"@
    } else if logical_name == "Gerber_BottomLayer"@ {
        "GBL"@
    } else if logical_name == "Gerber_BoardOutlineLayer"@ {
        "GKO"@
    } else if logical_name == "Drill_PTH_Through"@ || logical_name == "Drill_PTH_Through_Via"@
        || logical_name == "Drill_NPTH_Through"@ {
        "DRL"@
    } else {
        "gbr"@
    }
}

/// The standard name of a kind of file: its logical name, a point, and its
/// extension.
pub open spec fn final_filename(logical_name: Seq<char>) -> Seq<char> {
    logical_name + "."@ + extension_of(logical_name)
}

/// Whether a rule applies to a file name: its pattern can be compiled and
/// is found in the name.
pub open spec fn applies(rule: RuleText, file: Seq<char>) -> bool {
    fancy_compiles(rule.pattern) && fancy_is_match(rule.pattern, file)
}

/// The logical name of the first of `rules` that applies to `file`.
pub open spec fn first_applying(rules: Seq<RuleText>, file: Seq<char>) -> Option<Seq<char>>
    decreases rules.len(),
{
    if rules.len() == 0 {
        None
    } else if applies(rules[0], file) {
        Some(rules[0].logical_name)
    } else {
        first_applying(rules.drop_first(), file)
    }
}

/// The new name of a file: the standard name of its kind where a rule
/// applies, its own name otherwise.
pub open spec fn renamed(file: Seq<char>, eda: EdaType) -> Seq<char> {
    match first_applying(rule_texts(eda), file) {
        Some(logical_name) => final_filename(logical_name),
        None => file,
    }
}

/// The views of a vector of rules.
pub open spec fn rule_views(rules: Seq<Rule>) -> Seq<RuleText> {
    Seq::new(rules.len(), |i: int| rules[i]@)
}

/// Makes a rule ready for use.
pub fn rule(logical_name: &'static str, pattern_str: &'static str) -> (r: Rule)
    ensures
        r.wf(),
        r@ == rule_text(logical_name, pattern_str),
{
    Rule { logical_name, source: pattern_str, pattern: compile_fancy(pattern_str) }
}

/// The rules for Altium Designer.
fn ad_rules() -> (r: Vec<Rule>)
    ensures
        rule_views(r@) == ad_rule_texts(),
        forall|i: int| 0 <= i < r.len() ==> (#[trigger] r@[i]).wf(),
{
    let mut r: Vec<Rule> = Vec::new();
    r.push(rule("Gerber_BoardOutlineLayer", "(?i)\\.GM(1|13)$"));
    r.push(rule("Gerber_DocumentLayer", "(?i)\\.GM$"));
    r.push(rule("Gerber_TopLayer", "(?i)\\.GTL$"));
    r.push(rule("Gerber_TopSilkscreenLayer", "(?i)\\.GTO$"));
    r.push(rule("Gerber_TopSolderMaskLayer", "(?i)\\.GTS$"));
    r.push(rule("Gerber_TopPasteMaskLayer", "(?i)\\.GTP$"));
    r.push(rule("Gerber_BottomLayer", "(?i)\\.GBL$"));
    r.push(rule("Gerber_BottomSilkscreenLayer", "(?i)\\.GBP$"));
    r.push(rule("Gerber_BottomSolderMaskLayer", "(?i)\\.GBS$"));
    r.push(rule("Gerber_BottomPasteMaskLayer", "(?i)\\.GPB$"));
    r.push(rule("Gerber_InnerLayer1", "(?i)\\.G1$"));
    r.push(rule("Gerber_InnerLayer2", "(?i)\\.G2$"));
    r.push(rule("Gerber_InnerLayer3", "(?i)\\.G3$"));
    r.push(rule("Gerber_InnerLayer4", "(?i)\\.G4$"));
    r.push(rule("Gerber_InnerLayer5", "(?i)\\.G5$"));
    r.push(rule("Gerber_InnerLayer6", "(?i)\\.G6$"));
    r.push(rule("Drill_NPTH_Through", "(?i).*slot\\s?h?oles.*\\.txt$"));
    r.push(rule("Drill_PTH_Through", "(?i).*round\\s?h?oles.*\\.txt$"));
    r.push(rule("Drill_PTH_Through_Via", "(?i)\\.REP$|.*via.*\\.txt$"));
    r.push(rule("Drill_PTH_Through_GBR", "(?i)\\.GD1$"));
    r.push(rule("Drill_PTH_Through_Via_GBR", "(?i)\\.GG1$"));
    assert(rule_views(r@) =~= ad_rule_texts());
    r
}

/// The rules for KiCad.
fn kicad_rules() -> (r: Vec<Rule>)
    ensures
        rule_views(r@) == kicad_rule_texts(),
        forall|i: int| 0 <= i < r.len() ==> (#[trigger] r@[i]).wf(),
{
    let mut r: Vec<Rule> = Vec::new();
    r.push(rule("Gerber_BoardOutlineLayer", "(?i).*Edge_Cuts.*"));
    r.push(rule("Gerber_DocumentLayer", "(?i).*GM.*"));
    r.push(rule("Gerber_TopLayer", "(?i).*F_Cu.*"));
    r.push(rule("Gerber_TopSilkscreenLayer", "(?i).*F_Silkscreen.*"));
    r.push(rule("Gerber_TopSolderMaskLayer", "(?i).*F_Mask.*"));
    r.push(rule("Gerber_TopPasteMaskLayer", "(?i).*F_Paste.*"));
    r.push(rule("Gerber_BottomLayer", "(?i).*B_Cu.*"));
    r.push(rule("Gerber_BottomSilkscreenLayer", "(?i).*B_Silkscreen.*"));
    r.push(rule("Gerber_BottomSolderMaskLayer", "(?i).*B_Mask.*"));
    r.push(rule("Gerber_BottomPasteMaskLayer", "(?i).*B_Paste.*"));
    r.push(rule("Gerber_InnerLayer1", "(?i).*In1_Cu.*"));
    r.push(rule("Gerber_InnerLayer2", "(?i).*In2_Cu.*"));
    r.push(rule("Gerber_InnerLayer3", "(?i).*In3_Cu.*"));
    r.push(rule("Gerber_InnerLayer4", "(?i).*In4_Cu.*"));
    r.push(rule("Gerber_InnerLayer5", "(?i).*In5_Cu.*"));
    r.push(rule("Gerber_InnerLayer6", "(?i).*In6_Cu.*"));
    r.push(rule("Drill_PTH_Through_Via", "(?i)^.*\\bVIA\\b.*\\.DRL$"));
    r.push(rule("Drill_NPTH_Through", "(?i)^.*\\bNPTH\\b.*\\.DRL$"));
    r.push(rule("Drill_PTH_Through", "(?i)^(?!.*NPTH).*\\.DRL$"));
    r.push(rule("Drill_PTH_Through_Via_GBR", "(?i)^.*\\bVIA\\b.*\\.GBR$"));
    r.push(rule("Drill_NPTH_Through_GBR", "(?i)^.*\\bNPTH\\b.*\\.GBR$"));
    r.push(rule("Drill_PTH_Through_GBR", "(?i)^[^N]*PTH[^N]*\\.GBR$"));
    r.push(rule("Drill_MAP_GBR", "(?i).*?-drl_map$"));
    assert(rule_views(r@) =~= kicad_rule_texts());
    r
}

/// Whether `name` is the text `s`.
fn names(name: &[char], s: &str) -> (r: bool)
    ensures
        r == (name@ == s@),
{
    equal(name, to_chars(s).as_slice())
}

/// The standard name of a kind of file.
pub fn get_final_filename(logical_name: &str) -> (r: String)
    ensures
        r@ == final_filename(logical_name@),
{
    let name = to_chars(logical_name);
    let n = name.as_slice();
    let extension = if names(n, "Gerber_TopSolderMaskLayer") {
        "GTS"
    } else if names(n, "Gerber_TopSilkscreenLayer") {
        "GTO"
    } else if names(n, "Gerber_TopPasteMaskLayer") {
        "GTP"
    } else if names(n, "Gerber_TopLayer") {
        "GTL"
    } else if names(n, "Gerber_InnerLayer1") {
        "G1"
    } else if names(n, "Gerber_InnerLayer2") {
        "G2"
    } else if names(n, "Gerber_InnerLayer3") {
        "G3"
    } else if names(n, "Gerber_InnerLayer4") {
        "G4"
    } else if names(n, "Gerber_InnerLayer5") {
        "G5"
    } else if names(n, "Gerber_InnerLayer6") {
        "G6"
    } else if names(n, "Gerber_BottomSolderMaskLayer") {
        "GBS"
    } else if names(n, "Gerber_BottomSilkscreenLayer") {
        "GBO"
    } else if names(n, "Gerber_BottomPasteMaskLayer") {
        "GBP"
    } else if names(n, "Gerber_BottomLayer") {
        "GBL"
    } else if names(n, "Gerber_BoardOutlineLayer") {
        "GKO"
    } else if names(n, "Drill_PTH_Through") || names(n, "Drill_PTH_Through_Via") || names(n,
        "Drill_NPTH_Through",
    ) {
        "DRL"
    } else {
        "gbr"
    };
    let mut r: Vec<char> = Vec::new();
    extend_str(&mut r, logical_name);
    assert(r@ =~= logical_name@);
    extend_str(&mut r, ".");
    extend_str(&mut r, extension);
    from_chars(r.as_slice())
}

/// The new name of one file under a set of rules.
fn rename_one(rules: &Vec<Rule>, file: &String) -> (r: String)
    requires
        forall|i: int| 0 <= i < rules.len() ==> (#[trigger] rules@[i]).wf(),
    ensures
        r@ == match first_applying(rule_views(rules@), file@) {
            Some(logical_name) => final_filename(logical_name),
            None => file@,
        },
{
    let ghost all = rule_views(rules@);
    let mut k: usize = 0;
    proof {
        assert(all.skip(0) == all);
    }
    while k < rules.len()
        invariant
            k <= rules.len(),
            all == rule_views(rules@),
            forall|i: int| 0 <= i < rules.len() ==> (#[trigger] rules@[i]).wf(),
            first_applying(all, file@) == first_applying(all.skip(k as int), file@),
        decreases rules.len() - k,
    {
        let rule = &rules[k];
        proof {
            assert(all.skip(k as int)[0] == rule@);
            assert(all.skip(k as int).drop_first() == all.skip(k + 1));
            assert(rule.wf());
        }
        let found = match &rule.pattern {
            Some(p) => is_match(p, file.as_str()),
            None => false,
        };
        if found {
            return get_final_filename(rule.logical_name);
        }
        k += 1;
    }
    file.clone()
}

/// Gives each file its new name: the standard name of the first rule of
/// the design tool that applies to it, or its own name where none does.
/// The result pairs each file, in the order given, with its new name.
pub fn map_filenames(files: &[String], eda_type: EdaType) -> (r: Vec<(String, String)>)
    ensures
        r.len() == files.len(),
        forall|i: int|
            0 <= i < r.len() ==> (#[trigger] r@[i]).0@ == files@[i]@ && r@[i].1@ == renamed(
                files@[i]@,
                eda_type,
            ),
{
    let rules = match eda_type {
        EdaType::Ad => ad_rules(),
        EdaType::KiCad => kicad_rules(),
    };
    let mut r: Vec<(String, String)> = Vec::new();
    let mut i: usize = 0;
    while i < files.len()
        invariant
            i <= files.len(),
            r.len() == i,
            rule_views(rules@) == rule_texts(eda_type),
            forall|k: int| 0 <= k < rules.len() ==> (#[trigger] rules@[k]).wf(),
            forall|k: int|
                0 <= k < r.len() ==> (#[trigger] r@[k]).0@ == files@[k]@ && r@[k].1@ == renamed(
                    files@[k]@,
                    eda_type,
                ),
        decreases files.len() - i,
    {
        let new_name = rename_one(&rules, &files[i]);
        r.push((files[i].clone(), new_name));
        i += 1;
    }
    r
}

} // verus!
