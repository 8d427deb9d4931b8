//! The header blocks that name the generator of a file, and the order
//! guide.

use vstd::prelude::*;
use crate::number::{decimal_chars, decimal_digits};
use crate::random::{random_coin, random_u32};
use crate::text::{extend_chars, extend_str, from_chars};

verus! {

/// The name of the generator.
pub open spec fn generator_name(pro: bool) -> Seq<char> {
    if pro {
        "EasyEDA Pro"@
    } else {
        "EasyEDA"@
    }
}

/// A version of the generator: `v<major>.<minor>.<patch>.<build>`.
pub open spec fn version_text(major: u32, minor: u32, patch: u32, build: u32) -> Seq<char> {
    "v"@ + decimal_digits(major as nat) + "."@ + decimal_digits(minor as nat) + "."@
        + decimal_digits(patch as nat) + "."@ + decimal_digits(build as nat)
}

/// The generator with its version and a time stamp:
/// `<name> <version>, <stamp>`.
pub open spec fn generator_text(
    pro: bool,
    major: u32,
    minor: u32,
    patch: u32,
    build: u32,
    stamp: Seq<char>,
) -> Seq<char> {
    generator_name(pro) + " "@ + version_text(major, minor, patch, build) + ", "@ + stamp
}

/// The versions a header may name: major 2 or 3, minor 1 to 5, patch 1 to
/// 42, build 0 to 2.
pub open spec fn version_in_range(major: u32, minor: u32, patch: u32, build: u32) -> bool {
    2 <= major <= 3 && 1 <= minor <= 5 && 1 <= patch <= 42 && build <= 2
}

/// `s` names a generator, one of the versions in range, and some time
/// stamp.
pub open spec fn is_generator_text(s: Seq<char>) -> bool {
    exists|pro: bool, major: u32, minor: u32, patch: u32, build: u32, stamp: Seq<char>|
        version_in_range(major, minor, patch, build) && s == #[trigger] generator_text(
            pro,
            major,
            minor,
            patch,
            build,
            stamp,
        )
}

/// The header of a Gerber file, given the generator text: two comment
/// lines.
pub open spec fn gerber_header_text(generator: Seq<char>) -> Seq<char> {
    "G04 "@ + generator + "*\nG04 Gerber Generator version 0.3*\n"@
}

/// The header block of a drill file, given its plating label, its layer
/// name and the generator text: four comment lines.
pub open spec fn drill_header_text(
    type_label: Seq<char>,
    layer_name: Seq<char>,
    generator: Seq<char>,
) -> Seq<char> {
    ";TYPE="@ + type_label + "\n;Layer: "@ + layer_name + "\n;"@ + generator
        + "\n;Gerber Generator version 0.3\n"@
}

/// The text of the order guide.
pub open spec fn order_guide_text() -> Seq<char> {
    "如何进行PCB下单\n\n请查看：\nhttps://prodocs.lceda.cn/cn/pcb/order-order-pcb/index.html"@
}

/// `chrono::Local::now`, formatted as `%Y-%m-%d %H:%M:%S`: the local time
/// of the call. Nothing is stated of the text.
#[verifier::external_body]
fn local_time_stamp() -> (r: String) {
    chrono::Local::now().format("%Y-%m-%d %H:%M:%S").to_string()
}

/// Writes the generator text for the given picks.
pub fn format_generator(pro: bool, major: u32, minor: u32, patch: u32, build: u32, stamp: &str) -> (r:
    Vec<char>)
    ensures
        r@ == generator_text(pro, major, minor, patch, build, stamp@),
{
    let mut version: Vec<char> = Vec::new();
    extend_str(&mut version, "v");
    assert(version@ =~= "v"@);
    let a = decimal_chars(major as u64);
    extend_chars(&mut version, a.as_slice());
    extend_str(&mut version, ".");
    let b = decimal_chars(minor as u64);
    extend_chars(&mut version, b.as_slice());
    extend_str(&mut version, ".");
    let c = decimal_chars(patch as u64);
    extend_chars(&mut version, c.as_slice());
    extend_str(&mut version, ".");
    let d = decimal_chars(build as u64);
    extend_chars(&mut version, d.as_slice());
    let mut r: Vec<char> = Vec::new();
    if pro {
        extend_str(&mut r, "EasyEDA Pro");
    } else {
        extend_str(&mut r, "EasyEDA");
    }
    assert(r@ =~= generator_name(pro));
    extend_str(&mut r, " ");
    extend_chars(&mut r, version.as_slice());
    extend_str(&mut r, ", ");
    extend_str(&mut r, stamp);
    r
}

/// Picks a generator name and a version at random, takes the local time,
/// and writes the generator text.
fn current_generator() -> (r: Vec<char>)
    ensures
        is_generator_text(r@),
{
    let pro = random_coin();
    let major = random_u32(2, 3);
    let minor = random_u32(1, 5);
    let patch = random_u32(1, 42);
    let build = random_u32(0, 2);
    let stamp = local_time_stamp();
    let r = format_generator(pro, major, minor, patch, build, stamp.as_str());
    proof {
        assert(version_in_range(major, minor, patch, build) && r@ == generator_text(
            pro,
            major,
            minor,
            patch,
            build,
            stamp@,
        ));
    }
    r
}

/// Writes the header of a Gerber file around a generator text.
pub fn format_gerber_header(generator: &[char]) -> (r: String)
    ensures
        r@ == gerber_header_text(generator@),
{
    let mut r: Vec<char> = Vec::new();
    extend_str(&mut r, "G04 ");
    assert(r@ =~= "G04 "@);
    extend_chars(&mut r, generator);
    extend_str(&mut r, "*\nG04 Gerber Generator version 0.3*\n");
    from_chars(r.as_slice())
}

/// Writes the header block of a drill file around a generator text.
pub fn format_drill_header(type_label: &str, layer_name: &str, generator: &[char]) -> (r: String)
    ensures
        r@ == drill_header_text(type_label@, layer_name@, generator@),
{
    let mut r: Vec<char> = Vec::new();
    extend_str(&mut r, ";TYPE=");
    assert(r@ =~= ";TYPE="@);
    extend_str(&mut r, type_label);
    extend_str(&mut r, "\n;Layer: ");
    extend_str(&mut r, layer_name);
    extend_str(&mut r, "\n;");
    extend_chars(&mut r, generator);
    extend_str(&mut r, "\n;Gerber Generator version 0.3\n");
    from_chars(r.as_slice())
}

/// The header of a Gerber file: two comment lines that name a generator,
/// a version picked at random and the local time, ending in a line feed.
pub fn get_gerber_header() -> (r: String)
    ensures
        exists|generator: Seq<char>|
            is_generator_text(generator) && r@ == #[trigger] gerber_header_text(generator),
{
    let generator = current_generator();
    let r = format_gerber_header(generator.as_slice());
    assert(is_generator_text(generator@) && r@ == gerber_header_text(generator@));
    r
}

/// The header block of a drill file: its plating label, its layer name, a
/// generator with a version picked at random, and the local time.
pub fn get_drill_header(type_label: &str, layer_name: &str) -> (r: String)
    ensures
        exists|generator: Seq<char>|
            is_generator_text(generator) && r@ == #[trigger] drill_header_text(
                type_label@,
                layer_name@,
                generator,
            ),
{
    let generator = current_generator();
    let r = format_drill_header(type_label, layer_name, generator.as_slice());
    assert(is_generator_text(generator@) && r@ == drill_header_text(
        type_label@,
        layer_name@,
        generator@,
    ));
    r
}

/// The order guide: where to read how an order is placed.
pub fn get_order_guide_text() -> (r: &'static str)
    ensures
        r@ == order_guide_text(),
{
    "如何进行PCB下单\n\n请查看：\nhttps://prodocs.lceda.cn/cn/pcb/order-order-pcb/index.html"
}

} // verus!
