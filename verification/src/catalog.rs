//! A sample defect code catalog.
//!
//! Its fifty codes are stand-ins: titles and descriptions of common defects,
//! for use where no catalog of a plant's own is at hand. A catalog of one's own
//! goes to `ncr::suggest_with_codes`.

use vstd::prelude::*;
use vstd::string::*;

use crate::ncr::{DefectCode, DefectCodeView};
use crate::text::{digit, digits_value, is_blank, is_white_space, law_digits_are_decimal};

verus! {

/// The code with this id, title and description.
pub open spec fn entry(id: Seq<char>, title: Seq<char>, description: Seq<char>) -> DefectCodeView {
    DefectCodeView { id, title, description }
}

/// The id of defect code number `n`: `D-` and three digits.
pub open spec fn code_id(n: nat) -> Seq<char> {
    seq!['D', '-', digit(n / 100 % 10), digit(n / 10 % 10), digit(n % 10)]
}

/// Whether every code has a title and a description, and its id is that of its
/// place, counted from `from`.
pub open spec fn in_place(codes: Seq<DefectCodeView>, from: nat) -> bool {
    forall|i: int|
        0 <= i < codes.len() ==> (#[trigger] codes[i]).id == code_id((from + i) as nat) && !is_blank(
            codes[i].title,
        ) && !is_blank(codes[i].description)
}

/// What codes say.
pub open spec fn views(codes: Seq<DefectCode>) -> Seq<DefectCodeView> {
    Seq::new(codes.len(), |i: int| codes[i]@)
}

fn code(id: &str, title: &str, description: &str) -> (r: DefectCode)
    ensures
        r@ == entry(id@, title@, description@),
{
    DefectCode {
        id: id.to_owned(),
        title: title.to_owned(),
        description: description.to_owned(),
    }
}

/// A text with a character that is not white space is not blank.
proof fn lemma_starts_dark(text: Seq<char>)
    requires
        text.len() > 0,
        !is_white_space(text[0]),
    ensures
        !is_blank(text),
{
}

/// The codes from D-001 to D-010.
pub open spec fn surfaces() -> Seq<DefectCodeView> {
    seq![
        entry("D-001"@, "Dent"@, "Local depression in a surface caused by an impact or by pressure."@),
        entry("D-002"@, "Scratch"@, "Linear mark or groove on a surface caused by contact, handling or transport."@),
        entry("D-003"@, "Crack"@, "Visible or detected fracture in the material, whether or not it goes through the part."@),
        entry("D-004"@, "Corrosion"@, "Rust, oxidation or chemical attack on a surface or inside the part."@),
        entry("D-005"@, "Burr"@, "Raised edge or sharp sliver of material left by cutting, drilling or stamping."@),
        entry("D-006"@, "Porosity"@, "Voids, pinholes or gas pockets in a casting, weld or molded part."@),
        entry("D-007"@, "Deformation"@, "Part is bent, warped, twisted or otherwise out of its intended shape."@),
        entry("D-008"@, "Discoloration"@, "Color, shade or stain differs from the standard or varies over the part."@),
        entry("D-009"@, "Contamination"@, "Oil, dust, chips or other foreign material on or inside the product."@),
        entry("D-010"@, "Surface Roughness"@, "Surface finish is rougher or smoother than the drawing allows."@),
    ]
}

fn surfaces_codes() -> (r: Vec<DefectCode>)
    ensures
        views(r@) == surfaces(),
{
    let mut codes: Vec<DefectCode> = Vec::new();
    codes.push(code("D-001", "Dent", "Local depression in a surface caused by an impact or by pressure."));
    codes.push(code("D-002", "Scratch", "Linear mark or groove on a surface caused by contact, handling or transport."));
    codes.push(code("D-003", "Crack", "Visible or detected fracture in the material, whether or not it goes through the part."));
    codes.push(code("D-004", "Corrosion", "Rust, oxidation or chemical attack on a surface or inside the part."));
    codes.push(code("D-005", "Burr", "Raised edge or sharp sliver of material left by cutting, drilling or stamping."));
    codes.push(code("D-006", "Porosity", "Voids, pinholes or gas pockets in a casting, weld or molded part."));
    codes.push(code("D-007", "Deformation", "Part is bent, warped, twisted or otherwise out of its intended shape."));
    codes.push(code("D-008", "Discoloration", "Color, shade or stain differs from the standard or varies over the part."));
    codes.push(code("D-009", "Contamination", "Oil, dust, chips or other foreign material on or inside the product."));
    codes.push(code("D-010", "Surface Roughness", "Surface finish is rougher or smoother than the drawing allows."));
    assert(views(codes@) =~= surfaces());
    codes
}

#[verifier::spinoff_prover]
proof fn lemma_surfaces()
    ensures
        surfaces().len() == 10,
        in_place(surfaces(), 1),
{
    reveal_strlit("D-001");
    reveal_strlit("Dent");
    reveal_strlit("Local depression in a surface caused by an impact or by pressure.");
    assert("D-001"@ =~= code_id(1));
    lemma_starts_dark("Dent"@);
    lemma_starts_dark("Local depression in a surface caused by an impact or by pressure."@);
    reveal_strlit("D-002");
    reveal_strlit("Scratch");
    reveal_strlit("Linear mark or groove on a surface caused by contact, handling or transport.");
    assert("D-002"@ =~= code_id(2));
    lemma_starts_dark("Scratch"@);
    lemma_starts_dark("Linear mark or groove on a surface caused by contact, handling or transport."@);
    reveal_strlit("D-003");
    reveal_strlit("Crack");
    reveal_strlit("Visible or detected fracture in the material, whether or not it goes through the part.");
    assert("D-003"@ =~= code_id(3));
    lemma_starts_dark("Crack"@);
    lemma_starts_dark("Visible or detected fracture in the material, whether or not it goes through the part."@);
    reveal_strlit("D-004");
    reveal_strlit("Corrosion");
    reveal_strlit("Rust, oxidation or chemical attack on a surface or inside the part.");
    assert("D-004"@ =~= code_id(4));
    lemma_starts_dark("Corrosion"@);
    lemma_starts_dark("Rust, oxidation or chemical attack on a surface or inside the part."@);
    reveal_strlit("D-005");
    reveal_strlit("Burr");
    reveal_strlit("Raised edge or sharp sliver of material left by cutting, drilling or stamping.");
    assert("D-005"@ =~= code_id(5));
    lemma_starts_dark("Burr"@);
    lemma_starts_dark("Raised edge or sharp sliver of material left by cutting, drilling or stamping."@);
    reveal_strlit("D-006");
    reveal_strlit("Porosity");
    reveal_strlit("Voids, pinholes or gas pockets in a casting, weld or molded part.");
    assert("D-006"@ =~= code_id(6));
    lemma_starts_dark("Porosity"@);
    lemma_starts_dark("Voids, pinholes or gas pockets in a casting, weld or molded part."@);
    reveal_strlit("D-007");
    reveal_strlit("Deformation");
    reveal_strlit("Part is bent, warped, twisted or otherwise out of its intended shape.");
    assert("D-007"@ =~= code_id(7));
    lemma_starts_dark("Deformation"@);
    lemma_starts_dark("Part is bent, warped, twisted or otherwise out of its intended shape."@);
    reveal_strlit("D-008");
    reveal_strlit("Discoloration");
    reveal_strlit("Color, shade or stain differs from the standard or varies over the part.");
    assert("D-008"@ =~= code_id(8));
    lemma_starts_dark("Discoloration"@);
    lemma_starts_dark("Color, shade or stain differs from the standard or varies over the part."@);
    reveal_strlit("D-009");
    reveal_strlit("Contamination");
    reveal_strlit("Oil, dust, chips or other foreign material on or inside the product.");
    assert("D-009"@ =~= code_id(9));
    lemma_starts_dark("Contamination"@);
    lemma_starts_dark("Oil, dust, chips or other foreign material on or inside the product."@);
    reveal_strlit("D-010");
    reveal_strlit("Surface Roughness");
    reveal_strlit("Surface finish is rougher or smoother than the drawing allows.");
    assert("D-010"@ =~= code_id(10));
    lemma_starts_dark("Surface Roughness"@);
    lemma_starts_dark("Surface finish is rougher or smoother than the drawing allows."@);
}

/// The codes from D-011 to D-020.
pub open spec fn measures() -> Seq<DefectCodeView> {
    seq![
        entry("D-011"@, "Dimension Too Large"@, "A measured dimension lies above the upper tolerance limit."@),
        entry("D-012"@, "Dimension Too Small"@, "A measured dimension lies below the lower tolerance limit."@),
        entry("D-013"@, "Hole Position Error"@, "Hole, slot or cut-out is located outside its position tolerance."@),
        entry("D-014"@, "Thread Defect"@, "Thread is stripped, incomplete, cross-threaded or fails the gauge."@),
        entry("D-015"@, "Flatness Error"@, "Surface that should be flat is outside the flatness tolerance."@),
        entry("D-016"@, "Concentricity Error"@, "Axes of features that should share one center are offset."@),
        entry("D-017"@, "Missing Feature"@, "Machined, molded or punched feature required by the drawing is absent."@),
        entry("D-018"@, "Wrong Material"@, "Part is made of another material or grade than specified."@),
        entry("D-019"@, "Material Hardness"@, "Hardness measured on the part is outside the specified range."@),
        entry("D-020"@, "Inclusion"@, "Foreign particle or slag embedded in the base material."@),
    ]
}

fn measures_codes() -> (r: Vec<DefectCode>)
    ensures
        views(r@) == measures(),
{
    let mut codes: Vec<DefectCode> = Vec::new();
    codes.push(code("D-011", "Dimension Too Large", "A measured dimension lies above the upper tolerance limit."));
    codes.push(code("D-012", "Dimension Too Small", "A measured dimension lies below the lower tolerance limit."));
    codes.push(code("D-013", "Hole Position Error", "Hole, slot or cut-out is located outside its position tolerance."));
    codes.push(code("D-014", "Thread Defect", "Thread is stripped, incomplete, cross-threaded or fails the gauge."));
    codes.push(code("D-015", "Flatness Error", "Surface that should be flat is outside the flatness tolerance."));
    codes.push(code("D-016", "Concentricity Error", "Axes of features that should share one center are offset."));
    codes.push(code("D-017", "Missing Feature", "Machined, molded or punched feature required by the drawing is absent."));
    codes.push(code("D-018", "Wrong Material", "Part is made of another material or grade than specified."));
    codes.push(code("D-019", "Material Hardness", "Hardness measured on the part is outside the specified range."));
    codes.push(code("D-020", "Inclusion", "Foreign particle or slag embedded in the base material."));
    assert(views(codes@) =~= measures());
    codes
}

#[verifier::spinoff_prover]
proof fn lemma_measures()
    ensures
        measures().len() == 10,
        in_place(measures(), 11),
{
    reveal_strlit("D-011");
    reveal_strlit("Dimension Too Large");
    reveal_strlit("A measured dimension lies above the upper tolerance limit.");
    assert("D-011"@ =~= code_id(11));
    lemma_starts_dark("Dimension Too Large"@);
    lemma_starts_dark("A measured dimension lies above the upper tolerance limit."@);
    reveal_strlit("D-012");
    reveal_strlit("Dimension Too Small");
    reveal_strlit("A measured dimension lies below the lower tolerance limit.");
    assert("D-012"@ =~= code_id(12));
    lemma_starts_dark("Dimension Too Small"@);
    lemma_starts_dark("A measured dimension lies below the lower tolerance limit."@);
    reveal_strlit("D-013");
    reveal_strlit("Hole Position Error");
    reveal_strlit("Hole, slot or cut-out is located outside its position tolerance.");
    assert("D-013"@ =~= code_id(13));
    lemma_starts_dark("Hole Position Error"@);
    lemma_starts_dark("Hole, slot or cut-out is located outside its position tolerance."@);
    reveal_strlit("D-014");
    reveal_strlit("Thread Defect");
    reveal_strlit("Thread is stripped, incomplete, cross-threaded or fails the gauge.");
    assert("D-014"@ =~= code_id(14));
    lemma_starts_dark("Thread Defect"@);
    lemma_starts_dark("Thread is stripped, incomplete, cross-threaded or fails the gauge."@);
    reveal_strlit("D-015");
    reveal_strlit("Flatness Error");
    reveal_strlit("Surface that should be flat is outside the flatness tolerance.");
    assert("D-015"@ =~= code_id(15));
    lemma_starts_dark("Flatness Error"@);
    lemma_starts_dark("Surface that should be flat is outside the flatness tolerance."@);
    reveal_strlit("D-016");
    reveal_strlit("Concentricity Error");
    reveal_strlit("Axes of features that should share one center are offset.");
    assert("D-016"@ =~= code_id(16));
    lemma_starts_dark("Concentricity Error"@);
    lemma_starts_dark("Axes of features that should share one center are offset."@);
    reveal_strlit("D-017");
    reveal_strlit("Missing Feature");
    reveal_strlit("Machined, molded or punched feature required by the drawing is absent.");
    assert("D-017"@ =~= code_id(17));
    lemma_starts_dark("Missing Feature"@);
    lemma_starts_dark("Machined, molded or punched feature required by the drawing is absent."@);
    reveal_strlit("D-018");
    reveal_strlit("Wrong Material");
    reveal_strlit("Part is made of another material or grade than specified.");
    assert("D-018"@ =~= code_id(18));
    lemma_starts_dark("Wrong Material"@);
    lemma_starts_dark("Part is made of another material or grade than specified."@);
    reveal_strlit("D-019");
    reveal_strlit("Material Hardness");
    reveal_strlit("Hardness measured on the part is outside the specified range.");
    assert("D-019"@ =~= code_id(19));
    lemma_starts_dark("Material Hardness"@);
    lemma_starts_dark("Hardness measured on the part is outside the specified range."@);
    reveal_strlit("D-020");
    reveal_strlit("Inclusion");
    reveal_strlit("Foreign particle or slag embedded in the base material.");
    assert("D-020"@ =~= code_id(20));
    lemma_starts_dark("Inclusion"@);
    lemma_starts_dark("Foreign particle or slag embedded in the base material."@);
}

/// The codes from D-021 to D-030.
pub open spec fn joints() -> Seq<DefectCodeView> {
    seq![
        entry("D-021"@, "Delamination"@, "Layers of a laminate, composite or board have separated."@),
        entry("D-022"@, "Weld Undercut"@, "Groove melted into the base metal beside the weld and left unfilled."@),
        entry("D-023"@, "Weld Spatter"@, "Droplets of weld metal stuck to the part outside the weld."@),
        entry("D-024"@, "Incomplete Weld"@, "Weld is missing, too short or lacks fusion or penetration."@),
        entry("D-025"@, "Cold Solder Joint"@, "Solder joint is dull, cracked or has not wetted the surfaces."@),
        entry("D-026"@, "Solder Bridge"@, "Solder connects pads or pins that must be separate."@),
        entry("D-027"@, "Missing Component"@, "A component on the bill of materials has not been fitted."@),
        entry("D-028"@, "Wrong Component"@, "A component other than the specified one has been fitted."@),
        entry("D-029"@, "Reversed Component"@, "A component is fitted with the wrong polarity or orientation."@),
        entry("D-030"@, "Loose Fastener"@, "Screw, bolt, nut or clip is not tightened to the specified torque."@),
    ]
}

fn joints_codes() -> (r: Vec<DefectCode>)
    ensures
        views(r@) == joints(),
{
    let mut codes: Vec<DefectCode> = Vec::new();
    codes.push(code("D-021", "Delamination", "Layers of a laminate, composite or board have separated."));
    codes.push(code("D-022", "Weld Undercut", "Groove melted into the base metal beside the weld and left unfilled."));
    codes.push(code("D-023", "Weld Spatter", "Droplets of weld metal stuck to the part outside the weld."));
    codes.push(code("D-024", "Incomplete Weld", "Weld is missing, too short or lacks fusion or penetration."));
    codes.push(code("D-025", "Cold Solder Joint", "Solder joint is dull, cracked or has not wetted the surfaces."));
    codes.push(code("D-026", "Solder Bridge", "Solder connects pads or pins that must be separate."));
    codes.push(code("D-027", "Missing Component", "A component on the bill of materials has not been fitted."));
    codes.push(code("D-028", "Wrong Component", "A component other than the specified one has been fitted."));
    codes.push(code("D-029", "Reversed Component", "A component is fitted with the wrong polarity or orientation."));
    codes.push(code("D-030", "Loose Fastener", "Screw, bolt, nut or clip is not tightened to the specified torque."));
    assert(views(codes@) =~= joints());
    codes
}

#[verifier::spinoff_prover]
proof fn lemma_joints()
    ensures
        joints().len() == 10,
        in_place(joints(), 21),
{
    reveal_strlit("D-021");
    reveal_strlit("Delamination");
    reveal_strlit("Layers of a laminate, composite or board have separated.");
    assert("D-021"@ =~= code_id(21));
    lemma_starts_dark("Delamination"@);
    lemma_starts_dark("Layers of a laminate, composite or board have separated."@);
    reveal_strlit("D-022");
    reveal_strlit("Weld Undercut");
    reveal_strlit("Groove melted into the base metal beside the weld and left unfilled.");
    assert("D-022"@ =~= code_id(22));
    lemma_starts_dark("Weld Undercut"@);
    lemma_starts_dark("Groove melted into the base metal beside the weld and left unfilled."@);
    reveal_strlit("D-023");
    reveal_strlit("Weld Spatter");
    reveal_strlit("Droplets of weld metal stuck to the part outside the weld.");
    assert("D-023"@ =~= code_id(23));
    lemma_starts_dark("Weld Spatter"@);
    lemma_starts_dark("Droplets of weld metal stuck to the part outside the weld."@);
    reveal_strlit("D-024");
    reveal_strlit("Incomplete Weld");
    reveal_strlit("Weld is missing, too short or lacks fusion or penetration.");
    assert("D-024"@ =~= code_id(24));
    lemma_starts_dark("Incomplete Weld"@);
    lemma_starts_dark("Weld is missing, too short or lacks fusion or penetration."@);
    reveal_strlit("D-025");
    reveal_strlit("Cold Solder Joint");
    reveal_strlit("Solder joint is dull, cracked or has not wetted the surfaces.");
    assert("D-025"@ =~= code_id(25));
    lemma_starts_dark("Cold Solder Joint"@);
    lemma_starts_dark("Solder joint is dull, cracked or has not wetted the surfaces."@);
    reveal_strlit("D-026");
    reveal_strlit("Solder Bridge");
    reveal_strlit("Solder connects pads or pins that must be separate.");
    assert("D-026"@ =~= code_id(26));
    lemma_starts_dark("Solder Bridge"@);
    lemma_starts_dark("Solder connects pads or pins that must be separate."@);
    reveal_strlit("D-027");
    reveal_strlit("Missing Component");
    reveal_strlit("A component on the bill of materials has not been fitted.");
    assert("D-027"@ =~= code_id(27));
    lemma_starts_dark("Missing Component"@);
    lemma_starts_dark("A component on the bill of materials has not been fitted."@);
    reveal_strlit("D-028");
    reveal_strlit("Wrong Component");
    reveal_strlit("A component other than the specified one has been fitted.");
    assert("D-028"@ =~= code_id(28));
    lemma_starts_dark("Wrong Component"@);
    lemma_starts_dark("A component other than the specified one has been fitted."@);
    reveal_strlit("D-029");
    reveal_strlit("Reversed Component");
    reveal_strlit("A component is fitted with the wrong polarity or orientation.");
    assert("D-029"@ =~= code_id(29));
    lemma_starts_dark("Reversed Component"@);
    lemma_starts_dark("A component is fitted with the wrong polarity or orientation."@);
    reveal_strlit("D-030");
    reveal_strlit("Loose Fastener");
    reveal_strlit("Screw, bolt, nut or clip is not tightened to the specified torque.");
    assert("D-030"@ =~= code_id(30));
    lemma_starts_dark("Loose Fastener"@);
    lemma_starts_dark("Screw, bolt, nut or clip is not tightened to the specified torque."@);
}

/// The codes from D-031 to D-040.
pub open spec fn assemblies() -> Seq<DefectCodeView> {
    seq![
        entry("D-031"@, "Missing Fastener"@, "Screw, bolt, nut, rivet or clip has been left out."@),
        entry("D-032"@, "Over-Torqued Fastener"@, "Fastener was tightened beyond its limit and is damaged or stretched."@),
        entry("D-033"@, "Misalignment"@, "Assembled parts are offset or at an angle to one another."@),
        entry("D-034"@, "Excessive Gap"@, "Gap between mating parts is wider than allowed."@),
        entry("D-035"@, "Interference Fit Failure"@, "Parts that should slide or press together collide or cannot be joined."@),
        entry("D-036"@, "Paint Run"@, "Coating has sagged, dripped or pooled before it cured."@),
        entry("D-037"@, "Paint Peeling"@, "Coating flakes, blisters or has come away from the surface."@),
        entry("D-038"@, "Coating Thickness"@, "Thickness of paint, plating or other coating is out of range."@),
        entry("D-039"@, "Label Missing"@, "Required label, marking or nameplate is not on the product."@),
        entry("D-040"@, "Label Incorrect"@, "Label shows wrong, unreadable or outdated information."@),
    ]
}

fn assemblies_codes() -> (r: Vec<DefectCode>)
    ensures
        views(r@) == assemblies(),
{
    let mut codes: Vec<DefectCode> = Vec::new();
    codes.push(code("D-031", "Missing Fastener", "Screw, bolt, nut, rivet or clip has been left out."));
    codes.push(code("D-032", "Over-Torqued Fastener", "Fastener was tightened beyond its limit and is damaged or stretched."));
    codes.push(code("D-033", "Misalignment", "Assembled parts are offset or at an angle to one another."));
    codes.push(code("D-034", "Excessive Gap", "Gap between mating parts is wider than allowed."));
    codes.push(code("D-035", "Interference Fit Failure", "Parts that should slide or press together collide or cannot be joined."));
    codes.push(code("D-036", "Paint Run", "Coating has sagged, dripped or pooled before it cured."));
    codes.push(code("D-037", "Paint Peeling", "Coating flakes, blisters or has come away from the surface."));
    codes.push(code("D-038", "Coating Thickness", "Thickness of paint, plating or other coating is out of range."));
    codes.push(code("D-039", "Label Missing", "Required label, marking or nameplate is not on the product."));
    codes.push(code("D-040", "Label Incorrect", "Label shows wrong, unreadable or outdated information."));
    assert(views(codes@) =~= assemblies());
    codes
}

#[verifier::spinoff_prover]
proof fn lemma_assemblies()
    ensures
        assemblies().len() == 10,
        in_place(assemblies(), 31),
{
    reveal_strlit("D-031");
    reveal_strlit("Missing Fastener");
    reveal_strlit("Screw, bolt, nut, rivet or clip has been left out.");
    assert("D-031"@ =~= code_id(31));
    lemma_starts_dark("Missing Fastener"@);
    lemma_starts_dark("Screw, bolt, nut, rivet or clip has been left out."@);
    reveal_strlit("D-032");
    reveal_strlit("Over-Torqued Fastener");
    reveal_strlit("Fastener was tightened beyond its limit and is damaged or stretched.");
    assert("D-032"@ =~= code_id(32));
    lemma_starts_dark("Over-Torqued Fastener"@);
    lemma_starts_dark("Fastener was tightened beyond its limit and is damaged or stretched."@);
    reveal_strlit("D-033");
    reveal_strlit("Misalignment");
    reveal_strlit("Assembled parts are offset or at an angle to one another.");
    assert("D-033"@ =~= code_id(33));
    lemma_starts_dark("Misalignment"@);
    lemma_starts_dark("Assembled parts are offset or at an angle to one another."@);
    reveal_strlit("D-034");
    reveal_strlit("Excessive Gap");
    reveal_strlit("Gap between mating parts is wider than allowed.");
    assert("D-034"@ =~= code_id(34));
    lemma_starts_dark("Excessive Gap"@);
    lemma_starts_dark("Gap between mating parts is wider than allowed."@);
    reveal_strlit("D-035");
    reveal_strlit("Interference Fit Failure");
    reveal_strlit("Parts that should slide or press together collide or cannot be joined.");
    assert("D-035"@ =~= code_id(35));
    lemma_starts_dark("Interference Fit Failure"@);
    lemma_starts_dark("Parts that should slide or press together collide or cannot be joined."@);
    reveal_strlit("D-036");
    reveal_strlit("Paint Run");
    reveal_strlit("Coating has sagged, dripped or pooled before it cured.");
    assert("D-036"@ =~= code_id(36));
    lemma_starts_dark("Paint Run"@);
    lemma_starts_dark("Coating has sagged, dripped or pooled before it cured."@);
    reveal_strlit("D-037");
    reveal_strlit("Paint Peeling");
    reveal_strlit("Coating flakes, blisters or has come away from the surface.");
    assert("D-037"@ =~= code_id(37));
    lemma_starts_dark("Paint Peeling"@);
    lemma_starts_dark("Coating flakes, blisters or has come away from the surface."@);
    reveal_strlit("D-038");
    reveal_strlit("Coating Thickness");
    reveal_strlit("Thickness of paint, plating or other coating is out of range.");
    assert("D-038"@ =~= code_id(38));
    lemma_starts_dark("Coating Thickness"@);
    lemma_starts_dark("Thickness of paint, plating or other coating is out of range."@);
    reveal_strlit("D-039");
    reveal_strlit("Label Missing");
    reveal_strlit("Required label, marking or nameplate is not on the product.");
    assert("D-039"@ =~= code_id(39));
    lemma_starts_dark("Label Missing"@);
    lemma_starts_dark("Required label, marking or nameplate is not on the product."@);
    reveal_strlit("D-040");
    reveal_strlit("Label Incorrect");
    reveal_strlit("Label shows wrong, unreadable or outdated information.");
    assert("D-040"@ =~= code_id(40));
    lemma_starts_dark("Label Incorrect"@);
    lemma_starts_dark("Label shows wrong, unreadable or outdated information."@);
}

/// The codes from D-041 to D-050.
pub open spec fn records() -> Seq<DefectCodeView> {
    seq![
        entry("D-041"@, "Wrong Serial Number"@, "Serial or batch number is missing, doubled or does not match the record."@),
        entry("D-042"@, "Electrical Short"@, "Unintended connection between electrical circuits or to ground."@),
        entry("D-043"@, "Open Circuit"@, "Electrical path is interrupted by a broken wire, track or contact."@),
        entry("D-044"@, "Insulation Damage"@, "Cable or component insulation is cut, burnt or worn through."@),
        entry("D-045"@, "Leakage"@, "Liquid or gas escapes through a seal, joint or wall."@),
        entry("D-046"@, "Functional Test Failure"@, "Product does not perform as required in the functional test."@),
        entry("D-047"@, "Packaging Damage"@, "Box, tray or wrapping is crushed, torn or wet."@),
        entry("D-048"@, "Wrong Quantity"@, "Number of parts in the lot or package differs from the order."@),
        entry("D-049"@, "Documentation Missing"@, "Certificate, inspection record or instruction is absent."@),
        entry("D-050"@, "Process Not Followed"@, "Required operation or inspection was skipped or done out of order."@),
    ]
}

fn records_codes() -> (r: Vec<DefectCode>)
    ensures
        views(r@) == records(),
{
    let mut codes: Vec<DefectCode> = Vec::new();
    codes.push(code("D-041", "Wrong Serial Number", "Serial or batch number is missing, doubled or does not match the record."));
    codes.push(code("D-042", "Electrical Short", "Unintended connection between electrical circuits or to ground."));
    codes.push(code("D-043", "Open Circuit", "Electrical path is interrupted by a broken wire, track or contact."));
    codes.push(code("D-044", "Insulation Damage", "Cable or component insulation is cut, burnt or worn through."));
    codes.push(code("D-045", "Leakage", "Liquid or gas escapes through a seal, joint or wall."));
    codes.push(code("D-046", "Functional Test Failure", "Product does not perform as required in the functional test."));
    codes.push(code("D-047", "Packaging Damage", "Box, tray or wrapping is crushed, torn or wet."));
    codes.push(code("D-048", "Wrong Quantity", "Number of parts in the lot or package differs from the order."));
    codes.push(code("D-049", "Documentation Missing", "Certificate, inspection record or instruction is absent."));
    codes.push(code("D-050", "Process Not Followed", "Required operation or inspection was skipped or done out of order."));
    assert(views(codes@) =~= records());
    codes
}

#[verifier::spinoff_prover]
proof fn lemma_records()
    ensures
        records().len() == 10,
        in_place(records(), 41),
{
    reveal_strlit("D-041");
    reveal_strlit("Wrong Serial Number");
    reveal_strlit("Serial or batch number is missing, doubled or does not match the record.");
    assert("D-041"@ =~= code_id(41));
    lemma_starts_dark("Wrong Serial Number"@);
    lemma_starts_dark("Serial or batch number is missing, doubled or does not match the record."@);
    reveal_strlit("D-042");
    reveal_strlit("Electrical Short");
    reveal_strlit("Unintended connection between electrical circuits or to ground.");
    assert("D-042"@ =~= code_id(42));
    lemma_starts_dark("Electrical Short"@);
    lemma_starts_dark("Unintended connection between electrical circuits or to ground."@);
    reveal_strlit("D-043");
    reveal_strlit("Open Circuit");
    reveal_strlit("Electrical path is interrupted by a broken wire, track or contact.");
    assert("D-043"@ =~= code_id(43));
    lemma_starts_dark("Open Circuit"@);
    lemma_starts_dark("Electrical path is interrupted by a broken wire, track or contact."@);
    reveal_strlit("D-044");
    reveal_strlit("Insulation Damage");
    reveal_strlit("Cable or component insulation is cut, burnt or worn through.");
    assert("D-044"@ =~= code_id(44));
    lemma_starts_dark("Insulation Damage"@);
    lemma_starts_dark("Cable or component insulation is cut, burnt or worn through."@);
    reveal_strlit("D-045");
    reveal_strlit("Leakage");
    reveal_strlit("Liquid or gas escapes through a seal, joint or wall.");
    assert("D-045"@ =~= code_id(45));
    lemma_starts_dark("Leakage"@);
    lemma_starts_dark("Liquid or gas escapes through a seal, joint or wall."@);
    reveal_strlit("D-046");
    reveal_strlit("Functional Test Failure");
    reveal_strlit("Product does not perform as required in the functional test.");
    assert("D-046"@ =~= code_id(46));
    lemma_starts_dark("Functional Test Failure"@);
    lemma_starts_dark("Product does not perform as required in the functional test."@);
    reveal_strlit("D-047");
    reveal_strlit("Packaging Damage");
    reveal_strlit("Box, tray or wrapping is crushed, torn or wet.");
    assert("D-047"@ =~= code_id(47));
    lemma_starts_dark("Packaging Damage"@);
    lemma_starts_dark("Box, tray or wrapping is crushed, torn or wet."@);
    reveal_strlit("D-048");
    reveal_strlit("Wrong Quantity");
    reveal_strlit("Number of parts in the lot or package differs from the order.");
    assert("D-048"@ =~= code_id(48));
    lemma_starts_dark("Wrong Quantity"@);
    lemma_starts_dark("Number of parts in the lot or package differs from the order."@);
    reveal_strlit("D-049");
    reveal_strlit("Documentation Missing");
    reveal_strlit("Certificate, inspection record or instruction is absent.");
    assert("D-049"@ =~= code_id(49));
    lemma_starts_dark("Documentation Missing"@);
    lemma_starts_dark("Certificate, inspection record or instruction is absent."@);
    reveal_strlit("D-050");
    reveal_strlit("Process Not Followed");
    reveal_strlit("Required operation or inspection was skipped or done out of order.");
    assert("D-050"@ =~= code_id(50));
    lemma_starts_dark("Process Not Followed"@);
    lemma_starts_dark("Required operation or inspection was skipped or done out of order."@);
}

/// The whole sample catalog.
pub open spec fn catalog() -> Seq<DefectCodeView> {
    surfaces() + measures() + joints() + assemblies() + records()
}

/// The sample catalog has fifty codes, `D-001` to `D-050` in order, each with a title
/// and a description.
pub proof fn law_catalog_in_order()
    ensures
        catalog().len() == 50,
        in_place(catalog(), 1),
{
    lemma_surfaces();
    lemma_measures();
    lemma_joints();
    lemma_assemblies();
    lemma_records();
    assert forall|i: int| 0 <= i < 50 implies (#[trigger] catalog()[i]).id == code_id(
        (1 + i) as nat,
    ) && !is_blank(catalog()[i].title) && !is_blank(catalog()[i].description) by {
        if i < 10 {
            assert(catalog()[i] == surfaces()[i]);
        } else if i < 20 {
            assert(catalog()[i] == measures()[i - 10]);
        } else if i < 30 {
            assert(catalog()[i] == joints()[i - 20]);
        } else if i < 40 {
            assert(catalog()[i] == assemblies()[i - 30]);
        } else {
            assert(catalog()[i] == records()[i - 40]);
        }
    }
}

/// No two of the first 999 numbers have one id, and no id is blank.
pub proof fn lemma_code_ids(a: nat, b: nat)
    requires
        a < 1000,
        b < 1000,
    ensures
        code_id(a) == code_id(b) ==> a == b,
        !is_blank(code_id(a)),
{
    lemma_starts_dark(code_id(a));
    if code_id(a) == code_id(b) {
        assert(code_id(a)[2] == code_id(b)[2]);
        assert(code_id(a)[3] == code_id(b)[3]);
        assert(code_id(a)[4] == code_id(b)[4]);
        lemma_digit(a / 100 % 10, b / 100 % 10);
        lemma_digit(a / 10 % 10, b / 10 % 10);
        lemma_digit(a % 10, b % 10);
    }
}

proof fn lemma_digit(a: nat, b: nat)
    requires
        a < 10,
        b < 10,
        digit(a) == digit(b),
    ensures
        a == b,
{
}

fn append(codes: &mut Vec<DefectCode>, more: Vec<DefectCode>)
    ensures
        views(final(codes)@) == views(old(codes)@) + views(more@),
{
    let ghost before = codes@;
    let ghost added = more@;
    let mut rest = more;
    codes.append(&mut rest);
    assert(views(codes@) =~= views(before) + views(added));
}

/// The defect codes of the sample catalog, stand-ins for those of a plant.
pub fn defect_codes() -> (r: Vec<DefectCode>)
    ensures
        views(r@) == catalog(),
{
    let mut codes = surfaces_codes();
    append(&mut codes, measures_codes());
    append(&mut codes, joints_codes());
    append(&mut codes, assemblies_codes());
    append(&mut codes, records_codes());
    codes
}

/// The id of a number up to 999 is `D-` and the number in three digits.
pub proof fn law_ids_are_numbers(n: nat)
    requires
        n <= 999,
    ensures
        code_id(n).len() == 5,
        code_id(n)[0] == 'D',
        code_id(n)[1] == '-',
        forall|i: int| 2 <= i < 5 ==> '0' <= #[trigger] code_id(n)[i] <= '9',
        digits_value(code_id(n).skip(2)) == n,
{
    let (a, b, c) = (digit(n / 100 % 10), digit(n / 10 % 10), digit(n % 10));
    let none = Seq::<char>::empty();
    law_digits_are_decimal(none, a);
    law_digits_are_decimal(none.push(a), b);
    law_digits_are_decimal(none.push(a).push(b), c);
    assert(code_id(n).skip(2) =~= none.push(a).push(b).push(c));
}

/// What codes say is what each of them says, in their order.
pub proof fn law_codes_say(codes: Seq<DefectCode>)
    ensures
        views(codes).len() == codes.len(),
        forall|i: int|
            0 <= i < codes.len() ==> (#[trigger] views(codes)[i]).id == codes[i].id@
                && views(codes)[i].title == codes[i].title@ && views(codes)[i].description
                == codes[i].description@,
{
}

/// A code has the id, the title and the description that it is given.
pub proof fn law_entries(id: Seq<char>, title: Seq<char>, description: Seq<char>)
    ensures
        entry(id, title, description).id == id,
        entry(id, title, description).title == title,
        entry(id, title, description).description == description,
{
}

} // verus!
