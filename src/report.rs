//! The text of the classification report: the assertions, each property with
//! the size of its color set, and each class with its size.
use vstd::prelude::*;
use vstd::string::StringExecFns;

verus! {

/// The text of each string.
pub open spec fn strings_view(s: Seq<String>) -> Seq<Seq<char>> {
    s.map_values(|x: String| x@)
}

/// The text of each pair of strings.
pub open spec fn pairs_view(s: Seq<(String, String)>) -> Seq<(Seq<char>, Seq<char>)> {
    s.map_values(|x: (String, String)| (x.0@, x.1@))
}

pub open spec fn assertion_lines(assertions: Seq<String>) -> Seq<char>
    decreases assertions.len(),
{
    if assertions.len() == 0 {
        Seq::empty()
    } else {
        assertion_lines(assertions.drop_last()) + "# "@ + assertions.last()@ + "\n"@
    }
}

/// The first section: the assertions, then how many colors satisfy them all.
pub open spec fn assertion_section(assertions: Seq<String>, cardinality: Seq<char>) -> Seq<char> {
    "### Assertion formulae\n\n"@ + assertion_lines(assertions) + cardinality
        + " colors satisfy all assertions\n\n"@
}

pub open spec fn property_lines(
    properties: Seq<(String, String)>,
    cardinalities: Seq<Seq<char>>,
) -> Seq<char>
    decreases properties.len(),
{
    if properties.len() == 0 {
        Seq::empty()
    } else {
        let k = properties.len() - 1;
        property_lines(properties.drop_last(), cardinalities) + "# "@ + properties[k].0@ + "  |  "@
            + properties[k].1@ + "\n"@ + cardinalities[k] + " colors satisfy this property\n\n"@
    }
}

/// The second section: each property's name and formula, and how many
/// colors satisfy it.
pub open spec fn property_section(
    properties: Seq<(String, String)>,
    cardinalities: Seq<Seq<char>>,
) -> Seq<char> {
    "### Property formulae individually\n\n"@ + property_lines(properties, cardinalities)
}

pub open spec fn class_lines(classes: Seq<(Seq<char>, Seq<char>)>) -> Seq<char>
    decreases classes.len(),
{
    if classes.len() == 0 {
        Seq::empty()
    } else {
        class_lines(classes.drop_last()) + "# "@ + classes.last().0 + "\n"@ + classes.last().1
            + " colors in this category\n\n"@
    }
}

/// The third section: each class label with the size of its color set.
pub open spec fn class_section(classes: Seq<(Seq<char>, Seq<char>)>) -> Seq<char> {
    "### Classes\n\n"@ + class_lines(classes)
}

/// The whole report.
pub open spec fn report_text(
    assertions: Seq<String>,
    baseline_cardinality: Seq<char>,
    properties: Seq<(String, String)>,
    property_cardinalities: Seq<Seq<char>>,
    classes: Seq<(Seq<char>, Seq<char>)>,
) -> Seq<char> {
    assertion_section(assertions, baseline_cardinality) + property_section(
        properties,
        property_cardinalities,
    ) + class_section(classes)
}

fn append_assertion_section(report: &mut String, assertion_formulae: &[String], cardinality: &str)
    ensures
        final(report)@ == old(report)@ + assertion_section(assertion_formulae@, cardinality@),
{
    let ghost start = report@;
    report.append("### Assertion formulae\n\n");
    let mut i: usize = 0;
    while i < assertion_formulae.len()
        invariant
            i <= assertion_formulae@.len(),
            report@ == start + "### Assertion formulae\n\n"@ + assertion_lines(
                assertion_formulae@.subrange(0, i as int),
            ),
        decreases assertion_formulae@.len() - i,
    {
        report.append("# ");
        report.append(assertion_formulae[i].as_str());
        report.append("\n");
        assert(assertion_formulae@.subrange(0, i + 1).drop_last() =~= assertion_formulae@.subrange(
            0,
            i as int,
        ));
        i = i + 1;
    }
    assert(assertion_formulae@.subrange(0, i as int) =~= assertion_formulae@);
    report.append(cardinality);
    report.append(" colors satisfy all assertions\n\n");
    assert(report@ =~= start + assertion_section(assertion_formulae@, cardinality@));
}

/// The report written when no color satisfies the assertions: the first
/// section alone, with a cardinality of `0`.
pub fn empty_report(assertion_formulae: &[String]) -> (r: String)
    ensures
        r@ == assertion_section(assertion_formulae@, "0"@),
{
    let mut report = String::new();
    append_assertion_section(&mut report, assertion_formulae, "0");
    report
}

/// The full report, from the cardinality texts of the baseline, of each
/// property and of each class (label, cardinality).
pub fn build_report(
    assertion_formulae: &[String],
    baseline_cardinality: &str,
    named_property_formulae: &[(String, String)],
    property_cardinalities: &[String],
    classes: &[(String, String)],
) -> (r: String)
    requires
        property_cardinalities@.len() == named_property_formulae@.len(),
    ensures
        r@ == report_text(
            assertion_formulae@,
            baseline_cardinality@,
            named_property_formulae@,
            strings_view(property_cardinalities@),
            pairs_view(classes@),
        ),
{
    let mut report = String::new();
    append_assertion_section(&mut report, assertion_formulae, baseline_cardinality);
    let ghost first = report@;
    report.append("### Property formulae individually\n\n");
    let mut i: usize = 0;
    while i < named_property_formulae.len()
        invariant
            i <= named_property_formulae@.len(),
            property_cardinalities@.len() == named_property_formulae@.len(),
            report@ == first + "### Property formulae individually\n\n"@ + property_lines(
                named_property_formulae@.subrange(0, i as int),
                strings_view(property_cardinalities@),
            ),
        decreases named_property_formulae@.len() - i,
    {
        let (name, property) = &named_property_formulae[i];
        report.append("# ");
        report.append(name.as_str());
        report.append("  |  ");
        report.append(property.as_str());
        report.append("\n");
        report.append(property_cardinalities[i].as_str());
        report.append(" colors satisfy this property\n\n");
        assert(named_property_formulae@.subrange(0, i + 1).drop_last()
            =~= named_property_formulae@.subrange(0, i as int));
        i = i + 1;
    }
    assert(named_property_formulae@.subrange(0, i as int) =~= named_property_formulae@);
    let ghost second = report@;
    report.append("### Classes\n\n");
    let mut k: usize = 0;
    while k < classes.len()
        invariant
            k <= classes@.len(),
            report@ == second + "### Classes\n\n"@ + class_lines(pairs_view(classes@.subrange(0, k as int))),
        decreases classes@.len() - k,
    {
        let (label, cardinality) = &classes[k];
        report.append("# ");
        report.append(label.as_str());
        report.append("\n");
        report.append(cardinality.as_str());
        report.append(" colors in this category\n\n");
        assert(pairs_view(classes@.subrange(0, k + 1)).drop_last() =~= pairs_view(
            classes@.subrange(0, k as int),
        ));
        k = k + 1;
    }
    assert(classes@.subrange(0, k as int) =~= classes@);
    assert(report@ =~= report_text(
        assertion_formulae@,
        baseline_cardinality@,
        named_property_formulae@,
        strings_view(property_cardinalities@),
        pairs_view(classes@),
    ));
    report
}

pub open spec fn digit_char(d: nat) -> char {
    if d == 0 {
        '0'
    } else if d == 1 {
        '1'
    } else if d == 2 {
        '2'
    } else if d == 3 {
        '3'
    } else if d == 4 {
        '4'
    } else if d == 5 {
        '5'
    } else if d == 6 {
        '6'
    } else if d == 7 {
        '7'
    } else if d == 8 {
        '8'
    } else {
        '9'
    }
}

/// The decimal digits of `n`, with no leading zeros.
pub open spec fn decimal(n: nat) -> Seq<char>
    decreases n,
{
    if n < 10 {
        seq![digit_char(n)]
    } else {
        decimal(n / 10).push(digit_char(n % 10))
    }
}

fn digit_text(d: usize) -> (r: &'static str)
    requires
        d < 10,
    ensures
        r@ == seq![digit_char(d as nat)],
{
    proof {
        reveal_strlit("0");
        reveal_strlit("1");
        reveal_strlit("2");
        reveal_strlit("3");
        reveal_strlit("4");
        reveal_strlit("5");
        reveal_strlit("6");
        reveal_strlit("7");
        reveal_strlit("8");
        reveal_strlit("9");
    }
    match d {
        0 => "0",
        1 => "1",
        2 => "2",
        3 => "3",
        4 => "4",
        5 => "5",
        6 => "6",
        7 => "7",
        8 => "8",
        _ => "9",
    }
}

/// `n` in decimal.
pub fn decimal_text(n: usize) -> (r: String)
    ensures
        r@ == decimal(n as nat),
    decreases n,
{
    if n < 10 {
        let mut text = String::new();
        text.append(digit_text(n));
        text
    } else {
        let mut text = decimal_text(n / 10);
        text.append(digit_text(n % 10));
        text
    }
}

/// The metadata entry: the number of symbolic formula variables, on a line.
pub fn metadata_text(num_hctl_vars: usize) -> (r: String)
    ensures
        r@ == decimal(num_hctl_vars as nat) + "\n"@,
{
    let mut text = decimal_text(num_hctl_vars);
    text.append("\n");
    text
}

} // verus!
