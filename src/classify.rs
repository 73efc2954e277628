//! Classification of the baseline colors by every truth pattern over the
//! properties, with the report and the serialized classes that the archive
//! holds.
use biodivine_lib_param_bn::symbolic_async_graph::GraphColors;
use vstd::arithmetic::power2::{lemma2_to64, lemma_pow2_strictly_increases, lemma_pow2_unfold, pow2};
use vstd::prelude::*;
use vstd::string::StringExecFns;

use crate::codec::{bool_vec_to_string, int_to_bool_vec, label_of, msb_bits};
use crate::colors::{
    active_count_of, cardinality_text, cardinality_text_of, colors_of, dump_text, dump_text_of, is_empty, var_count,
    var_count_of,
};
use crate::partition::{class_colors, class_of_index, colors_seq, same_context};
use crate::report::{build_report, pairs_view, report_text, strings_view};

verus! {

/// The largest number of properties whose combinations are enumerated.
pub const MAX_PROPERTIES: usize = 30;

/// Why a classification was refused before any work.
#[derive(Debug, Clone, Copy, PartialEq, Eq, Structural)]
pub enum ClassifyError {
    /// The property names and the property results differ in number.
    LengthMismatch,
    /// More than `MAX_PROPERTIES` properties.
    TooManyProperties,
    /// A property result belongs to a symbolic context with another number
    /// of variables than the baseline.
    ContextMismatch,
}

/// A named entry of the result archive.
pub struct ArchiveEntry {
    pub name: String,
    pub content: String,
}

/// One class of the classification.
pub struct ClassRecord {
    /// The truth pattern of the class, one entry per property.
    pub validity: Vec<bool>,
    /// The `0`/`1` label of `validity`.
    pub label: String,
    /// The approximate size of the class, printed with no decimals.
    pub cardinality: String,
    /// The serialized class, present exactly when the class is not empty.
    pub dump: Option<ArchiveEntry>,
    /// The color set of the class.
    pub colors: Ghost<GraphColors>,
}

/// All classes, in ascending order of their index, and the report.
pub struct Classification {
    pub classes: Vec<ClassRecord>,
    pub report: String,
}

/// The archive entry name of a class's serialized color set.
pub open spec fn dump_name(label: Seq<char>) -> Seq<char> {
    "bdd_dump_"@ + label + ".txt"@
}

/// `r` is the class of index `i` of `base` under the property sets `ps`.
pub open spec fn record_matches(r: ClassRecord, base: GraphColors, ps: Seq<GraphColors>, i: int) -> bool {
    &&& r.validity@ == msb_bits(i, ps.len())
    &&& r.label@ == label_of(r.validity@)
    &&& colors_of(r.colors@) == class_of_index(colors_of(base), colors_seq(ps), i)
    &&& var_count_of(r.colors@) == var_count_of(base)
    &&& active_count_of(r.colors@) == active_count_of(base)
    &&& r.cardinality@ == cardinality_text_of(r.colors@)
    &&& (r.dump is Some <==> colors_of(r.colors@) != Set::<Seq<bool>>::empty())
    &&& (r.cardinality@ != seq!['0'] ==> r.dump is Some)
    &&& (r.dump matches Some(e) ==> e.name@ == dump_name(r.label@) && e.content@ == dump_text_of(
        r.colors@,
    ))
}

/// The (label, cardinality) text of each class.
pub open spec fn class_rows(classes: Seq<ClassRecord>) -> Seq<(Seq<char>, Seq<char>)> {
    classes.map_values(|r: ClassRecord| (r.label@, r.cardinality@))
}

/// The cardinality text of each color set.
pub open spec fn cardinality_texts(ps: Seq<GraphColors>) -> Seq<Seq<char>> {
    ps.map_values(|c: GraphColors| cardinality_text_of(c))
}

/// `c` lists every class of `base` under `ps`, by ascending index, with the
/// report of the whole classification.
pub open spec fn classification_matches(
    c: Classification,
    assertions: Seq<String>,
    base: GraphColors,
    properties: Seq<(String, String)>,
    ps: Seq<GraphColors>,
) -> bool {
    &&& c.classes@.len() == pow2(ps.len())
    &&& forall|i: int|
        0 <= i < c.classes@.len() ==> record_matches(#[trigger] c.classes@[i], base, ps, i)
    &&& c.report@ == report_text(
        assertions,
        cardinality_text_of(base),
        properties,
        cardinality_texts(ps),
        class_rows(c.classes@),
    )
}

/// Two classifications of the same inputs give the same report text, list
/// the same labels in the same order, and hold serialized classes under the
/// same entry names.
pub proof fn lemma_classification_deterministic(
    c1: Classification,
    c2: Classification,
    assertions: Seq<String>,
    base: GraphColors,
    properties: Seq<(String, String)>,
    ps: Seq<GraphColors>,
)
    requires
        classification_matches(c1, assertions, base, properties, ps),
        classification_matches(c2, assertions, base, properties, ps),
    ensures
        c1.report@ == c2.report@,
        c1.classes@.len() == c2.classes@.len(),
        forall|i: int|
            0 <= i < c1.classes@.len() ==> {
                &&& (#[trigger] c1.classes@[i]).label@ == c2.classes@[i].label@
                &&& (c1.classes@[i].dump is Some <==> c2.classes@[i].dump is Some)
                &&& (c1.classes@[i].dump matches Some(e1) ==> c2.classes@[i].dump matches Some(e2)
                    && e1.name@ == e2.name@)
            },
{
    assert forall|i: int| 0 <= i < c1.classes@.len() implies {
        &&& (#[trigger] c1.classes@[i]).label@ == c2.classes@[i].label@
        &&& (c1.classes@[i].dump is Some <==> c2.classes@[i].dump is Some)
        &&& (c1.classes@[i].dump matches Some(e1) ==> c2.classes@[i].dump matches Some(e2)
            && e1.name@ == e2.name@)
        &&& class_rows(c1.classes@)[i] == class_rows(c2.classes@)[i]
    } by {
        assert(record_matches(c1.classes@[i], base, ps, i));
        assert(record_matches(c2.classes@[i], base, ps, i));
    }
    assert(class_rows(c1.classes@) =~= class_rows(c2.classes@));
}

/// The entry name for the serialized class with this label.
pub fn dump_entry_name(label: &str) -> (r: String)
    ensures
        r@ == dump_name(label@),
{
    let mut name = String::new();
    name.append("bdd_dump_");
    name.append(label);
    name.append(".txt");
    name
}

/// The class of combination `index` over `property_results`.
pub fn classify_combination(
    all_valid_colors: &GraphColors,
    property_results: &[GraphColors],
    index: i32,
) -> (r: ClassRecord)
    requires
        property_results@.len() <= MAX_PROPERTIES,
        0 <= index < pow2(property_results@.len()),
        same_context(*all_valid_colors, property_results@),
    ensures
        record_matches(r, *all_valid_colors, property_results@, index as int),
{
    let validity = int_to_bool_vec(index, property_results.len());
    let category_colors = class_colors(all_valid_colors, property_results, validity.as_slice());
    let label = bool_vec_to_string(validity.as_slice());
    let cardinality = cardinality_text(&category_colors);
    let dump = if is_empty(&category_colors) {
        None
    } else {
        let name = dump_entry_name(label.as_str());
        Some(ArchiveEntry { name, content: dump_text(&category_colors) })
    };
    ClassRecord { validity, label, cardinality, dump, colors: Ghost(category_colors) }
}

/// The number of combinations of `n` truth values.
fn combination_count(n: usize) -> (r: u32)
    requires
        n <= MAX_PROPERTIES,
    ensures
        r == pow2(n as nat),
        r <= pow2(MAX_PROPERTIES as nat),
{
    let mut count: u32 = 1;
    let mut k: usize = 0;
    proof {
        lemma2_to64();
    }
    while k < n
        invariant
            k <= n <= MAX_PROPERTIES,
            count == pow2(k as nat),
            pow2(MAX_PROPERTIES as nat) == 0x40000000,
        decreases n - k,
    {
        proof {
            lemma_pow2_unfold((k + 1) as nat);
            if k + 1 < MAX_PROPERTIES {
                lemma_pow2_strictly_increases((k + 1) as nat, MAX_PROPERTIES as nat);
            }
        }
        count = count * 2;
        k = k + 1;
    }
    proof {
        if n < MAX_PROPERTIES {
            lemma_pow2_strictly_increases(n as nat, MAX_PROPERTIES as nat);
        }
    }
    count
}

/// Classifies `all_valid_colors` by every combination of truth values of
/// the properties, in ascending order of the combination's index, and builds
/// the report.
pub fn classify(
    assertion_formulae: &[String],
    all_valid_colors: &GraphColors,
    named_property_formulae: &[(String, String)],
    property_results: &[GraphColors],
) -> (r: Result<Classification, ClassifyError>)
    ensures
        r == Err::<Classification, _>(ClassifyError::LengthMismatch) <==> named_property_formulae@.len()
            != property_results@.len(),
        r == Err::<Classification, _>(ClassifyError::TooManyProperties) <==> (
        named_property_formulae@.len() == property_results@.len() && property_results@.len()
            > MAX_PROPERTIES),
        r == Err::<Classification, _>(ClassifyError::ContextMismatch) <==> (
        named_property_formulae@.len() == property_results@.len() && property_results@.len()
            <= MAX_PROPERTIES && !same_context(*all_valid_colors, property_results@)),
        r matches Ok(c) ==> classification_matches(
            c,
            assertion_formulae@,
            *all_valid_colors,
            named_property_formulae@,
            property_results@,
        ),
{
    if named_property_formulae.len() != property_results.len() {
        return Err(ClassifyError::LengthMismatch);
    }
    if property_results.len() > MAX_PROPERTIES {
        return Err(ClassifyError::TooManyProperties);
    }
    let context = var_count(all_valid_colors);
    let mut j: usize = 0;
    while j < property_results.len()
        invariant
            j <= property_results@.len(),
            context == var_count_of(*all_valid_colors),
            named_property_formulae@.len() == property_results@.len(),
            property_results@.len() <= MAX_PROPERTIES,
            forall|k: int|
                0 <= k < j ==> #[trigger] var_count_of(property_results@[k]) == var_count_of(
                    *all_valid_colors,
                ),
        decreases property_results@.len() - j,
    {
        if var_count(&property_results[j]) != context {
            return Err(ClassifyError::ContextMismatch);
        }
        j = j + 1;
    }
    let mut property_cardinalities: Vec<String> = Vec::new();
    let mut j: usize = 0;
    while j < property_results.len()
        invariant
            j <= property_results@.len(),
            property_cardinalities@.len() == j,
            strings_view(property_cardinalities@) == cardinality_texts(property_results@).subrange(
                0,
                j as int,
            ),
        decreases property_results@.len() - j,
    {
        let text = cardinality_text(&property_results[j]);
        property_cardinalities.push(text);
        assert(property_cardinalities@[j as int]@ == cardinality_texts(property_results@)[j as int]);
        assert(strings_view(property_cardinalities@) =~= cardinality_texts(
            property_results@,
        ).subrange(0, j + 1));
        j = j + 1;
    }
    assert(cardinality_texts(property_results@).subrange(0, j as int) =~= cardinality_texts(
        property_results@,
    ));
    let number_of_combinations = combination_count(property_results.len());
    let mut classes: Vec<ClassRecord> = Vec::new();
    let mut rows: Vec<(String, String)> = Vec::new();
    let mut i: u32 = 0;
    proof {
        lemma2_to64();
    }
    while i < number_of_combinations
        invariant
            i <= number_of_combinations,
            number_of_combinations == pow2(property_results@.len()),
            number_of_combinations <= pow2(MAX_PROPERTIES as nat),
            pow2(MAX_PROPERTIES as nat) == 0x40000000,
            property_results@.len() <= MAX_PROPERTIES,
            same_context(*all_valid_colors, property_results@),
            classes@.len() == i,
            forall|k: int|
                0 <= k < i ==> record_matches(
                    #[trigger] classes@[k],
                    *all_valid_colors,
                    property_results@,
                    k,
                ),
            pairs_view(rows@) == class_rows(classes@),
        decreases number_of_combinations - i,
    {
        let record = classify_combination(all_valid_colors, property_results, i as i32);
        let ghost row = (record.label@, record.cardinality@);
        let ghost old_rows = rows@;
        let ghost old_classes = classes@;
        rows.push((record.label.clone(), record.cardinality.clone()));
        classes.push(record);
        assert(pairs_view(rows@) =~= pairs_view(old_rows).push(row));
        assert(class_rows(classes@) =~= class_rows(old_classes).push(row));
        i = i + 1;
    }
    let report = build_report(
        assertion_formulae,
        cardinality_text(all_valid_colors).as_str(),
        named_property_formulae,
        property_cardinalities.as_slice(),
        rows.as_slice(),
    );
    Ok(Classification { classes, report })
}

} // verus!
