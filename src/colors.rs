//! The symbolic color sets of `biodivine_lib_param_bn`, seen through the set
//! of BDD valuations that each one holds.
use biodivine_lib_param_bn::biodivine_std::traits::Set as SymbolicSet;
use biodivine_lib_param_bn::symbolic_async_graph::GraphColors;
use vstd::prelude::*;

verus! {

#[verifier::external_type_specification]
#[verifier::external_body]
pub struct ExGraphColors(GraphColors);

/// The valuations of the BDD variables that a color set holds.
pub uninterp spec fn colors_of(c: GraphColors) -> Set<Seq<bool>>;

/// The number of BDD variables of the symbolic context that a color set
/// belongs to.
pub uninterp spec fn var_count_of(c: GraphColors) -> nat;

/// The number of BDD variables that encode parameters (the active
/// variables of a color set).
pub uninterp spec fn active_count_of(c: GraphColors) -> nat;

/// The approximate cardinality, printed with no decimals, of a set of
/// valuations of `var_count` BDD variables of which `active` encode
/// parameters.
pub uninterp spec fn approx_cardinality_text(
    valuations: Set<Seq<bool>>,
    var_count: nat,
    active: nat,
) -> Seq<char>;

/// The approximate cardinality of a color set, printed with no decimals.
pub open spec fn cardinality_text_of(c: GraphColors) -> Seq<char> {
    approx_cardinality_text(colors_of(c), var_count_of(c), active_count_of(c))
}

/// The string serialization of the BDD of a color set.
pub uninterp spec fn dump_text_of(c: GraphColors) -> Seq<char>;

/// Relies on `Bdd::num_vars` of the set's BDD.
#[verifier::external_body]
pub(crate) fn var_count(c: &GraphColors) -> (r: u16)
    ensures
        r as nat == var_count_of(*c),
{
    c.as_bdd().num_vars()
}

/// Relies on `GraphColors::clone`: the copy holds the same BDD and parameter
/// variables.
#[verifier::external_body]
pub(crate) fn copy_colors(c: &GraphColors) -> (r: GraphColors)
    ensures
        colors_of(r) == colors_of(*c),
        var_count_of(r) == var_count_of(*c),
        active_count_of(r) == active_count_of(*c),
{
    c.clone()
}

/// Relies on `Set::intersect` of `GraphColors`, which is `Bdd::and` (it panics
/// on BDDs of differing variable counts) under the parameter variables of `a`.
#[verifier::external_body]
pub(crate) fn intersect(a: &GraphColors, b: &GraphColors) -> (r: GraphColors)
    requires
        var_count_of(*a) == var_count_of(*b),
    ensures
        colors_of(r) == colors_of(*a).intersect(colors_of(*b)),
        var_count_of(r) == var_count_of(*a),
        active_count_of(r) == active_count_of(*a),
{
    a.intersect(b)
}

/// Relies on `Set::minus` of `GraphColors`, which is `Bdd::and_not` (it panics
/// on BDDs of differing variable counts) under the parameter variables of `a`.
#[verifier::external_body]
pub(crate) fn subtract(a: &GraphColors, b: &GraphColors) -> (r: GraphColors)
    requires
        var_count_of(*a) == var_count_of(*b),
    ensures
        colors_of(r) == colors_of(*a).difference(colors_of(*b)),
        var_count_of(r) == var_count_of(*a),
        active_count_of(r) == active_count_of(*a),
{
    a.minus(b)
}

/// Relies on `Set::is_empty` of `GraphColors`, which is `Bdd::is_false`.
#[verifier::external_body]
pub(crate) fn is_empty(c: &GraphColors) -> (r: bool)
    ensures
        r == (colors_of(*c) == Set::<Seq<bool>>::empty()),
{
    c.is_empty()
}

/// Relies on `GraphColors::approx_cardinality`, printed with `{:.0}`: it reads
/// the BDD, its variable count and the number of parameter variables, and
/// gives `0.0` for an empty set.
#[verifier::external_body]
pub(crate) fn cardinality_text(c: &GraphColors) -> (r: String)
    ensures
        r@ == approx_cardinality_text(colors_of(*c), var_count_of(*c), active_count_of(*c)),
        colors_of(*c) == Set::<Seq<bool>>::empty() ==> r@ == seq!['0'],
{
    format!("{:.0}", c.approx_cardinality())
}

/// Relies on `Display` of `Bdd`, which is `Bdd::write_as_string`.
#[verifier::external_body]
pub(crate) fn dump_text(c: &GraphColors) -> (r: String)
    ensures
        r@ == dump_text_of(*c),
{
    c.as_bdd().to_string()
}

} // verus!
