//! The class of each truth pattern over the properties: the baseline colors
//! that satisfy exactly the properties that the pattern marks true.
use biodivine_lib_param_bn::symbolic_async_graph::GraphColors;
use vstd::arithmetic::power2::pow2;
use vstd::prelude::*;

use crate::codec::{bits_value, lemma_bits_value_of_msb_bits, lemma_msb_bits_of_value, msb_bits};
use crate::colors::{active_count_of, colors_of, copy_colors, intersect, subtract, var_count_of};

verus! {

/// The class of `base` for validity vector `v`: entry `j` of `v` keeps the
/// members of `props[j]` when true, and removes them when false.
pub open spec fn class_set(base: Set<Seq<bool>>, props: Seq<Set<Seq<bool>>>, v: Seq<bool>) -> Set<
    Seq<bool>,
>
    decreases v.len(),
{
    if v.len() == 0 {
        base
    } else {
        let prev = class_set(base, props, v.drop_last());
        if v.last() {
            prev.intersect(props[v.len() - 1])
        } else {
            prev.difference(props[v.len() - 1])
        }
    }
}

/// The class of `base` for combination index `i` over all of `props`.
pub open spec fn class_of_index(base: Set<Seq<bool>>, props: Seq<Set<Seq<bool>>>, i: int) -> Set<
    Seq<bool>,
> {
    class_set(base, props, msb_bits(i, props.len()))
}

/// The valuation sets of a list of color sets.
pub open spec fn colors_seq(ps: Seq<GraphColors>) -> Seq<Set<Seq<bool>>> {
    ps.map_values(|c: GraphColors| colors_of(c))
}

/// All property sets have the variable count of the baseline.
pub open spec fn same_context(base: GraphColors, ps: Seq<GraphColors>) -> bool {
    forall|j: int| 0 <= j < ps.len() ==> #[trigger] var_count_of(ps[j]) == var_count_of(base)
}

/// A color is in a class exactly when it is in the baseline and each
/// property holds of it as the validity vector says.
pub proof fn lemma_class_membership(
    base: Set<Seq<bool>>,
    props: Seq<Set<Seq<bool>>>,
    v: Seq<bool>,
    x: Seq<bool>,
)
    requires
        v.len() <= props.len(),
    ensures
        class_set(base, props, v).contains(x) <==> (base.contains(x) && forall|j: int|
            0 <= j < v.len() ==> #[trigger] props[j].contains(x) == v[j]),
    decreases v.len(),
{
    if v.len() > 0 {
        let u = v.drop_last();
        lemma_class_membership(base, props, u, x);
        if class_set(base, props, v).contains(x) {
            assert forall|j: int| 0 <= j < v.len() implies #[trigger] props[j].contains(x)
                == v[j] by {
                if j < u.len() {
                    assert(u[j] == v[j]);
                }
            }
        }
        if base.contains(x) && forall|j: int|
            0 <= j < v.len() ==> #[trigger] props[j].contains(x) == v[j] {
            assert forall|j: int| 0 <= j < u.len() implies #[trigger] props[j].contains(x)
                == u[j] by {
                assert(u[j] == v[j]);
            }
            assert(props[v.len() - 1].contains(x) == v[v.len() - 1]);
        }
    }
}

/// The `2^N` classes partition the baseline: every baseline color lies in
/// some class, no other color lies in any, and distinct classes are disjoint.
pub proof fn lemma_classes_partition(base: Set<Seq<bool>>, props: Seq<Set<Seq<bool>>>)
    ensures
        forall|x: Seq<bool>|
            base.contains(x) <==> exists|i: int|
                0 <= i < pow2(props.len()) && #[trigger] class_of_index(base, props, i).contains(x),
        forall|i1: int, i2: int|
            0 <= i1 < pow2(props.len()) && 0 <= i2 < pow2(props.len()) && i1 != i2
                ==> #[trigger] class_of_index(base, props, i1).intersect(
                class_of_index(base, props, i2),
            ) == Set::<Seq<bool>>::empty(),
{
    let n = props.len();
    assert forall|x: Seq<bool>|
        base.contains(x) <==> exists|i: int|
            0 <= i < pow2(n) && #[trigger] class_of_index(base, props, i).contains(x) by {
        if base.contains(x) {
            let v = Seq::new(n, |j: int| props[j].contains(x));
            let i = bits_value(v);
            lemma_msb_bits_of_value(v);
            lemma_class_membership(base, props, v, x);
            assert(class_of_index(base, props, i).contains(x));
        }
        if exists|i: int| 0 <= i < pow2(n) && #[trigger] class_of_index(base, props, i).contains(
            x,
        ) {
            let i = choose|i: int|
                0 <= i < pow2(n) && #[trigger] class_of_index(base, props, i).contains(x);
            lemma_class_membership(base, props, msb_bits(i, n), x);
        }
    }
    assert forall|i1: int, i2: int|
        0 <= i1 < pow2(n) && 0 <= i2 < pow2(n) && i1 != i2 implies #[trigger] class_of_index(
        base,
        props,
        i1,
    ).intersect(class_of_index(base, props, i2)) == Set::<Seq<bool>>::empty() by {
        let c1 = class_of_index(base, props, i1);
        let c2 = class_of_index(base, props, i2);
        let e1 = msb_bits(i1, n);
        let e2 = msb_bits(i2, n);
        lemma_bits_value_of_msb_bits(i1, n);
        lemma_bits_value_of_msb_bits(i2, n);
        assert forall|x: Seq<bool>| !c1.intersect(c2).contains(x) by {
            lemma_class_membership(base, props, e1, x);
            lemma_class_membership(base, props, e2, x);
            if c1.contains(x) && c2.contains(x) {
                assert forall|j: int| 0 <= j < n implies e1[j] == e2[j] by {
                    assert(props[j].contains(x) == e1[j]);
                    assert(props[j].contains(x) == e2[j]);
                }
                assert(e1 =~= e2);
            }
        }
        assert(c1.intersect(c2) =~= Set::<Seq<bool>>::empty());
    }
}

/// The color set of the class for `validity`, derived from the baseline by
/// intersecting with or subtracting each property set in turn.
pub fn class_colors(
    all_valid_colors: &GraphColors,
    property_results: &[GraphColors],
    validity: &[bool],
) -> (r: GraphColors)
    requires
        validity@.len() == property_results@.len(),
        same_context(*all_valid_colors, property_results@),
    ensures
        colors_of(r) == class_set(
            colors_of(*all_valid_colors),
            colors_seq(property_results@),
            validity@,
        ),
        var_count_of(r) == var_count_of(*all_valid_colors),
        active_count_of(r) == active_count_of(*all_valid_colors),
{
    let ghost base = colors_of(*all_valid_colors);
    let ghost props = colors_seq(property_results@);
    let mut category_colors = copy_colors(all_valid_colors);
    let mut j: usize = 0;
    while j < validity.len()
        invariant
            j <= validity@.len(),
            validity@.len() == property_results@.len(),
            same_context(*all_valid_colors, property_results@),
            base == colors_of(*all_valid_colors),
            props == colors_seq(property_results@),
            var_count_of(category_colors) == var_count_of(*all_valid_colors),
            active_count_of(category_colors) == active_count_of(*all_valid_colors),
            colors_of(category_colors) == class_set(base, props, validity@.subrange(0, j as int)),
        decreases validity@.len() - j,
    {
        let set = &property_results[j];
        assert(var_count_of(*set) == var_count_of(*all_valid_colors));
        if validity[j] {
            category_colors = intersect(&category_colors, set);
        } else {
            category_colors = subtract(&category_colors, set);
        }
        assert(validity@.subrange(0, j + 1).drop_last() =~= validity@.subrange(0, j as int));
        j = j + 1;
    }
    assert(validity@.subrange(0, j as int) =~= validity@);
    category_colors
}

} // verus!
