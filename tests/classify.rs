use biodivine_lib_param_bn::biodivine_std::traits::Set as _;
use biodivine_lib_param_bn::symbolic_async_graph::{GraphColors, SymbolicAsyncGraph};
use biodivine_lib_param_bn::BooleanNetwork;
use classifier::classify::{classify, classify_combination, ClassifyError};
use classifier::partition::class_colors;

/// A network with seven zero-arity parameters `p1` to `p7`: 128 colors.
fn graph() -> SymbolicAsyncGraph {
    let bn = BooleanNetwork::try_from("a -?? a\n$a: p1 | p2 | p3 | p4 | p5 | p6 | p7").unwrap();
    SymbolicAsyncGraph::new(&bn).unwrap()
}

fn param(g: &SymbolicAsyncGraph, name: &str) -> GraphColors {
    let bn = BooleanNetwork::try_from("a -?? a\n$a: p1 | p2 | p3 | p4 | p5 | p6 | p7").unwrap();
    let id = bn.find_parameter(name).unwrap();
    let ctx = g.symbolic_context();
    let bdd = ctx.mk_uninterpreted_function_is_true(id, &[]);
    GraphColors::new(bdd, ctx).intersect(&g.mk_unit_colors())
}

fn strings(items: &[&str]) -> Vec<String> {
    items.iter().map(|s| s.to_string()).collect()
}

fn named(n: usize) -> Vec<(String, String)> {
    (0..n).map(|i| (format!("phi{i}"), format!("formula {i}"))).collect()
}

/// Baseline of 100 colors, a first property with 50 of them and a second with 30.
fn scenario(g: &SymbolicAsyncGraph) -> (GraphColors, GraphColors, GraphColors) {
    let p: Vec<GraphColors> = (1..=7).map(|i| param(g, &format!("p{i}"))).collect();
    let unit = g.mk_unit_colors();
    let not = |c: &GraphColors| unit.minus(c);
    let cube3 = not(&p[0])
        .intersect(&not(&p[1]))
        .intersect(&p[2])
        .intersect(&p[3])
        .intersect(&p[4]);
    let baseline = p[0].union(&not(&p[0]).intersect(&p[1])).union(&cube3);
    let removed = not(&p[0])
        .intersect(&not(&p[1]))
        .intersect(&p[3])
        .intersect(&p[4])
        .intersect(&not(&p[5]));
    let p0 = baseline.intersect(&p[2]).minus(&removed);
    let extra = p[0]
        .intersect(&not(&p[3]))
        .intersect(&p[5])
        .intersect(&p[6])
        .intersect(&p[1])
        .intersect(&p[2]);
    let p1 = baseline.intersect(&p[3].intersect(&p[4]).union(&extra));
    (baseline, p0, p1)
}

#[test]
fn scenario_cardinalities() {
    let g = graph();
    let (b, p0, p1) = scenario(&g);
    assert_eq!(b.approx_cardinality(), 100.0);
    assert_eq!(p0.approx_cardinality(), 50.0);
    assert_eq!(p1.approx_cardinality(), 30.0);
    assert!(!p0.intersect(&p1).is_empty());
}

#[test]
fn end_to_end_two_properties() {
    let g = graph();
    let (b, p0, p1) = scenario(&g);
    let c = classify(&strings(&["a1"]), &b, &named(2), &vec![p0, p1]).unwrap();
    let labels: Vec<&str> = c.classes.iter().map(|r| r.label.as_str()).collect();
    assert_eq!(labels, vec!["00", "01", "10", "11"]);
    let total: u64 = c.classes.iter().map(|r| r.cardinality.parse::<u64>().unwrap()).sum();
    assert_eq!(total, 100);
    assert!(c.report.contains("# a1\n100 colors satisfy all assertions\n\n"));
    assert!(c.report.contains("# phi0  |  formula 0\n50 colors satisfy this property\n\n"));
    assert!(c.report.contains("# phi1  |  formula 1\n30 colors satisfy this property\n\n"));
    let positions: Vec<usize> = labels
        .iter()
        .map(|l| c.report.find(&format!("# {l}\n")).unwrap())
        .collect();
    assert!(positions.windows(2).all(|w| w[0] < w[1]));
    for r in &c.classes {
        let entry = r.dump.as_ref().unwrap();
        assert_eq!(entry.name, format!("bdd_dump_{}.txt", r.label));
        assert!(entry.content.starts_with('|'));
    }
}

#[test]
fn classes_partition_the_baseline() {
    let g = graph();
    let (b, p0, p1) = scenario(&g);
    let props = vec![p0, p1];
    let mut union = g.mk_empty_colors();
    let mut parts = Vec::new();
    for i in 0..4 {
        let v = classifier::codec::int_to_bool_vec(i, 2);
        let c = class_colors(&b, &props, &v);
        for other in &parts {
            assert!(c.intersect(other).is_empty());
        }
        union = union.union(&c);
        parts.push(c);
    }
    assert_eq!(union, b);
}

#[test]
fn class_sets_follow_validity() {
    let g = graph();
    let p1 = param(&g, "p1");
    let p2 = param(&g, "p2");
    let unit = g.mk_unit_colors();
    let props = vec![p1.clone(), p2.clone()];
    let c = class_colors(&unit, &props, &vec![true, false]);
    assert_eq!(c, p1.minus(&p2));
    assert_eq!(c.approx_cardinality(), 32.0);
    let d = class_colors(&unit, &props, &vec![false, false]);
    assert_eq!(d, unit.minus(&p1).minus(&p2));
}

#[test]
fn runs_are_deterministic() {
    let g = graph();
    let (b, p0, p1) = scenario(&g);
    let props = vec![p0, p1];
    let first = classify(&strings(&["a1"]), &b, &named(2), &props).unwrap();
    let second = classify(&strings(&["a1"]), &b, &named(2), &props).unwrap();
    assert_eq!(first.report, second.report);
    let names = |c: &classifier::classify::Classification| -> Vec<String> {
        c.classes.iter().filter_map(|r| r.dump.as_ref().map(|e| e.name.clone())).collect()
    };
    assert_eq!(names(&first), names(&second));
}

#[test]
fn empty_classes_have_no_dump() {
    let g = graph();
    let p1 = param(&g, "p1");
    // Both properties hold of every baseline color: the classes `0` are empty.
    let props = vec![p1.clone(), p1.clone()];
    let c = classify(&strings(&[]), &p1, &named(2), &props).unwrap();
    for r in &c.classes {
        if r.label == "11" {
            assert_eq!(r.cardinality, "64");
            assert_eq!(r.dump.as_ref().unwrap().name, "bdd_dump_11.txt");
        } else {
            assert_eq!(r.cardinality, "0");
            assert!(r.dump.is_none());
        }
    }
    assert!(c.report.contains("# 01\n0 colors in this category\n\n"));
}

#[test]
fn no_properties_gives_one_class() {
    let g = graph();
    let b = param(&g, "p3");
    let c = classify(&strings(&["x"]), &b, &[], &vec![]).unwrap();
    assert_eq!(c.classes.len(), 1);
    assert_eq!(c.classes[0].label, "");
    assert_eq!(c.classes[0].cardinality, "64");
    assert_eq!(c.classes[0].dump.as_ref().unwrap().name, "bdd_dump_.txt");
    assert_eq!(
        c.report,
        "### Assertion formulae\n\n# x\n64 colors satisfy all assertions\n\n\
### Property formulae individually\n\n### Classes\n\n# \n64 colors in this category\n\n"
    );
}

#[test]
fn single_combination_record() {
    let g = graph();
    let unit = g.mk_unit_colors();
    let props = vec![param(&g, "p1"), param(&g, "p2"), param(&g, "p3")];
    let r = classify_combination(&unit, &props, 5);
    assert_eq!(r.validity, vec![true, false, true]);
    assert_eq!(r.label, "101");
    assert_eq!(r.cardinality, "16");
    assert_eq!(r.dump.unwrap().name, "bdd_dump_101.txt");
}

#[test]
fn mismatched_lengths_are_refused() {
    let g = graph();
    let unit = g.mk_unit_colors();
    let r = classify(&[], &unit, &named(1), &vec![]);
    assert!(matches!(r, Err(ClassifyError::LengthMismatch)));
}

#[test]
fn too_many_properties_are_refused() {
    let g = graph();
    let unit = g.mk_unit_colors();
    let props: Vec<GraphColors> = (0..31).map(|_| unit.clone()).collect();
    let r = classify(&[], &unit, &named(31), &props);
    assert!(matches!(r, Err(ClassifyError::TooManyProperties)));
}

#[test]
fn foreign_context_is_refused() {
    let g = graph();
    let small = SymbolicAsyncGraph::new(&BooleanNetwork::try_from("a -?? a\n$a: q").unwrap()).unwrap();
    let r = classify(&[], &g.mk_unit_colors(), &named(1), &vec![small.mk_unit_colors()]);
    assert!(matches!(r, Err(ClassifyError::ContextMismatch)));
}
