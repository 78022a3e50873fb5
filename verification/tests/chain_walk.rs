use callchain::chain::{
    callers_recorded, find_record, get_callers_recursive, holds, is_main, unique, SearchRecord,
};
use callchain::edge::Edge;
use callchain::finder::{SearchError, SearchOutput};
use callchain::traversal::{Query, Traversal};
use itertools::Itertools;

fn edge(caller: &str, path: &str, callee: &str) -> Edge {
    Edge { caller: caller.to_string(), path: path.to_string(), callee: callee.to_string() }
}

fn record(name: &str, c_lines: &[&str]) -> SearchRecord {
    SearchRecord {
        name: name.to_string(),
        outcome: Ok(SearchOutput {
            c_lines: c_lines.iter().map(|l| l.to_string()).collect(),
            h_lines: Vec::new(),
        }),
    }
}

fn failed(name: &str, error: SearchError) -> SearchRecord {
    SearchRecord { name: name.to_string(), outcome: Err(error) }
}

fn two_files() -> Vec<SearchRecord> {
    vec![record("b", &["a.c=int a(void)", "a.c-{", "a.c:\tb();", "a.c-}"]), record("a", &[])]
}

fn circle() -> Vec<SearchRecord> {
    vec![
        record("a", &["b.c=int b(void)", "b.c:\treturn a();"]),
        record("b", &["a.c=int a(void)", "a.c:\treturn b();"]),
    ]
}

fn walk(name: &str, depth: u32, max_depth: u32, searches: &Vec<SearchRecord>) -> Vec<Edge> {
    let mut traversal = Traversal::new(name, depth, max_depth);
    while let Some(query) = traversal.next_query() {
        traversal.answer(callers_recorded(searches, &query.name));
    }
    traversal.finish()
}

#[test]
fn is_main_ignores_case() {
    assert!(is_main("main"));
    assert!(is_main("MAIN"));
    assert!(is_main("Main"));
    assert!(is_main("mAiN"));
}

#[test]
fn is_main_rejects_other_names() {
    assert!(!is_main(""));
    assert!(!is_main("mai"));
    assert!(!is_main("mains"));
    assert!(!is_main("amain"));
    assert!(!is_main("maim"));
    assert!(!is_main("nain"));
    assert!(!is_main("m\u{e4}in"));
}

#[test]
fn is_main_agrees_with_lower_casing() {
    let names = [
        "main", "MAIN", "Main", "maIN", "main ", " main", "ma\u{130}n", "MA\u{130}N", "ma\u{131}n",
        "\u{212a}ain", "m\u{212b}in", "MAINS", "M", "", "start",
    ];
    for name in names {
        assert_eq!(is_main(name), name.to_lowercase() == "main");
    }
}

#[test]
fn holds_compares_the_full_triple() {
    let edges = vec![edge("a", "p", "c"), edge("b", "p", "c")];
    assert!(holds(&edges, &edge("a", "p", "c")));
    assert!(holds(&edges, &edge("b", "p", "c")));
    assert!(!holds(&edges, &edge("a", "q", "c")));
    assert!(!holds(&edges, &edge("a", "p", "d")));
    assert!(!holds(&edges, &edge("c", "p", "c")));
    assert!(!holds(&Vec::new(), &edge("a", "p", "c")));
}

#[test]
fn unique_keeps_first_occurrences_in_order() {
    let edges = vec![
        edge("b", "p", "c"),
        edge("a", "p", "c"),
        edge("b", "p", "c"),
        edge("a", "q", "c"),
        edge("a", "p", "c"),
        edge("b", "p", "c"),
    ];
    assert_eq!(unique(&edges), vec![edge("b", "p", "c"), edge("a", "p", "c"), edge("a", "q", "c")]);
}

#[test]
fn unique_of_nothing_is_nothing() {
    assert_eq!(unique(&Vec::new()), Vec::<Edge>::new());
}

#[test]
fn unique_agrees_with_itertools() {
    let names = ["a", "b", "a", "c", "b", "a", "d", "d", "c"];
    let paths = ["p", "p", "q", "p", "p", "p", "q", "q", "p"];
    let mut edges = Vec::new();
    for i in 0..names.len() {
        for j in 0..=i {
            edges.push(edge(names[i], paths[j], "t"));
        }
    }
    let expected: Vec<Edge> = edges.iter().unique().cloned().collect();
    assert_eq!(unique(&edges), expected);
}

#[test]
fn find_record_returns_the_first_of_a_name() {
    let searches = vec![record("a", &[]), record("b", &[]), record("a", &["x.c=int x("])];
    assert_eq!(find_record(&searches, "a"), Some(0));
    assert_eq!(find_record(&searches, "b"), Some(1));
    assert_eq!(find_record(&searches, "c"), None);
    assert_eq!(find_record(&Vec::new(), "a"), None);
}

#[test]
fn callers_recorded_reads_the_record() {
    let searches = vec![
        record("b", &["a.c=int a(void)"]),
        failed("c", SearchError::Runtime),
        failed("d", SearchError::Launch),
    ];
    assert_eq!(callers_recorded(&searches, "b"), Ok(vec![edge("a", "a.c", "b")]));
    assert_eq!(callers_recorded(&searches, "c"), Err(SearchError::Runtime));
    assert_eq!(callers_recorded(&searches, "d"), Err(SearchError::Launch));
}

#[test]
fn callers_recorded_of_an_unrecorded_name_is_a_launch_error() {
    assert_eq!(callers_recorded(&two_files(), "zzz"), Err(SearchError::Launch));
}

#[test]
fn two_files_give_one_edge() {
    let searches = two_files();
    let expected = Some(vec![edge("a", "a.c", "b")]);
    assert_eq!(get_callers_recursive("b", "", "", 1, 0, &searches), expected);
}

#[test]
fn two_files_give_the_same_at_a_deeper_ceiling() {
    let searches = two_files();
    let at_one = get_callers_recursive("b", "", "", 1, 0, &searches);
    let at_two = get_callers_recursive("b", "", "", 2, 0, &searches);
    assert_eq!(at_one, at_two);
    assert_eq!(at_two, Some(vec![edge("a", "a.c", "b")]));
}

#[test]
fn a_name_that_nothing_calls_has_an_empty_chain() {
    let searches = two_files();
    assert_eq!(get_callers_recursive("a", "", "", 3, 0, &searches), Some(Vec::new()));
}

#[test]
fn reached_with_does_not_bear_on_the_result() {
    let searches = two_files();
    assert_eq!(
        get_callers_recursive("b", "some/path.c", "other", 2, 0, &searches),
        get_callers_recursive("b", "", "", 2, 0, &searches)
    );
}

#[test]
fn main_has_no_chain_in_either_case() {
    let searches =
        vec![record("main", &["crt.c=void start(void)"]), record("MAIN", &["crt.c=void start(void)"])];
    for max_depth in 0..4 {
        for depth in 0..=max_depth {
            assert_eq!(get_callers_recursive("main", "", "", max_depth, depth, &searches), None);
            assert_eq!(get_callers_recursive("MAIN", "", "", max_depth, depth, &searches), None);
        }
    }
}

#[test]
fn the_chain_stops_at_main() {
    let searches = vec![
        record("f", &["m.c=int main(int argc, char **argv)", "m.c:\tf();"]),
        record("main", &["crt.c=void start(void)"]),
    ];
    assert_eq!(
        get_callers_recursive("f", "", "", 5, 0, &searches),
        Some(vec![edge("main", "m.c", "f")])
    );
}

#[test]
fn a_name_below_the_ceiling_has_no_chain() {
    let searches = two_files();
    assert_eq!(get_callers_recursive("b", "", "", 0, 1, &searches), None);
    assert_eq!(get_callers_recursive("b", "", "", 3, 4, &searches), None);
    assert_eq!(get_callers_recursive("b", "", "", 3, 3, &searches), Some(vec![edge("a", "a.c", "b")]));
}

#[test]
fn a_failed_search_gives_nothing() {
    let searches = vec![failed("b", SearchError::Runtime), failed("c", SearchError::Launch)];
    assert_eq!(get_callers_recursive("b", "", "", 3, 0, &searches), None);
    assert_eq!(get_callers_recursive("c", "", "", 3, 0, &searches), None);
    assert_eq!(get_callers_recursive("unrecorded", "", "", 3, 0, &searches), None);
}

#[test]
fn a_failed_search_further_up_counts_as_no_callers() {
    let searches = vec![
        record("t", &["p.c=int p(void)", "q.c=int q(void)"]),
        failed("p", SearchError::Runtime),
        record("q", &["r.c=int r(void)"]),
    ];
    assert_eq!(
        get_callers_recursive("t", "", "", 5, 0, &searches),
        Some(vec![edge("p", "p.c", "t"), edge("q", "q.c", "t"), edge("r", "r.c", "q")])
    );
}

#[test]
fn a_circle_ends_at_the_ceiling() {
    let searches = circle();
    for max_depth in 0..12u32 {
        let chain = get_callers_recursive("a", "", "", max_depth, 0, &searches).unwrap();
        assert_eq!(chain.len(), max_depth as usize + 1);
        for (level, found) in chain.iter().enumerate() {
            if level % 2 == 0 {
                assert_eq!(*found, edge("b", "b.c", "a"));
            } else {
                assert_eq!(*found, edge("a", "a.c", "b"));
            }
        }
    }
}

#[test]
fn a_circle_takes_one_query_for_each_level() {
    let searches = circle();
    for max_depth in 0..8u32 {
        let mut traversal = Traversal::new("a", 0, max_depth);
        let mut asked = 0;
        while let Some(query) = traversal.next_query() {
            assert!(query.depth <= max_depth);
            assert_eq!(query.depth, asked);
            asked += 1;
            traversal.answer(callers_recorded(&searches, &query.name));
        }
        assert_eq!(asked, max_depth + 1);
    }
}

#[test]
fn a_chain_holds_what_its_levels_can_hold() {
    let everyone = ["a.c=int a(void)", "b.c=int b(void)"];
    let searches = vec![record("a", &everyone), record("b", &everyone)];
    for max_depth in 0..6u32 {
        let chain = get_callers_recursive("a", "", "", max_depth, 0, &searches).unwrap();
        assert_eq!(chain.len(), (1usize << (max_depth + 2)) - 2);
    }
    let chain = get_callers_recursive("a", "", "", 1, 0, &searches).unwrap();
    assert_eq!(
        chain,
        vec![
            edge("a", "a.c", "a"),
            edge("b", "b.c", "a"),
            edge("a", "a.c", "a"),
            edge("b", "b.c", "a"),
            edge("a", "a.c", "b"),
            edge("b", "b.c", "b"),
        ]
    );
}

#[test]
fn a_function_that_calls_itself_ends_at_the_ceiling() {
    let searches = vec![record("f", &["f.c=int f(int n)", "f.c:\treturn f(n - 1);"])];
    assert_eq!(
        get_callers_recursive("f", "", "", 3, 0, &searches),
        Some(vec![edge("f", "f.c", "f"); 4])
    );
    assert_eq!(get_callers_recursive("f", "", "", 3, 2, &searches), Some(vec![edge("f", "f.c", "f"); 2]));
}

#[test]
fn a_repeated_caller_is_looked_into_once() {
    let searches = vec![
        record("t", &["f.c=int x(void)", "f.c:\tt();", "f.c=int x(void)", "f.c:\tt();", "f.c=int x(void)"]),
        record("x", &["g.c=int y(void)"]),
        record("y", &[]),
    ];
    assert_eq!(
        get_callers_recursive("t", "", "", 5, 0, &searches),
        Some(vec![
            edge("x", "f.c", "t"),
            edge("x", "f.c", "t"),
            edge("x", "f.c", "t"),
            edge("y", "g.c", "x"),
        ])
    );
}

#[test]
fn the_same_caller_at_two_paths_is_looked_into_twice() {
    let searches = vec![
        record("t", &["f.c=int x(void)", "h.c=int x(void)"]),
        record("x", &["g.c=int y(void)"]),
    ];
    assert_eq!(
        get_callers_recursive("t", "", "", 1, 0, &searches),
        Some(vec![
            edge("x", "f.c", "t"),
            edge("x", "h.c", "t"),
            edge("y", "g.c", "x"),
            edge("y", "g.c", "x"),
        ])
    );
}

#[test]
fn edges_come_level_by_level_and_caller_by_caller() {
    let searches = vec![
        record("t", &["p.c=int p(void)", "q.c=int q(void)"]),
        record("p", &["pp.c=int pp(void)", "pq.c=int pq(void)"]),
        record("q", &["qq.c=int qq(void)"]),
        record("pp", &["ppp.c=int ppp(void)"]),
        record("pq", &[]),
        record("qq", &[]),
        record("ppp", &[]),
    ];
    assert_eq!(
        get_callers_recursive("t", "", "", 9, 0, &searches),
        Some(vec![
            edge("p", "p.c", "t"),
            edge("q", "q.c", "t"),
            edge("pp", "pp.c", "p"),
            edge("pq", "pq.c", "p"),
            edge("ppp", "ppp.c", "pp"),
            edge("qq", "qq.c", "q"),
        ])
    );
    assert_eq!(
        get_callers_recursive("t", "", "", 1, 0, &searches),
        Some(vec![
            edge("p", "p.c", "t"),
            edge("q", "q.c", "t"),
            edge("pp", "pp.c", "p"),
            edge("pq", "pq.c", "p"),
            edge("qq", "qq.c", "q"),
        ])
    );
    assert_eq!(
        get_callers_recursive("t", "", "", 0, 0, &searches),
        Some(vec![edge("p", "p.c", "t"), edge("q", "q.c", "t")])
    );
}

#[test]
fn the_highest_ceiling_does_not_overflow() {
    let searches = circle();
    assert_eq!(
        get_callers_recursive("a", "", "", u32::MAX, u32::MAX, &searches),
        Some(vec![edge("b", "b.c", "a")])
    );
    assert_eq!(
        get_callers_recursive("a", "", "", u32::MAX, u32::MAX - 1, &searches),
        Some(vec![edge("b", "b.c", "a"), edge("a", "a.c", "b")])
    );
}

#[test]
fn traversal_asks_for_the_root_first() {
    let mut traversal = Traversal::new("b", 0, 2);
    assert_eq!(traversal.max_depth(), 2);
    assert_eq!(traversal.next_query(), Some(Query { name: "b".to_string(), depth: 0 }));
    assert!(traversal.edges().is_empty());
}

#[test]
fn traversal_names_an_unanswered_query_again() {
    let mut traversal = Traversal::new("b", 0, 2);
    let first = traversal.next_query();
    assert_eq!(traversal.next_query(), first);
    assert_eq!(traversal.next_query(), first);
}

#[test]
fn traversal_asks_for_the_callers_one_level_deeper() {
    let mut traversal = Traversal::new("t", 0, 2);
    traversal.next_query();
    traversal.answer(Ok(vec![edge("p", "p.c", "t"), edge("q", "q.c", "t"), edge("p", "p.c", "t")]));
    assert_eq!(traversal.edges().len(), 3);
    assert_eq!(traversal.next_query(), Some(Query { name: "p".to_string(), depth: 1 }));
    traversal.answer(Ok(vec![edge("pp", "pp.c", "p")]));
    assert_eq!(traversal.next_query(), Some(Query { name: "pp".to_string(), depth: 2 }));
    traversal.answer(Ok(vec![edge("ppp", "ppp.c", "pp")]));
    assert_eq!(traversal.next_query(), Some(Query { name: "q".to_string(), depth: 1 }));
    traversal.answer(Err(SearchError::Runtime));
    assert_eq!(traversal.next_query(), None);
    assert_eq!(traversal.next_query(), None);
    assert_eq!(
        traversal.finish(),
        vec![
            edge("p", "p.c", "t"),
            edge("q", "q.c", "t"),
            edge("p", "p.c", "t"),
            edge("pp", "pp.c", "p"),
            edge("ppp", "ppp.c", "pp"),
        ]
    );
}

#[test]
fn traversal_skips_main_and_names_below_the_ceiling() {
    let mut traversal = Traversal::new("main", 0, 2);
    assert_eq!(traversal.next_query(), None);
    let mut traversal = Traversal::new("f", 3, 2);
    assert_eq!(traversal.next_query(), None);
    let mut traversal = Traversal::new("f", 0, 2);
    traversal.next_query();
    traversal.answer(Ok(vec![edge("MAIN", "m.c", "f"), edge("g", "g.c", "f"), edge("Main", "n.c", "f")]));
    assert_eq!(traversal.next_query(), Some(Query { name: "g".to_string(), depth: 1 }));
    traversal.answer(Ok(Vec::new()));
    assert_eq!(traversal.next_query(), None);
    assert_eq!(traversal.finish().len(), 3);
}

#[test]
fn traversal_drops_an_answer_that_nobody_asked_for() {
    let mut traversal = Traversal::new("t", 0, 2);
    traversal.answer(Ok(vec![edge("p", "p.c", "t")]));
    assert!(traversal.edges().is_empty());
    assert_eq!(traversal.next_query(), Some(Query { name: "t".to_string(), depth: 0 }));
    traversal.answer(Ok(Vec::new()));
    traversal.answer(Ok(vec![edge("p", "p.c", "t")]));
    assert!(traversal.edges().is_empty());
    assert_eq!(traversal.next_query(), None);
}

#[test]
fn traversal_builds_what_the_chain_function_returns() {
    let searches = vec![
        record("t", &["p.c=int p(void)", "q.c=int q(void)", "p.c=int p(void)"]),
        record("p", &["t.c=int t(void)", "q.c=int q(void)"]),
        record("q", &["m.c=int main(void)"]),
        failed("x", SearchError::Launch),
    ];
    for max_depth in 0..6 {
        for depth in 0..=max_depth {
            assert_eq!(
                Some(walk("t", depth, max_depth, &searches)),
                get_callers_recursive("t", "", "", max_depth, depth, &searches)
            );
        }
    }
    assert_eq!(walk("x", 0, 3, &searches), Vec::new());
    assert_eq!(walk("main", 0, 3, &searches), Vec::new());
}
