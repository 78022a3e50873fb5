//! The call chain of a function: its callers, their callers, and so on, down
//! to a depth ceiling.
//!
//! The chain is defined over a record of searches, so that it is a function
//! of plain values. A caller that one search names several times is looked
//! into once. That alone does not stop the descent where two functions call
//! each other: the ceiling does.
use crate::edge::{Edge, EdgeView};
use crate::finder::{
    answer, answer_view, get_callers, outcome_view, SearchError, SearchOutput, SearchOutputView,
};
use crate::traversal::{
    lemma_answer_keeps_outcome, lemma_asking_keeps_outcome, lemma_finished_outcome,
    lemma_start_outcome, Traversal,
};
use vstd::prelude::*;
use vstd::string::*;

verus! {

/// Whether `name` is the program entry point: `main`, in any mix of upper
/// and lower case.
pub open spec fn main_name(name: Seq<char>) -> bool {
    &&& name.len() == 4
    &&& (name[0] == 'm' || name[0] == 'M')
    &&& (name[1] == 'a' || name[1] == 'A')
    &&& (name[2] == 'i' || name[2] == 'I')
    &&& (name[3] == 'n' || name[3] == 'N')
}

/// Tells whether `name` is the program entry point.
pub fn is_main(name: &str) -> (r: bool)
    ensures
        r == main_name(name@),
{
    if name.unicode_len() != 4 {
        return false;
    }
    let m = name.get_char(0);
    let a = name.get_char(1);
    let i = name.get_char(2);
    let n = name.get_char(3);
    (m == 'm' || m == 'M') && (a == 'a' || a == 'A') && (i == 'i' || i == 'I') && (n == 'n' || n
        == 'N')
}

/// `edges` without the repetitions: every edge stays where it first occurs.
pub open spec fn distinct(edges: Seq<EdgeView>) -> Seq<EdgeView>
    decreases edges.len(),
{
    if edges.len() == 0 {
        Seq::empty()
    } else {
        let before = distinct(edges.drop_last());
        if before.contains(edges.last()) {
            before
        } else {
            before.push(edges.last())
        }
    }
}

/// Tells whether `edges` holds an edge equal to `edge`.
pub fn holds(edges: &Vec<Edge>, edge: &Edge) -> (r: bool)
    ensures
        r == edges.deep_view().contains(edge@),
{
    let mut i: usize = 0;
    while i < edges.len()
        invariant
            i <= edges.len(),
            forall|j: int| 0 <= j < i ==> edges.deep_view()[j] != edge@,
        decreases edges.len() - i,
    {
        if edges[i].same(edge) {
            assert(edges.deep_view()[i as int] == edge@);
            return true;
        }
        i += 1;
    }
    false
}

/// Removes the repetitions from `edges`, comparing full
/// `(caller, path, callee)` triples and keeping first occurrences in order.
pub fn unique(edges: &Vec<Edge>) -> (r: Vec<Edge>)
    ensures
        r.deep_view() == distinct(edges.deep_view()),
{
    let mut kept: Vec<Edge> = Vec::new();
    let mut i: usize = 0;
    while i < edges.len()
        invariant
            i <= edges.len(),
            kept.deep_view() == distinct(edges.deep_view().take(i as int)),
        decreases edges.len() - i,
    {
        assert(edges.deep_view().take(i + 1).drop_last() =~= edges.deep_view().take(i as int));
        if !holds(&kept, &edges[i]) {
            kept.push(edges[i].duplicate());
        }
        i += 1;
    }
    assert(edges.deep_view().take(i as int) =~= edges.deep_view());
    kept
}

/// One search that was made: the name searched for and what came of it.
#[derive(Debug)]
pub struct SearchRecord {
    pub name: String,
    pub outcome: Result<SearchOutput, SearchError>,
}

/// The mathematical value of a [`SearchRecord`].
pub struct SearchRecordView {
    pub name: Seq<char>,
    pub outcome: Result<SearchOutputView, SearchError>,
}

impl DeepView for SearchRecord {
    type V = SearchRecordView;

    open spec fn deep_view(&self) -> SearchRecordView {
        SearchRecordView { name: self.name@, outcome: outcome_view(self.outcome) }
    }
}

/// The outcome of the search for `name` according to `searches`: that of
/// the first record for `name`. A search that nobody recorded was never
/// started.
pub open spec fn recorded(searches: Seq<SearchRecordView>, name: Seq<char>) -> Result<
    SearchOutputView,
    SearchError,
>
    decreases searches.len(),
{
    if searches.len() == 0 {
        Err(SearchError::Launch)
    } else if searches[0].name == name {
        searches[0].outcome
    } else {
        recorded(searches.drop_first(), name)
    }
}

/// The callers of `name` according to `searches`.
pub open spec fn found_for(searches: Seq<SearchRecordView>, name: Seq<char>) -> Result<
    Seq<EdgeView>,
    SearchError,
> {
    answer(name, recorded(searches, name))
}

/// The number of levels from `depth` down to the ceiling.
pub open spec fn levels_left(depth: nat, max_depth: nat) -> nat {
    if depth <= max_depth {
        (max_depth + 1 - depth) as nat
    } else {
        0
    }
}

/// Whether the callers of `name` are looked for at `depth`: not below the
/// ceiling, and not above the program entry point.
pub open spec fn expands(name: Seq<char>, depth: nat, max_depth: nat) -> bool {
    depth <= max_depth && !main_name(name)
}

/// The call chain of `name` from `depth` down to `max_depth`: the callers of
/// `name` as the search gave them, then the call chain of each distinct
/// caller, one level deeper, in the order of the callers.
pub open spec fn call_chain(
    searches: Seq<SearchRecordView>,
    name: Seq<char>,
    depth: nat,
    max_depth: nat,
) -> Seq<EdgeView>
    decreases levels_left(depth, max_depth), 0nat,
{
    if !expands(name, depth, max_depth) {
        Seq::empty()
    } else {
        match found_for(searches, name) {
            Err(_) => Seq::empty(),
            Ok(found) => found + chains_of(searches, distinct(found), depth + 1, max_depth),
        }
    }
}

/// The call chains of the callers in `edges`, one after the other.
pub open spec fn chains_of(
    searches: Seq<SearchRecordView>,
    edges: Seq<EdgeView>,
    depth: nat,
    max_depth: nat,
) -> Seq<EdgeView>
    decreases levels_left(depth, max_depth), edges.len() + 1,
{
    if edges.len() == 0 {
        Seq::empty()
    } else {
        call_chain(searches, edges[0].caller, depth, max_depth) + chains_of(
            searches,
            edges.drop_first(),
            depth,
            max_depth,
        )
    }
}

/// What a query for the call chain of `name` returns: nothing where the
/// callers of `name` are not looked for or the search for them failed, the
/// call chain otherwise.
pub open spec fn chain_result(
    searches: Seq<SearchRecordView>,
    name: Seq<char>,
    depth: nat,
    max_depth: nat,
) -> Option<Seq<EdgeView>> {
    if expands(name, depth, max_depth) && found_for(searches, name) is Ok {
        Some(call_chain(searches, name, depth, max_depth))
    } else {
        None
    }
}

/// Records before the first one for `name` do not count.
proof fn lemma_recorded_skip(searches: Seq<SearchRecordView>, name: Seq<char>, n: int)
    requires
        0 <= n <= searches.len(),
        forall|j: int| 0 <= j < n ==> searches[j].name != name,
    ensures
        recorded(searches, name) == recorded(searches.skip(n), name),
    decreases n,
{
    if n == 0 {
        assert(searches.skip(0) =~= searches);
    } else {
        lemma_recorded_skip(searches.drop_first(), name, n - 1);
        assert(searches.drop_first().skip(n - 1) =~= searches.skip(n));
    }
}

/// Finds the first record for `name`.
pub fn find_record(searches: &Vec<SearchRecord>, name: &str) -> (r: Option<usize>)
    ensures
        match r {
            Some(i) => i < searches.len() && searches[i as int].name@ == name@ && recorded(
                searches.deep_view(),
                name@,
            ) == outcome_view(searches[i as int].outcome),
            None => recorded(searches.deep_view(), name@) == Err::<SearchOutputView, SearchError>(
                SearchError::Launch,
            ),
        },
{
    let wanted = name.to_owned();
    let mut i: usize = 0;
    while i < searches.len()
        invariant
            i <= searches.len(),
            wanted@ == name@,
            forall|j: int| 0 <= j < i ==> searches.deep_view()[j].name != name@,
        decreases searches.len() - i,
    {
        proof {
            lemma_recorded_skip(searches.deep_view(), name@, i as int);
        }
        if searches[i].name == wanted {
            return Some(i);
        }
        i += 1;
    }
    proof {
        lemma_recorded_skip(searches.deep_view(), name@, i as int);
    }
    None
}

/// What is left after removing repetitions has no repetition, holds the
/// same edges, and is no longer.
pub proof fn lemma_distinct(edges: Seq<EdgeView>)
    ensures
        distinct(edges).no_duplicates(),
        distinct(edges).len() <= edges.len(),
        forall|e: EdgeView| distinct(edges).contains(e) <==> edges.contains(e),
    decreases edges.len(),
{
    if edges.len() > 0 {
        let front = edges.drop_last();
        let before = distinct(front);
        let last = edges.last();
        lemma_distinct(front);
        assert forall|e: EdgeView| distinct(edges).contains(e) <==> edges.contains(e) by {
            assert(edges.contains(e) <==> (front.contains(e) || e == last)) by {
                if edges.contains(e) {
                    let i = choose|i: int| 0 <= i < edges.len() && edges[i] == e;
                    if i < edges.len() - 1 {
                        assert(front[i] == e);
                    }
                }
            }
            assert(distinct(edges).contains(e) <==> (before.contains(e) || e == last)) by {
                if !before.contains(last) {
                    let all = before.push(last);
                    if before.contains(e) {
                        let k = choose|k: int| 0 <= k < before.len() && before[k] == e;
                        assert(all[k] == e);
                    }
                    if e == last {
                        assert(all[before.len() as int] == e);
                    }
                }
            }
        }
    }
}

/// Removing repetitions keeps first occurrences in their order: what is left
/// of the first `n` edges stands at the front of what is left of them all.
pub proof fn lemma_distinct_keeps_order(edges: Seq<EdgeView>, n: int)
    requires
        0 <= n <= edges.len(),
    ensures
        distinct(edges.take(n)).is_prefix_of(distinct(edges)),
    decreases edges.len() - n,
{
    if n == edges.len() {
        assert(edges.take(n) =~= edges);
    } else {
        lemma_distinct_keeps_order(edges, n + 1);
        assert(edges.take(n + 1).drop_last() =~= edges.take(n));
    }
}

/// The chain of a name whose callers are looked for holds the callers as
/// the search gave them and then one chain for each distinct caller: a
/// caller that the search names several times is looked into once, and none
/// is left out.
pub proof fn lemma_each_caller_once(
    searches: Seq<SearchRecordView>,
    name: Seq<char>,
    depth: nat,
    max_depth: nat,
    found: Seq<EdgeView>,
)
    requires
        expands(name, depth, max_depth),
        found_for(searches, name) == Ok::<Seq<EdgeView>, SearchError>(found),
    ensures
        call_chain(searches, name, depth, max_depth) == found + chains_of(
            searches,
            distinct(found),
            depth + 1,
            max_depth,
        ),
        distinct(found).no_duplicates(),
        forall|e: EdgeView| found.contains(e) <==> distinct(found).contains(e),
{
    lemma_distinct(found);
}

/// The program entry point has no call chain, at any depth and whatever the
/// searches hold.
pub proof fn lemma_main_ends_chain(
    searches: Seq<SearchRecordView>,
    name: Seq<char>,
    depth: nat,
    max_depth: nat,
)
    requires
        main_name(name),
    ensures
        call_chain(searches, name, depth, max_depth) == Seq::<EdgeView>::empty(),
        chain_result(searches, name, depth, max_depth) is None,
{
}

/// `main` and `MAIN` are both the program entry point: neither has a call
/// chain, at any depth and whatever the searches hold.
pub proof fn lemma_main_in_either_case(
    searches: Seq<SearchRecordView>,
    depth: nat,
    max_depth: nat,
)
    ensures
        main_name("main"@),
        main_name("MAIN"@),
        call_chain(searches, "main"@, depth, max_depth) == Seq::<EdgeView>::empty(),
        call_chain(searches, "MAIN"@, depth, max_depth) == Seq::<EdgeView>::empty(),
        chain_result(searches, "main"@, depth, max_depth) is None,
        chain_result(searches, "MAIN"@, depth, max_depth) is None,
{
    reveal_strlit("main");
    reveal_strlit("MAIN");
}

/// Below the ceiling nothing is looked for.
pub proof fn lemma_ceiling_ends_chain(
    searches: Seq<SearchRecordView>,
    name: Seq<char>,
    depth: nat,
    max_depth: nat,
)
    requires
        depth > max_depth,
    ensures
        call_chain(searches, name, depth, max_depth) == Seq::<EdgeView>::empty(),
        chain_result(searches, name, depth, max_depth) is None,
{
}

/// Whether no search on record found more than `width` callers.
pub open spec fn narrow(searches: Seq<SearchRecordView>, width: nat) -> bool {
    forall|name: Seq<char>|
        (#[trigger] found_for(searches, name)) matches Ok(found) ==> found.len() <= width
}

/// The most edges that a chain of `levels` levels can hold where no search
/// finds more than `width` callers: `width + width^2 + .. + width^levels`.
pub open spec fn most_edges(width: nat, levels: nat) -> nat
    decreases levels,
{
    if levels == 0 {
        0
    } else {
        width + width * most_edges(width, (levels - 1) as nat)
    }
}

/// The length of a call chain is bounded by the ceiling: it holds no more
/// edges than the levels from `depth` down to the ceiling can hold. This is
/// so whatever the searches answer, also where functions call each other in
/// a circle.
pub proof fn lemma_chain_bounded(
    searches: Seq<SearchRecordView>,
    name: Seq<char>,
    depth: nat,
    max_depth: nat,
    width: nat,
)
    requires
        narrow(searches, width),
    ensures
        call_chain(searches, name, depth, max_depth).len() <= most_edges(
            width,
            levels_left(depth, max_depth),
        ),
    decreases levels_left(depth, max_depth), 0nat,
{
    if expands(name, depth, max_depth) {
        match found_for(searches, name) {
            Err(_) => {},
            Ok(found) => {
                let callers = distinct(found);
                let below = most_edges(width, levels_left(depth + 1, max_depth));
                lemma_distinct(found);
                lemma_chains_bounded(searches, callers, depth + 1, max_depth, width);
                assert(callers.len() * below <= width * below) by (nonlinear_arith)
                    requires
                        callers.len() <= width,
                        below >= 0,
                ;
            },
        }
    }
}

/// The chains of some callers together hold no more edges than each of them
/// could hold at most.
pub proof fn lemma_chains_bounded(
    searches: Seq<SearchRecordView>,
    edges: Seq<EdgeView>,
    depth: nat,
    max_depth: nat,
    width: nat,
)
    requires
        narrow(searches, width),
    ensures
        chains_of(searches, edges, depth, max_depth).len() <= edges.len() * most_edges(
            width,
            levels_left(depth, max_depth),
        ),
    decreases levels_left(depth, max_depth), edges.len() + 1,
{
    let each = most_edges(width, levels_left(depth, max_depth));
    if edges.len() > 0 {
        lemma_chain_bounded(searches, edges[0].caller, depth, max_depth, width);
        lemma_chains_bounded(searches, edges.drop_first(), depth, max_depth, width);
        assert(each + (edges.len() - 1) * each == edges.len() * each) by (nonlinear_arith);
    } else {
        assert(edges.len() * each == 0) by (nonlinear_arith)
            requires
                edges.len() == 0,
        ;
    }
}

/// Where every search finds at most one caller, as along a circle of
/// functions that call each other, a chain holds at most one edge for each
/// level.
pub proof fn lemma_one_edge_per_level(levels: nat)
    ensures
        most_edges(1, levels) == levels,
    decreases levels,
{
    if levels > 0 {
        lemma_one_edge_per_level((levels - 1) as nat);
    }
}

/// Looks up what the search for the callers of `name` answered.
pub fn callers_recorded(searches: &Vec<SearchRecord>, name: &str) -> (r: Result<
    Vec<Edge>,
    SearchError,
>)
    ensures
        answer_view(r) == found_for(searches.deep_view(), name@),
{
    match find_record(searches, name) {
        Some(i) => get_callers(name, &searches[i].outcome),
        None => Err(SearchError::Launch),
    }
}

/// Builds the call chain of `name` from the searches on record.
///
/// `cnt` is the depth at which `name` stands and `max_cnt` the ceiling;
/// `path` and `callee` say how `name` was reached and do not bear on the
/// result. Nothing is returned for a name that stands below the ceiling, for
/// the program entry point, and where the search for the callers of `name`
/// failed or is not on record.
///
/// The chain is built on a work-list, not on the call stack. The walk comes
/// to an end whatever the searches hold, also where functions call each
/// other in a circle.
#[allow(unused_variables)]
pub fn get_callers_recursive(
    name: &str,
    path: &str,
    callee: &str,
    max_cnt: u32,
    cnt: u32,
    searches: &Vec<SearchRecord>,
) -> (r: Option<Vec<Edge>>)
    ensures
        r.deep_view() == chain_result(searches.deep_view(), name@, cnt as nat, max_cnt as nat),
{
    if cnt > max_cnt || is_main(name) {
        return None;
    }
    match find_record(searches, name) {
        None => {
            return None;
        },
        Some(i) => {
            if searches[i].outcome.is_err() {
                return None;
            }
        },
    }
    let ghost log = searches.deep_view();
    let ghost chain = call_chain(log, name@, cnt as nat, max_cnt as nat);
    let mut walk = Traversal::new(name, cnt, max_cnt);
    proof {
        lemma_start_outcome(log, name@, cnt as nat, max_cnt as nat);
    }
    loop
        invariant_except_break
            walk.deep_view().asked is None,
        invariant
            log == searches.deep_view(),
            walk.deep_view().wf(),
            walk.deep_view().outcome(log) == chain,
        ensures
            walk.deep_view().finished(),
        decreases walk.deep_view().remaining(log),
    {
        proof {
            lemma_asking_keeps_outcome(log, walk.deep_view());
        }
        match walk.next_query() {
            None => {
                break ;
            },
            Some(query) => {
                let found = callers_recorded(searches, query.name.as_str());
                proof {
                    lemma_answer_keeps_outcome(log, walk.deep_view(), answer_view(found));
                }
                walk.answer(found);
            },
        }
    }
    proof {
        lemma_finished_outcome(log, walk.deep_view());
    }
    Some(walk.finish())
}

} // verus!
