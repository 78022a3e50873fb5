//! The call chain built with an explicit work-list.
//!
//! A [`Traversal`] alternates between two moves. [`Traversal::next_query`]
//! names the function whose callers are wanted next; whoever drives the
//! traversal has them searched for and hands the answer to
//! [`Traversal::answer`]. The work-list is a stack, so that the edges are
//! gathered in the order of the recursive definition of the call chain:
//! those of one level first, then, caller by caller, those below it.
use crate::chain::{
    call_chain, chains_of, distinct, expands, found_for, is_main, lemma_distinct, levels_left,
    most_edges, narrow, unique, SearchRecordView,
};
use crate::edge::{Edge, EdgeView};
use crate::finder::{answer_view, SearchError};
use vstd::prelude::*;
use vstd::string::*;

verus! {

/// A function whose callers are wanted, and the depth at which it stands.
#[derive(Clone, Debug, PartialEq, Eq)]
pub struct Query {
    pub name: String,
    pub depth: u32,
}

/// The mathematical value of a [`Query`].
pub struct QueryView {
    pub name: Seq<char>,
    pub depth: nat,
}

impl DeepView for Query {
    type V = QueryView;

    open spec fn deep_view(&self) -> QueryView {
        QueryView { name: self.name@, depth: self.depth as nat }
    }
}

/// The mathematical value of a [`Traversal`].
pub struct TraversalView {
    /// The depth ceiling.
    pub max_depth: nat,
    /// The work-list; its last query is taken first.
    pub pending: Seq<QueryView>,
    /// The query that was handed out and not answered yet.
    pub asked: Option<QueryView>,
    /// The edges gathered so far.
    pub edges: Seq<EdgeView>,
}

/// The queries for the callers in `edges` at `depth`, last caller first.
pub open spec fn queries_for(edges: Seq<EdgeView>, depth: nat) -> Seq<QueryView> {
    Seq::new(
        edges.len(),
        |i: int| QueryView { name: edges[edges.len() - 1 - i].caller, depth: depth },
    )
}

/// `pending` without the queries at its end that are not looked into.
pub open spec fn settled(pending: Seq<QueryView>, max_depth: nat) -> Seq<QueryView>
    decreases pending.len(),
{
    if pending.len() == 0 {
        pending
    } else if expands(pending.last().name, pending.last().depth, max_depth) {
        pending
    } else {
        settled(pending.drop_last(), max_depth)
    }
}

/// The edges that the queries of `pending` still stand for, according to
/// `searches`.
pub open spec fn backlog(
    searches: Seq<SearchRecordView>,
    pending: Seq<QueryView>,
    max_depth: nat,
) -> Seq<EdgeView>
    decreases pending.len(),
{
    if pending.len() == 0 {
        Seq::empty()
    } else {
        call_chain(searches, pending.last().name, pending.last().depth, max_depth) + backlog(
            searches,
            pending.drop_last(),
            max_depth,
        )
    }
}

impl TraversalView {
    /// The traversal that is to build the call chain of `name` from `depth`.
    pub open spec fn start(name: Seq<char>, depth: nat, max_depth: nat) -> TraversalView {
        TraversalView {
            max_depth,
            pending: seq![QueryView { name, depth }],
            asked: None,
            edges: Seq::empty(),
        }
    }

    /// A query that was handed out is one that is looked into.
    pub open spec fn wf(self) -> bool {
        self.asked matches Some(q) ==> expands(q.name, q.depth, self.max_depth)
    }

    /// Nothing is left to ask.
    pub open spec fn finished(self) -> bool {
        self.asked is None && settled(self.pending, self.max_depth).len() == 0
    }

    /// The query to answer next: the one that is waiting for its answer, or
    /// else the last of the work-list that is looked into.
    pub open spec fn query(self) -> Option<QueryView> {
        if self.asked is Some {
            self.asked
        } else {
            let rest = settled(self.pending, self.max_depth);
            if rest.len() == 0 {
                None
            } else {
                Some(rest.last())
            }
        }
    }

    /// The traversal after `query` was handed out.
    pub open spec fn asking(self) -> TraversalView {
        if self.asked is Some {
            self
        } else {
            let rest = settled(self.pending, self.max_depth);
            if rest.len() == 0 {
                TraversalView { pending: rest, ..self }
            } else {
                TraversalView { pending: rest.drop_last(), asked: Some(rest.last()), ..self }
            }
        }
    }

    /// The traversal after the query that was handed out got `found` for an
    /// answer. The edges found join the edges gathered; their distinct
    /// callers join the work-list one level deeper, unless that is below the
    /// ceiling. A failed search counts as one that found nothing.
    pub open spec fn answered(self, found: Result<Seq<EdgeView>, SearchError>) -> TraversalView {
        match (self.asked, found) {
            (None, _) => self,
            (Some(_), Err(_)) => TraversalView { asked: None, ..self },
            (Some(q), Ok(edges)) => TraversalView {
                asked: None,
                edges: self.edges + edges,
                pending: if q.depth < self.max_depth {
                    self.pending + queries_for(distinct(edges), q.depth + 1)
                } else {
                    self.pending
                },
                ..self
            },
        }
    }

    /// The number of queries that still leave the work-list, or wait for
    /// their answer, if every answer is the one that `searches` gives.
    pub open spec fn remaining(self, searches: Seq<SearchRecordView>) -> nat {
        effort(searches, self.pending, self.max_depth) + match self.asked {
            Some(q) => steps(searches, q.name, q.depth, self.max_depth),
            None => 0,
        }
    }

    /// The edges that the traversal ends with if every answer is the one
    /// that `searches` gives.
    pub open spec fn outcome(self, searches: Seq<SearchRecordView>) -> Seq<EdgeView> {
        self.edges + match self.asked {
            Some(q) => call_chain(searches, q.name, q.depth, self.max_depth),
            None => Seq::empty(),
        } + backlog(searches, self.pending, self.max_depth)
    }
}

/// The number of queries that leave the work-list on account of the query
/// for `name` at `depth`: the query itself, and those for the callers below
/// it.
pub open spec fn steps(
    searches: Seq<SearchRecordView>,
    name: Seq<char>,
    depth: nat,
    max_depth: nat,
) -> nat
    decreases levels_left(depth, max_depth), 0nat,
{
    if !expands(name, depth, max_depth) {
        1
    } else {
        match found_for(searches, name) {
            Err(_) => 1,
            Ok(found) => 1 + steps_of(searches, distinct(found), depth + 1, max_depth),
        }
    }
}

/// The sum of `steps` over the callers in `edges`.
pub open spec fn steps_of(
    searches: Seq<SearchRecordView>,
    edges: Seq<EdgeView>,
    depth: nat,
    max_depth: nat,
) -> nat
    decreases levels_left(depth, max_depth), edges.len() + 1,
{
    if edges.len() == 0 {
        0
    } else {
        steps(searches, edges[0].caller, depth, max_depth) + steps_of(
            searches,
            edges.drop_first(),
            depth,
            max_depth,
        )
    }
}

/// The sum of `steps` over the queries of `pending`.
pub open spec fn effort(
    searches: Seq<SearchRecordView>,
    pending: Seq<QueryView>,
    max_depth: nat,
) -> nat
    decreases pending.len(),
{
    if pending.len() == 0 {
        0
    } else {
        steps(searches, pending.last().name, pending.last().depth, max_depth) + effort(
            searches,
            pending.drop_last(),
            max_depth,
        )
    }
}

/// Below the ceiling there are no call chains.
pub proof fn lemma_no_chains_below_ceiling(
    searches: Seq<SearchRecordView>,
    edges: Seq<EdgeView>,
    depth: nat,
    max_depth: nat,
)
    requires
        depth > max_depth,
    ensures
        chains_of(searches, edges, depth, max_depth) == Seq::<EdgeView>::empty(),
    decreases edges.len(),
{
    if edges.len() > 0 {
        lemma_no_chains_below_ceiling(searches, edges.drop_first(), depth, max_depth);
        assert(call_chain(searches, edges[0].caller, depth, max_depth) + Seq::<EdgeView>::empty()
            =~= Seq::<EdgeView>::empty());
    }
}

/// Queries that are not looked into stand for no edges.
proof fn lemma_backlog_settled(
    searches: Seq<SearchRecordView>,
    pending: Seq<QueryView>,
    max_depth: nat,
)
    ensures
        backlog(searches, settled(pending, max_depth), max_depth) == backlog(
            searches,
            pending,
            max_depth,
        ),
        effort(searches, settled(pending, max_depth), max_depth) <= effort(
            searches,
            pending,
            max_depth,
        ),
        settled(pending, max_depth).len() > 0 ==> expands(
            settled(pending, max_depth).last().name,
            settled(pending, max_depth).last().depth,
            max_depth,
        ),
    decreases pending.len(),
{
    if pending.len() > 0 && !expands(pending.last().name, pending.last().depth, max_depth) {
        lemma_backlog_settled(searches, pending.drop_last(), max_depth);
    }
}

/// The queries for some callers, put on top of a work-list, stand for the
/// call chains of those callers, in their order, before what the work-list
/// stood for.
proof fn lemma_backlog_queries(
    searches: Seq<SearchRecordView>,
    pending: Seq<QueryView>,
    edges: Seq<EdgeView>,
    depth: nat,
    max_depth: nat,
)
    ensures
        backlog(searches, pending + queries_for(edges, depth), max_depth) == chains_of(
            searches,
            edges,
            depth,
            max_depth,
        ) + backlog(searches, pending, max_depth),
        effort(searches, pending + queries_for(edges, depth), max_depth) == steps_of(
            searches,
            edges,
            depth,
            max_depth,
        ) + effort(searches, pending, max_depth),
    decreases edges.len(),
{
    if edges.len() > 0 {
        let rest = edges.drop_first();
        let first = QueryView { name: edges[0].caller, depth };
        let below = pending + queries_for(rest, depth);
        lemma_backlog_queries(searches, pending, rest, depth, max_depth);
        assert(pending + queries_for(edges, depth) =~= below.push(first));
        assert(below.push(first).drop_last() =~= below);
    }
}

/// Where no search finds more than `width` callers, the query for a name
/// takes no more queries off the work-list than one for the name itself and
/// one for every edge that the levels below can hold.
pub proof fn lemma_steps_bounded(
    searches: Seq<SearchRecordView>,
    name: Seq<char>,
    depth: nat,
    max_depth: nat,
    width: nat,
)
    requires
        narrow(searches, width),
    ensures
        steps(searches, name, depth, max_depth) <= 1 + most_edges(
            width,
            levels_left(depth, max_depth),
        ),
    decreases levels_left(depth, max_depth), 0nat,
{
    if expands(name, depth, max_depth) {
        match found_for(searches, name) {
            Err(_) => {},
            Ok(found) => {
                let callers = distinct(found);
                let below = most_edges(width, levels_left(depth + 1, max_depth));
                lemma_distinct(found);
                lemma_steps_of_bounded(searches, callers, depth + 1, max_depth, width);
                assert(callers.len() * (1 + below) <= width + width * below) by (nonlinear_arith)
                    requires
                        callers.len() <= width,
                        below >= 0,
                ;
            },
        }
    }
}

/// The queries for some callers together take no more queries off the
/// work-list than each of them could take at most.
pub proof fn lemma_steps_of_bounded(
    searches: Seq<SearchRecordView>,
    edges: Seq<EdgeView>,
    depth: nat,
    max_depth: nat,
    width: nat,
)
    requires
        narrow(searches, width),
    ensures
        steps_of(searches, edges, depth, max_depth) <= edges.len() * (1 + most_edges(
            width,
            levels_left(depth, max_depth),
        )),
    decreases levels_left(depth, max_depth), edges.len() + 1,
{
    let each = 1 + most_edges(width, levels_left(depth, max_depth));
    if edges.len() > 0 {
        lemma_steps_bounded(searches, edges[0].caller, depth, max_depth, width);
        lemma_steps_of_bounded(searches, edges.drop_first(), depth, max_depth, width);
        assert(each + (edges.len() - 1) * each == edges.len() * each) by (nonlinear_arith);
    } else {
        assert(edges.len() * each == 0) by (nonlinear_arith)
            requires
                edges.len() == 0,
        ;
    }
}

/// A traversal that starts for a name ends with the call chain of that name,
/// after as many queries as that name stands for.
pub proof fn lemma_start_outcome(
    searches: Seq<SearchRecordView>,
    name: Seq<char>,
    depth: nat,
    max_depth: nat,
)
    ensures
        TraversalView::start(name, depth, max_depth).outcome(searches) == call_chain(
            searches,
            name,
            depth,
            max_depth,
        ),
        TraversalView::start(name, depth, max_depth).wf(),
        TraversalView::start(name, depth, max_depth).remaining(searches) == steps(
            searches,
            name,
            depth,
            max_depth,
        ),
{
    let t = TraversalView::start(name, depth, max_depth);
    let none = Seq::<QueryView>::empty();
    assert(t.pending.drop_last() =~= none);
    assert(effort(searches, none, max_depth) == 0);
    assert(backlog(searches, none, max_depth) =~= Seq::<EdgeView>::empty());
}

/// Handing out the next query changes neither what the traversal ends with
/// nor, for the worse, how long it takes.
pub proof fn lemma_asking_keeps_outcome(searches: Seq<SearchRecordView>, t: TraversalView)
    requires
        t.wf(),
    ensures
        t.asking().wf(),
        t.asking().outcome(searches) == t.outcome(searches),
        t.asking().remaining(searches) <= t.remaining(searches),
        t.asking().asked == t.query(),
        t.query() is None ==> t.asking().finished() && t.asking().pending.len() == 0,
{
    if t.asked is None {
        lemma_backlog_settled(searches, t.pending, t.max_depth);
    }
}

/// Where the answer to the query that was handed out is the one that
/// `searches` gives, taking it does not change what the traversal ends with,
/// and brings the end nearer.
pub proof fn lemma_answer_keeps_outcome(
    searches: Seq<SearchRecordView>,
    t: TraversalView,
    found: Result<Seq<EdgeView>, SearchError>,
)
    requires
        t.wf(),
        t.asked matches Some(q) && found == found_for(searches, q.name),
    ensures
        t.answered(found).wf(),
        t.answered(found).asked is None,
        t.answered(found).outcome(searches) == t.outcome(searches),
        t.answered(found).remaining(searches) < t.remaining(searches),
{
    let q = t.asked->0;
    match found {
        Err(_) => {},
        Ok(edges) => {
            let callers = distinct(edges);
            if q.depth < t.max_depth {
                lemma_backlog_queries(searches, t.pending, callers, q.depth + 1, t.max_depth);
            } else {
                lemma_no_chains_below_ceiling(searches, callers, q.depth + 1, t.max_depth);
            }
        },
    }
}

/// A traversal with nothing left to ask has gathered what it ends with.
pub proof fn lemma_finished_outcome(searches: Seq<SearchRecordView>, t: TraversalView)
    requires
        t.finished(),
    ensures
        t.outcome(searches) == t.edges,
{
    lemma_backlog_settled(searches, t.pending, t.max_depth);
}

/// The state of a walk up the call chain of one function.
#[derive(Debug)]
pub struct Traversal {
    max_depth: u32,
    pending: Vec<Query>,
    asked: Option<Query>,
    edges: Vec<Edge>,
}

impl DeepView for Traversal {
    type V = TraversalView;

    closed spec fn deep_view(&self) -> TraversalView {
        TraversalView {
            max_depth: self.max_depth as nat,
            pending: self.pending.deep_view(),
            asked: self.asked.deep_view(),
            edges: self.edges.deep_view(),
        }
    }
}

impl Traversal {
    /// Starts the traversal for the call chain of `name` from `depth` down
    /// to `max_depth`.
    pub fn new(name: &str, depth: u32, max_depth: u32) -> (t: Traversal)
        ensures
            t.deep_view() == TraversalView::start(name@, depth as nat, max_depth as nat),
            t.deep_view().wf(),
    {
        let mut pending: Vec<Query> = Vec::new();
        let first = Query { name: name.to_owned(), depth };
        pending.push(first);
        let t = Traversal { max_depth, pending, asked: None, edges: Vec::new() };
        assert(t.pending.deep_view() =~= seq![first.deep_view()]);
        assert(t.edges.deep_view() =~= Seq::empty());
        t
    }

    /// Names the query to answer next, or nothing when the traversal is
    /// over. Queries that are not looked into leave the work-list on the
    /// way. A query that is waiting for its answer is named again.
    pub fn next_query(&mut self) -> (r: Option<Query>)
        ensures
            final(self).deep_view() == old(self).deep_view().asking(),
            r.deep_view() == old(self).deep_view().query(),
            old(self).deep_view().wf() ==> final(self).deep_view().wf(),
    {
        if let Some(q) = &self.asked {
            return Some(Query { name: q.name.clone(), depth: q.depth });
        }
        let ghost before = self.deep_view();
        loop
            invariant
                before == old(self).deep_view(),
                self.asked is None,
                self.max_depth == before.max_depth,
                self.edges.deep_view() == before.edges,
                before.asked is None,
                settled(self.pending.deep_view(), before.max_depth) == settled(
                    before.pending,
                    before.max_depth,
                ),
            decreases self.pending.len(),
        {
            let ghost stack = self.pending.deep_view();
            match self.pending.pop() {
                None => {
                    return None;
                },
                Some(q) => {
                    assert(self.pending.deep_view() =~= stack.drop_last());
                    if q.depth <= self.max_depth && !is_main(q.name.as_str()) {
                        let r = Query { name: q.name.clone(), depth: q.depth };
                        self.asked = Some(q);
                        return Some(r);
                    }
                },
            }
        }
    }

    /// Takes the answer to the query that was handed out: the callers
    /// found, or the error of the search. Without such a query the answer
    /// is dropped.
    pub fn answer(&mut self, found: Result<Vec<Edge>, SearchError>)
        ensures
            final(self).deep_view() == old(self).deep_view().answered(answer_view(found)),
            final(self).deep_view().wf(),
    {
        let ghost before = self.deep_view();
        match self.asked.take() {
            None => {},
            Some(q) => match found {
                Err(_) => {},
                Ok(mut edges) => {
                    let ghost found_edges = edges.deep_view();
                    if q.depth < self.max_depth {
                        let callers = unique(&edges);
                        let ghost queries = queries_for(distinct(found_edges), q.depth as nat + 1);
                        let mut i: usize = callers.len();
                        while i > 0
                            invariant
                                i <= callers.len(),
                                self.asked is None,
                                self.max_depth == before.max_depth,
                                q.depth < self.max_depth,
                                self.edges.deep_view() == before.edges,
                                callers.deep_view() == distinct(found_edges),
                                queries == queries_for(distinct(found_edges), q.depth as nat + 1),
                                self.pending.deep_view() == before.pending + queries.take(
                                    callers.len() - i,
                                ),
                            decreases i,
                        {
                            i -= 1;
                            let ghost stack = self.pending.deep_view();
                            let query = Query { name: callers[i].caller.clone(), depth: q.depth + 1 };
                            self.pending.push(query);
                            assert(self.pending.deep_view() =~= stack.push(query.deep_view()));
                        }
                        assert(queries.take(callers.len() as int) =~= queries);
                    }
                    let ghost gathered = self.edges.deep_view();
                    self.edges.append(&mut edges);
                    assert(self.edges.deep_view() =~= gathered + found_edges);
                },
            },
        }
    }

    /// The depth ceiling.
    pub fn max_depth(&self) -> (r: u32)
        ensures
            r == self.deep_view().max_depth,
    {
        self.max_depth
    }

    /// The edges gathered so far.
    pub fn edges(&self) -> (r: &Vec<Edge>)
        ensures
            r.deep_view() == self.deep_view().edges,
    {
        &self.edges
    }

    /// Ends the traversal and hands out the edges gathered.
    pub fn finish(self) -> (r: Vec<Edge>)
        ensures
            r.deep_view() == self.deep_view().edges,
    {
        self.edges
    }
}

} // verus!
