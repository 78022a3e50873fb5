//! From the output of one search to the callers of one function.
//!
//! A search for the callers of `callee` is run twice, once over C files and
//! once over headers. Every classified line of the first run is an edge. The
//! lines of the second run are read with a small state machine that stitches
//! the name on the opening line of a multi-line macro to the call found on
//! one of its later lines.
use crate::classify::{classify, decide, facts_of_each, observe_each};
use crate::edge::{Edge, EdgeView};
use vstd::prelude::*;
use vstd::string::*;

verus! {

/// Why a search gave no output to read.
#[derive(Clone, Copy, PartialEq, Eq, Structural, Debug)]
pub enum SearchError {
    /// The search could not be started.
    Launch,
    /// The search started, but its output could not be read or it ended
    /// abnormally.
    Runtime,
}

/// The lines that the two runs of one search printed.
#[derive(Clone, Debug, PartialEq, Eq)]
pub struct SearchOutput {
    /// Lines of the run over C files, in output order.
    pub c_lines: Vec<String>,
    /// Lines of the run over headers, in output order.
    pub h_lines: Vec<String>,
}

/// The mathematical value of a [`SearchOutput`].
pub struct SearchOutputView {
    pub c_lines: Seq<Seq<char>>,
    pub h_lines: Seq<Seq<char>>,
}

impl DeepView for SearchOutput {
    type V = SearchOutputView;

    open spec fn deep_view(&self) -> SearchOutputView {
        SearchOutputView { c_lines: self.c_lines.deep_view(), h_lines: self.h_lines.deep_view() }
    }
}

/// The mathematical value of the outcome of a search.
pub open spec fn outcome_view(outcome: Result<SearchOutput, SearchError>) -> Result<
    SearchOutputView,
    SearchError,
> {
    match outcome {
        Ok(output) => Ok(output.deep_view()),
        Err(e) => Err(e),
    }
}

/// The mathematical value of the answer to a search.
pub open spec fn answer_view(found: Result<Vec<Edge>, SearchError>) -> Result<
    Seq<EdgeView>,
    SearchError,
> {
    match found {
        Ok(edges) => Ok(edges.deep_view()),
        Err(e) => Err(e),
    }
}

/// The files that the first run of a search goes over.
pub const SOURCE_FILES: &'static str = "*.c";

/// The files that the second run of a search goes over.
pub const HEADER_FILES: &'static str = "*.h";

/// The expression handed to the search: `callee` followed by an opening
/// parenthesis and preceded by one or more of `*`, space and `(`.
pub open spec fn call_expression(callee: Seq<char>) -> Seq<char> {
    "[\\* \\(]+"@ + callee + "\\("@
}

/// Builds the expression that finds calls of `name`.
pub fn search_pattern(name: &str) -> (r: String)
    ensures
        r@ == call_expression(name@),
{
    String::from_str("[\\* \\(]+").concat(name).concat("\\(")
}

/// Whether a search that ended with `exit_code` ended normally: with 0,
/// having printed matches, or with 1, having found none.
pub open spec fn ended_normally(exit_code: Option<i32>) -> bool {
    exit_code == Some(0i32) || exit_code == Some(1i32)
}

/// Judges the way a search ended. `exit_code` is `None` where the search was
/// ended by a signal.
pub fn search_status(exit_code: Option<i32>) -> (r: Result<(), SearchError>)
    ensures
        ended_normally(exit_code) ==> r is Ok,
        !ended_normally(exit_code) ==> r == Err::<(), SearchError>(SearchError::Runtime),
{
    match exit_code {
        Some(code) => if code == 0 || code == 1 {
            Ok(())
        } else {
            Err(SearchError::Runtime)
        },
        None => Err(SearchError::Runtime),
    }
}

/// The state carried from one header line to the next.
///
/// A name is pending only while a multi-line macro is open, and it is never
/// empty.
#[derive(Debug)]
pub struct MacroState {
    in_multiline: bool,
    pending: Option<String>,
}

/// The mathematical value of a [`MacroState`].
pub struct MacroStateView {
    pub in_multiline: bool,
    pub pending: Option<Seq<char>>,
}

impl MacroStateView {
    /// The state outside any macro.
    pub open spec fn idle() -> MacroStateView {
        MacroStateView { in_multiline: false, pending: None }
    }

    /// A name is pending only while a macro is open, and is not empty.
    pub open spec fn wf(self) -> bool {
        self.pending matches Some(name) ==> self.in_multiline && name.len() > 0
    }

    /// The edge that a classified line gives in this state.
    ///
    /// Inside a macro, a line whose name is the callee itself confirms the
    /// pending macro as a caller. Outside, every line that does not open a
    /// macro names a caller.
    pub open spec fn emitted(
        self,
        callee: Seq<char>,
        classified: Option<(Seq<char>, Seq<char>, bool)>,
    ) -> Option<EdgeView> {
        match classified {
            None => None,
            Some((name, path, continues)) => if self.in_multiline {
                match self.pending {
                    Some(caller) => if name == callee {
                        Some(EdgeView { caller, path, callee })
                    } else {
                        None
                    },
                    None => None,
                }
            } else if !continues {
                Some(EdgeView { caller: name, path, callee })
            } else {
                None
            },
        }
    }

    /// The state after a classified line.
    ///
    /// A line that opens or continues a macro keeps the macro open and
    /// remembers its name, if it has one; any other line, classified or not,
    /// resets the state.
    pub open spec fn next(self, classified: Option<(Seq<char>, Seq<char>, bool)>) -> MacroStateView {
        match classified {
            Some((name, _, true)) => MacroStateView {
                in_multiline: true,
                pending: if name.len() > 0 {
                    Some(name)
                } else {
                    self.pending
                },
            },
            _ => MacroStateView::idle(),
        }
    }
}

impl DeepView for MacroState {
    type V = MacroStateView;

    closed spec fn deep_view(&self) -> MacroStateView {
        MacroStateView { in_multiline: self.in_multiline, pending: self.pending.deep_view() }
    }
}

impl MacroState {
    #[verifier::type_invariant]
    spec fn inv(self) -> bool {
        self.deep_view().wf()
    }

    /// The state before the first line.
    pub fn idle() -> (s: MacroState)
        ensures
            s.deep_view() == MacroStateView::idle(),
    {
        MacroState { in_multiline: false, pending: None }
    }

    /// Whether a multi-line macro is open.
    pub fn in_multiline(&self) -> (r: bool)
        ensures
            r == self.deep_view().in_multiline,
            self.deep_view().wf(),
    {
        proof {
            use_type_invariant(self);
        }
        self.in_multiline
    }

    /// Takes one classified line: returns the state after it and the edge
    /// that it gives, if any.
    pub fn step(self, callee: &str, classified: Option<(String, String, bool)>) -> (r: (
        MacroState,
        Option<Edge>,
    ))
        ensures
            r.0.deep_view() == self.deep_view().next(classified.deep_view()),
            r.1.deep_view() == self.deep_view().emitted(callee@, classified.deep_view()),
    {
        proof {
            use_type_invariant(&self);
        }
        match classified {
            None => (MacroState::idle(), None),
            Some((name, path, continues)) => {
                let target = callee.to_owned();
                let emitted = if self.in_multiline {
                    match &self.pending {
                        Some(caller) => if name == target {
                            Some(Edge::new(caller.clone(), path, target))
                        } else {
                            None
                        },
                        None => None,
                    }
                } else if !continues {
                    Some(Edge::new(name.clone(), path, target))
                } else {
                    None
                };
                let next = if continues {
                    if name.as_str().is_empty() {
                        MacroState { in_multiline: true, pending: self.pending }
                    } else {
                        MacroState { in_multiline: true, pending: Some(name) }
                    }
                } else {
                    MacroState::idle()
                };
                (next, emitted)
            },
        }
    }
}

/// The edges that the lines of a run over C files give: one for every line
/// that classifies, in line order. No macro is ever open in a C file.
pub open spec fn source_edges(callee: Seq<char>, lines: Seq<Seq<char>>) -> Seq<EdgeView>
    decreases lines.len(),
{
    if lines.len() == 0 {
        Seq::empty()
    } else {
        let before = source_edges(callee, lines.drop_last());
        match classify(callee, lines.last(), false) {
            Some((name, path, _)) => before.push(EdgeView { caller: name, path, callee }),
            None => before,
        }
    }
}

/// The state after the lines of a run over headers, and the edges that they
/// give, in line order.
pub open spec fn header_scan(callee: Seq<char>, lines: Seq<Seq<char>>) -> (
    MacroStateView,
    Seq<EdgeView>,
)
    decreases lines.len(),
{
    if lines.len() == 0 {
        (MacroStateView::idle(), Seq::empty())
    } else {
        let (state, before) = header_scan(callee, lines.drop_last());
        let classified = classify(callee, lines.last(), state.in_multiline);
        (
            state.next(classified),
            match state.emitted(callee, classified) {
                Some(edge) => before.push(edge),
                None => before,
            },
        )
    }
}

/// The edges that the lines of a run over headers give.
pub open spec fn header_edges(callee: Seq<char>, lines: Seq<Seq<char>>) -> Seq<EdgeView> {
    header_scan(callee, lines).1
}

/// The callers of `callee` according to the output of one search: those
/// found in C files, then those found in headers.
pub open spec fn callers(callee: Seq<char>, output: SearchOutputView) -> Seq<EdgeView> {
    source_edges(callee, output.c_lines) + header_edges(callee, output.h_lines)
}

/// What a search for the callers of `callee` answers: the error of a search
/// that failed, the callers otherwise.
pub open spec fn answer(callee: Seq<char>, outcome: Result<SearchOutputView, SearchError>) -> Result<
    Seq<EdgeView>,
    SearchError,
> {
    match outcome {
        Ok(output) => Ok(callers(callee, output)),
        Err(e) => Err(e),
    }
}

/// The first `n + 1` lines end in line `n`, after the first `n`.
proof fn lemma_take_next(lines: &Vec<String>, n: int)
    requires
        0 <= n < lines.len(),
    ensures
        lines.deep_view().take(n + 1).drop_last() == lines.deep_view().take(n),
        lines.deep_view().take(n + 1).last() == lines[n]@,
{
}

/// Finds the callers named by the lines of a run over C files.
pub fn callers_in_sources(name: &str, lines: &Vec<String>) -> (edges: Vec<Edge>)
    ensures
        edges.deep_view() == source_edges(name@, lines.deep_view()),
{
    let facts = observe_each(name, lines);
    let mut edges: Vec<Edge> = Vec::new();
    let mut i: usize = 0;
    while i < lines.len()
        invariant
            i <= lines.len(),
            facts.len() == lines.len(),
            facts.deep_view() == facts_of_each(name@, lines.deep_view()),
            edges.deep_view() == source_edges(name@, lines.deep_view().take(i as int)),
        decreases lines.len() - i,
    {
        proof {
            lemma_take_next(lines, i as int);
            assert(facts.deep_view()[i as int] == facts[i as int].deep_view());
        }
        match decide(&facts[i], false) {
            Some((caller, path, _)) => {
                edges.push(Edge::new(caller, path, name.to_owned()));
            },
            None => {},
        }
        i += 1;
    }
    assert(lines.deep_view().take(i as int) =~= lines.deep_view());
    edges
}

/// Finds the callers named by the lines of a run over headers.
pub fn callers_in_headers(name: &str, lines: &Vec<String>) -> (edges: Vec<Edge>)
    ensures
        edges.deep_view() == header_edges(name@, lines.deep_view()),
{
    let facts = observe_each(name, lines);
    let mut edges: Vec<Edge> = Vec::new();
    let mut state = MacroState::idle();
    let mut i: usize = 0;
    while i < lines.len()
        invariant
            i <= lines.len(),
            facts.len() == lines.len(),
            facts.deep_view() == facts_of_each(name@, lines.deep_view()),
            (state.deep_view(), edges.deep_view()) == header_scan(
                name@,
                lines.deep_view().take(i as int),
            ),
        decreases lines.len() - i,
    {
        proof {
            lemma_take_next(lines, i as int);
            assert(facts.deep_view()[i as int] == facts[i as int].deep_view());
        }
        let classified = decide(&facts[i], state.in_multiline());
        let (next, emitted) = state.step(name, classified);
        state = next;
        match emitted {
            Some(edge) => {
                edges.push(edge);
            },
            None => {},
        }
        i += 1;
    }
    assert(lines.deep_view().take(i as int) =~= lines.deep_view());
    edges
}

/// Turns the outcome of one search for the callers of `name` into edges. A
/// search that failed keeps its error; one that printed nothing has no
/// callers.
pub fn get_callers(name: &str, outcome: &Result<SearchOutput, SearchError>) -> (r: Result<
    Vec<Edge>,
    SearchError,
>)
    ensures
        answer_view(r) == answer(name@, outcome_view(*outcome)),
{
    match outcome {
        Ok(output) => {
            let mut edges = callers_in_sources(name, &output.c_lines);
            let mut more = callers_in_headers(name, &output.h_lines);
            let ghost first = edges.deep_view();
            let ghost second = more.deep_view();
            edges.append(&mut more);
            assert(edges.deep_view() =~= first + second);
            Ok(edges)
        },
        Err(e) => Err(*e),
    }
}

/// Every step leaves the state well formed.
pub proof fn lemma_next_wf(state: MacroStateView, classified: Option<(Seq<char>, Seq<char>, bool)>)
    requires
        state.wf(),
    ensures
        state.next(classified).wf(),
        classified is None ==> state.next(classified) == MacroStateView::idle(),
{
}

/// The state after any lines is well formed.
pub proof fn lemma_header_scan_wf(callee: Seq<char>, lines: Seq<Seq<char>>)
    ensures
        header_scan(callee, lines).0.wf(),
    decreases lines.len(),
{
    if lines.len() > 0 {
        lemma_header_scan_wf(callee, lines.drop_last());
        let state = header_scan(callee, lines.drop_last()).0;
        lemma_next_wf(state, classify(callee, lines.last(), state.in_multiline));
    }
}

/// A multi-line macro gives one edge, not one per line.
///
/// Take three header lines: one that opens a macro named `name`, one that
/// continues it, and one on which the callee is called. Read in this order
/// from the idle state, they give exactly one edge, from `name` to the
/// callee, at the path of the third line, and leave the state idle.
pub proof fn lemma_multiline_macro_gives_one_edge(
    callee: Seq<char>,
    opening: Seq<char>,
    body: Seq<char>,
    call: Seq<char>,
    name: Seq<char>,
    opening_path: Seq<char>,
    body_path: Seq<char>,
    call_path: Seq<char>,
)
    requires
        callee.len() > 0,
        name.len() > 0,
        classify(callee, opening, false) == Some((name, opening_path, true)),
        classify(callee, body, true) == Some((Seq::<char>::empty(), body_path, true)),
        classify(callee, call, true) == Some((callee, call_path, false)),
    ensures
        header_scan(callee, seq![opening, body, call]) == (
            MacroStateView::idle(),
            seq![EdgeView { caller: name, path: call_path, callee }],
        ),
{
    let none = Seq::<Seq<char>>::empty();
    let one = seq![opening];
    let two = seq![opening, body];
    let three = seq![opening, body, call];
    assert(one.drop_last() =~= none);
    assert(two.drop_last() =~= one);
    assert(three.drop_last() =~= two);
    let open = MacroStateView { in_multiline: true, pending: Some(name) };
    assert(header_scan(callee, none) == (MacroStateView::idle(), Seq::<EdgeView>::empty()));
    assert(header_scan(callee, one) == (open, Seq::<EdgeView>::empty()));
    assert(header_scan(callee, two) == (open, Seq::<EdgeView>::empty()));
}

/// The lines of a run over C files give at most one edge each, and every
/// edge is one to the callee searched for.
pub proof fn lemma_source_edges(callee: Seq<char>, lines: Seq<Seq<char>>)
    ensures
        source_edges(callee, lines).len() <= lines.len(),
        forall|i: int|
            0 <= i < source_edges(callee, lines).len() ==> (#[trigger] source_edges(
                callee,
                lines,
            )[i]).callee == callee,
    decreases lines.len(),
{
    if lines.len() > 0 {
        lemma_source_edges(callee, lines.drop_last());
    }
}

/// The lines of a run over headers give at most one edge each, and every
/// edge is one to the callee searched for.
pub proof fn lemma_header_edges(callee: Seq<char>, lines: Seq<Seq<char>>)
    ensures
        header_edges(callee, lines).len() <= lines.len(),
        forall|i: int|
            0 <= i < header_edges(callee, lines).len() ==> (#[trigger] header_edges(
                callee,
                lines,
            )[i]).callee == callee,
    decreases lines.len(),
{
    if lines.len() > 0 {
        lemma_header_edges(callee, lines.drop_last());
    }
}

/// A search that printed nothing has no callers.
pub proof fn lemma_no_lines_no_callers(callee: Seq<char>)
    ensures
        callers(
            callee,
            SearchOutputView { c_lines: Seq::empty(), h_lines: Seq::empty() },
        ) == Seq::<EdgeView>::empty(),
{
}

} // verus!
