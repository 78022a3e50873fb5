//! Edges as lines of text.
//!
//! A call chain is reported under a header that names the function asked
//! about, one entry for every edge. While a chain is being built, the edges
//! found below the function asked about can be traced, each tagged with the
//! depth of the search that found it.
use crate::edge::{Edge, EdgeView};
use vstd::prelude::*;
use vstd::string::*;

verus! {

/// The header of the report on the call chain of `name`.
pub open spec fn header(name: Seq<char>) -> Seq<char> {
    "++ Call chain for "@ + name
}

/// The entry of the report for `edge`: caller and callee on one line, the
/// path on the next.
pub open spec fn entry(edge: EdgeView) -> Seq<char> {
    " + Function: "@ + edge.caller + ", calling: "@ + edge.callee + "\n\tpath: "@ + edge.path
}

/// The entries for `edges`, in their order.
pub open spec fn entries(edges: Seq<EdgeView>) -> Seq<Seq<char>> {
    Seq::new(edges.len(), |i: int| entry(edges[i]))
}

/// The decimal digit for `d`.
pub open spec fn digit(d: nat) -> char {
    if d == 0 {
        '0'
    } else if d == 1 {
        '1'
    } else if d == 2 {
        '2'
    } else if d == 3 {
        '3'
    } else if d == 4 {
        '4'
    } else if d == 5 {
        '5'
    } else if d == 6 {
        '6'
    } else if d == 7 {
        '7'
    } else if d == 8 {
        '8'
    } else {
        '9'
    }
}

/// `n` in decimal, without leading zeros.
pub open spec fn decimal(n: nat) -> Seq<char>
    decreases n,
{
    if n < 10 {
        seq![digit(n)]
    } else {
        decimal(n / 10).push(digit(n % 10))
    }
}

/// The trace line for an edge found by a search at `depth`: the depth in
/// brackets, then the report entry.
pub open spec fn traced(edge: EdgeView, depth: nat) -> Seq<char> {
    "["@ + decimal(depth) + "]"@ + entry(edge)
}

/// The trace of the edges found by one search at `depth`. The search for
/// the function asked about, at depth 0, leaves no trace.
pub open spec fn trace(found: Seq<EdgeView>, depth: nat) -> Seq<Seq<char>> {
    if depth == 0 {
        Seq::empty()
    } else {
        Seq::new(found.len(), |i: int| traced(found[i], depth))
    }
}

/// Writes the header of the report on the call chain of `name`.
pub fn header_line(name: &str) -> (r: String)
    ensures
        r@ == header(name@),
{
    String::from_str("++ Call chain for ").concat(name)
}

/// Writes the report entry for `edge`.
pub fn format_edge(edge: &Edge) -> (r: String)
    ensures
        r@ == entry(edge@),
{
    String::from_str(" + Function: ").concat(edge.caller.as_str()).concat(", calling: ").concat(
        edge.callee.as_str(),
    ).concat("\n\tpath: ").concat(edge.path.as_str())
}

/// Writes the report entries for `calls`, in their order.
pub fn info_lines(calls: &Vec<Edge>) -> (lines: Vec<String>)
    ensures
        lines.deep_view() == entries(calls.deep_view()),
{
    let mut lines: Vec<String> = Vec::new();
    let mut i: usize = 0;
    while i < calls.len()
        invariant
            i <= calls.len(),
            lines.len() == i,
            forall|j: int| 0 <= j < i ==> lines[j]@ == entry(calls[j]@),
        decreases calls.len() - i,
    {
        lines.push(format_edge(&calls[i]));
        i += 1;
    }
    lines
}

fn digit_text(d: u32) -> (r: &'static str)
    requires
        d < 10,
    ensures
        r@ == seq![digit(d as nat)],
{
    proof {
        reveal_strlit("0");
        reveal_strlit("1");
        reveal_strlit("2");
        reveal_strlit("3");
        reveal_strlit("4");
        reveal_strlit("5");
        reveal_strlit("6");
        reveal_strlit("7");
        reveal_strlit("8");
        reveal_strlit("9");
    }
    if d == 0 {
        "0"
    } else if d == 1 {
        "1"
    } else if d == 2 {
        "2"
    } else if d == 3 {
        "3"
    } else if d == 4 {
        "4"
    } else if d == 5 {
        "5"
    } else if d == 6 {
        "6"
    } else if d == 7 {
        "7"
    } else if d == 8 {
        "8"
    } else {
        "9"
    }
}

/// Writes `n` in decimal.
pub fn decimal_text(n: u32) -> (r: String)
    ensures
        r@ == decimal(n as nat),
    decreases n,
{
    if n < 10 {
        String::from_str(digit_text(n))
    } else {
        decimal_text(n / 10).concat(digit_text(n % 10))
    }
}

/// Writes the trace line for `edge`, found by a search at `depth`.
pub fn trace_line(edge: &Edge, depth: u32) -> (r: String)
    ensures
        r@ == traced(edge@, depth as nat),
{
    let tag = decimal_text(depth);
    let text = format_edge(edge);
    String::from_str("[").concat(tag.as_str()).concat("]").concat(text.as_str())
}

/// Writes the trace of the edges that one search at `depth` found.
pub fn trace_lines(found: &Vec<Edge>, depth: u32) -> (lines: Vec<String>)
    ensures
        lines.deep_view() == trace(found.deep_view(), depth as nat),
{
    let mut lines: Vec<String> = Vec::new();
    if depth == 0 {
        return lines;
    }
    let mut i: usize = 0;
    while i < found.len()
        invariant
            i <= found.len(),
            lines.len() == i,
            forall|j: int| 0 <= j < i ==> lines[j]@ == traced(found[j]@, depth as nat),
        decreases found.len() - i,
    {
        lines.push(trace_line(&found[i], depth));
        i += 1;
    }
    lines
}

} // verus!
