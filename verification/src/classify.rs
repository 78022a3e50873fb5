//! Classification of one line of search output.
//!
//! The search reports a matching line as `path:content` and a context line as
//! `path-content`; inside a C file it reports the enclosing function's
//! signature as `path=content`. A line names a caller when it has one of five
//! shapes, tried in this order:
//!
//! 1. a C definition line, `<path>.c=<type> <name>(`;
//! 2. the opening line of a multi-line macro, `<path>.h-#define <name>(..) .. \`;
//! 3. a continuation line of such a macro, `<path>.h-.. \`;
//! 4. the line of such a macro that holds the call, `<path>.h:.. <callee>(`;
//! 5. a single-line macro that holds the call, `<path>.h:#define <name>(..) .. <callee>(`.
//!
//! Shapes 3 and 4 are tried only while a multi-line macro is open. In shapes
//! 2 and 3 the backslash is the last character of the line. A name ends at
//! the first opening parenthesis that follows the marker or `define`: what
//! comes after it, parameters or further calls, is never part of the name.
//!
//! What the patterns find on a line does not depend on an open macro; it is
//! gathered first, for all the lines of a run at once, and the shape is
//! decided from it line by line.
use crate::matching::{found_each, found_in, found_in_each, group_each, group_in, group_in_each};
use vstd::prelude::*;
use vstd::string::*;

verus! {

/// The marker of a C definition line.
pub open spec fn c_marker() -> Seq<char> {
    "\\.c="@
}

/// Captures, in group 2, the name defined on a C definition line: what
/// stands between the type and the first opening parenthesis after the
/// marker, less a pointer star. Neither the type nor the name can hold an
/// opening parenthesis, and the name holds no space.
pub open spec fn c_name() -> Seq<char> {
    "\\.c=([^(]*) \\*?([^( ]*)\\("@
}

/// Captures, in group 1, the path of a C definition line, extension
/// included.
pub open spec fn c_path() -> Seq<char> {
    "(.*\\.c)="@
}

/// The marker of a preprocessor line shown as context in a header.
pub open spec fn opening_marker() -> Seq<char> {
    "\\.h-#"@
}

/// Captures, in group 1, the name of a macro whose definition goes on to the
/// next line: what stands before the first opening parenthesis after
/// `define`, on a line that ends in a backslash. The name holds neither a
/// space nor a parenthesis, and the parameter list ends at the first closing
/// parenthesis.
pub open spec fn opening_name() -> Seq<char> {
    "# *define *([^( ]+)\\([^)]*\\).*\\\\$"@
}

/// Captures, in group 1, the path of a context line in a header, extension
/// included.
pub open spec fn context_path() -> Seq<char> {
    "(.*\\.h)-"@
}

/// A context line in a header that is no preprocessor line and ends in a
/// backslash.
pub open spec fn continuation() -> Seq<char> {
    "\\.h-[^#].*\\\\$"@
}

/// The marker of a matching line in a header.
pub open spec fn match_marker() -> Seq<char> {
    "\\.h:"@
}

/// Captures, in group 1, the path of a matching line in a header, extension
/// included.
pub open spec fn match_path() -> Seq<char> {
    "(.*\\.h):"@
}

/// Captures, in group 1, the text of a call to `callee`.
pub open spec fn call_of(callee: Seq<char>) -> Seq<char> {
    ".*[\\( \\*]+("@ + callee + ")\\(.*"@
}

/// Captures, in group 1, the name of a macro defined on one line whose body
/// calls `callee`: what stands before the first opening parenthesis after
/// `define`. The name holds neither a space nor a parenthesis, and the
/// parameter list ends at the first closing parenthesis, so that a call that
/// stands before the one of `callee` is part of the body.
pub open spec fn macro_calling(callee: Seq<char>) -> Seq<char> {
    "# *define *([^( ]+)\\([^)]*\\).*"@ + callee + "\\(.*"@
}

/// What the patterns of this module find on one line.
#[derive(Clone, Debug, PartialEq, Eq)]
pub struct LineFacts {
    /// The line has the marker of a C definition line.
    pub c_marker: bool,
    /// The name defined on a C definition line.
    pub c_name: Option<String>,
    /// The path of a C definition line.
    pub c_path: Option<String>,
    /// The line is a preprocessor line shown as context in a header.
    pub opening_marker: bool,
    /// The name of the macro that the line opens.
    pub opening_name: Option<String>,
    /// The path of a context line in a header.
    pub context_path: Option<String>,
    /// The line continues a macro.
    pub continuation: bool,
    /// The line is a matching line in a header.
    pub match_marker: bool,
    /// The text of the call on the line.
    pub call_name: Option<String>,
    /// The path of a matching line in a header.
    pub match_path: Option<String>,
    /// The name of the single-line macro whose body holds the call.
    pub macro_name: Option<String>,
}

/// The mathematical value of [`LineFacts`].
pub struct LineFactsView {
    pub c_marker: bool,
    pub c_name: Option<Seq<char>>,
    pub c_path: Option<Seq<char>>,
    pub opening_marker: bool,
    pub opening_name: Option<Seq<char>>,
    pub context_path: Option<Seq<char>>,
    pub continuation: bool,
    pub match_marker: bool,
    pub call_name: Option<Seq<char>>,
    pub match_path: Option<Seq<char>>,
    pub macro_name: Option<Seq<char>>,
}

impl DeepView for LineFacts {
    type V = LineFactsView;

    open spec fn deep_view(&self) -> LineFactsView {
        LineFactsView {
            c_marker: self.c_marker,
            c_name: self.c_name.deep_view(),
            c_path: self.c_path.deep_view(),
            opening_marker: self.opening_marker,
            opening_name: self.opening_name.deep_view(),
            context_path: self.context_path.deep_view(),
            continuation: self.continuation,
            match_marker: self.match_marker,
            call_name: self.call_name.deep_view(),
            match_path: self.match_path.deep_view(),
            macro_name: self.macro_name.deep_view(),
        }
    }
}

/// The facts that the patterns establish about `line` when the callee
/// searched for is `callee`.
pub open spec fn facts_of(callee: Seq<char>, line: Seq<char>) -> LineFactsView {
    LineFactsView {
        c_marker: found_in(c_marker(), line),
        c_name: group_in(c_name(), line, 2),
        c_path: group_in(c_path(), line, 1),
        opening_marker: found_in(opening_marker(), line),
        opening_name: group_in(opening_name(), line, 1),
        context_path: group_in(context_path(), line, 1),
        continuation: found_in(continuation(), line),
        match_marker: found_in(match_marker(), line),
        call_name: group_in(call_of(callee), line, 1),
        match_path: group_in(match_path(), line, 1),
        macro_name: group_in(macro_calling(callee), line, 1),
    }
}

/// The facts about every line of `lines`, in their order.
pub open spec fn facts_of_each(callee: Seq<char>, lines: Seq<Seq<char>>) -> Seq<LineFactsView> {
    Seq::new(lines.len(), |i: int| facts_of(callee, lines[i]))
}

/// A caller name paired with a path, when both were found.
pub open spec fn both(name: Option<Seq<char>>, path: Option<Seq<char>>, continues: bool) -> Option<
    (Seq<char>, Seq<char>, bool),
> {
    match (name, path) {
        (Some(n), Some(p)) => Some((n, p, continues)),
        _ => None,
    }
}

/// The classification that follows from the facts about a line: the caller
/// name, the source path, and whether the line opens or continues a
/// multi-line macro. The first shape whose marker is present decides, also
/// where its name or path is then missing.
pub open spec fn classification(facts: LineFactsView, in_multiline: bool) -> Option<
    (Seq<char>, Seq<char>, bool),
> {
    if facts.c_marker {
        both(facts.c_name, facts.c_path, false)
    } else if facts.opening_marker {
        both(facts.opening_name, facts.context_path, true)
    } else if in_multiline && facts.continuation {
        both(Some(Seq::empty()), facts.context_path, true)
    } else if in_multiline && facts.match_marker {
        both(facts.call_name, facts.match_path, false)
    } else if facts.match_marker {
        both(facts.macro_name, facts.match_path, false)
    } else {
        None
    }
}

/// The classification of `line` in a search for the callers of `callee`.
pub open spec fn classify(callee: Seq<char>, line: Seq<char>, in_multiline: bool) -> Option<
    (Seq<char>, Seq<char>, bool),
> {
    classification(facts_of(callee, line), in_multiline)
}

fn copy_text(text: &Option<String>) -> (r: Option<String>)
    ensures
        r.deep_view() == text.deep_view(),
{
    match text {
        Some(t) => Some(t.clone()),
        None => None,
    }
}

/// Runs every pattern on every line. Each pattern is compiled once for all
/// the lines.
pub fn observe_each(callee: &str, lines: &Vec<String>) -> (facts: Vec<LineFacts>)
    ensures
        facts.len() == lines.len(),
        facts.deep_view() == facts_of_each(callee@, lines.deep_view()),
{
    let call = String::from_str(".*[\\( \\*]+(").concat(callee).concat(")\\(.*");
    let single = String::from_str("# *define *([^( ]+)\\([^)]*\\).*").concat(callee).concat("\\(.*");
    let c_markers = found_each("\\.c=", lines);
    let c_names = group_each("\\.c=([^(]*) \\*?([^( ]*)\\(", lines, 2);
    let c_paths = group_each("(.*\\.c)=", lines, 1);
    let opening_markers = found_each("\\.h-#", lines);
    let opening_names = group_each("# *define *([^( ]+)\\([^)]*\\).*\\\\$", lines, 1);
    let context_paths = group_each("(.*\\.h)-", lines, 1);
    let continuations = found_each("\\.h-[^#].*\\\\$", lines);
    let match_markers = found_each("\\.h:", lines);
    let call_names = group_each(call.as_str(), lines, 1);
    let match_paths = group_each("(.*\\.h):", lines, 1);
    let macro_names = group_each(single.as_str(), lines, 1);
    let ghost texts = lines.deep_view();
    let mut facts: Vec<LineFacts> = Vec::new();
    let mut i: usize = 0;
    while i < lines.len()
        invariant
            i <= lines.len(),
            facts.len() == i,
            texts == lines.deep_view(),
            found_in_each(c_markers@, c_marker(), texts),
            group_in_each(c_names.deep_view(), c_name(), texts, 2),
            group_in_each(c_paths.deep_view(), c_path(), texts, 1),
            found_in_each(opening_markers@, opening_marker(), texts),
            group_in_each(opening_names.deep_view(), opening_name(), texts, 1),
            group_in_each(context_paths.deep_view(), context_path(), texts, 1),
            found_in_each(continuations@, continuation(), texts),
            found_in_each(match_markers@, match_marker(), texts),
            group_in_each(call_names.deep_view(), call_of(callee@), texts, 1),
            group_in_each(match_paths.deep_view(), match_path(), texts, 1),
            group_in_each(macro_names.deep_view(), macro_calling(callee@), texts, 1),
            forall|j: int|
                0 <= j < i ==> (#[trigger] facts[j]).deep_view() == facts_of(callee@, texts[j]),
        decreases lines.len() - i,
    {
        let line = LineFacts {
            c_marker: c_markers[i],
            c_name: copy_text(&c_names[i]),
            c_path: copy_text(&c_paths[i]),
            opening_marker: opening_markers[i],
            opening_name: copy_text(&opening_names[i]),
            context_path: copy_text(&context_paths[i]),
            continuation: continuations[i],
            match_marker: match_markers[i],
            call_name: copy_text(&call_names[i]),
            match_path: copy_text(&match_paths[i]),
            macro_name: copy_text(&macro_names[i]),
        };
        proof {
            let k = i as int;
            assert(c_names.deep_view()[k] == c_names[k].deep_view());
            assert(c_paths.deep_view()[k] == c_paths[k].deep_view());
            assert(opening_names.deep_view()[k] == opening_names[k].deep_view());
            assert(context_paths.deep_view()[k] == context_paths[k].deep_view());
            assert(call_names.deep_view()[k] == call_names[k].deep_view());
            assert(match_paths.deep_view()[k] == match_paths[k].deep_view());
            assert(macro_names.deep_view()[k] == macro_names[k].deep_view());
        }
        facts.push(line);
        i += 1;
    }
    facts
}

fn pair(name: &Option<String>, path: &Option<String>, continues: bool) -> (r: Option<
    (String, String, bool),
>)
    ensures
        r.deep_view() == both(name.deep_view(), path.deep_view(), continues),
{
    match (name, path) {
        (Some(n), Some(p)) => Some((n.clone(), p.clone(), continues)),
        _ => None,
    }
}

/// Classifies a line from the facts about it.
pub fn decide(facts: &LineFacts, in_multiline: bool) -> (r: Option<(String, String, bool)>)
    ensures
        r.deep_view() == classification(facts.deep_view(), in_multiline),
{
    if facts.c_marker {
        pair(&facts.c_name, &facts.c_path, false)
    } else if facts.opening_marker {
        pair(&facts.opening_name, &facts.context_path, true)
    } else if in_multiline && facts.continuation {
        pair(&Some(String::new()), &facts.context_path, true)
    } else if in_multiline && facts.match_marker {
        pair(&facts.call_name, &facts.match_path, false)
    } else if facts.match_marker {
        pair(&facts.macro_name, &facts.match_path, false)
    } else {
        None
    }
}

/// Decides which of the five shapes `line` has and extracts the caller name,
/// the source path and the continuation flag; `None` when it has none of
/// them. `func` is the callee searched for, `multi` tells whether a
/// multi-line macro is open.
pub fn get_function_name(func: &str, line: &str, multi: bool) -> (r: Option<(String, String, bool)>)
    ensures
        r.deep_view() == classify(func@, line@, multi),
{
    let mut lines: Vec<String> = Vec::new();
    lines.push(line.to_owned());
    let facts = observe_each(func, &lines);
    assert(facts.deep_view()[0] == facts[0].deep_view());
    decide(&facts[0], multi)
}

/// A C definition line is classified by the name and the path that stand
/// on it, with no continuation, whatever callee was searched for and whether
/// or not a macro is open.
pub proof fn lemma_c_definition(
    callee: Seq<char>,
    line: Seq<char>,
    in_multiline: bool,
    name: Seq<char>,
    path: Seq<char>,
)
    requires
        found_in(c_marker(), line),
        group_in(c_name(), line, 2) == Some(name),
        group_in(c_path(), line, 1) == Some(path),
    ensures
        classify(callee, line, in_multiline) == Some((name, path, false)),
{
}

/// The classification of a C definition line does not depend on the callee
/// searched for.
pub proof fn lemma_c_definition_ignores_callee(
    callee: Seq<char>,
    other: Seq<char>,
    line: Seq<char>,
    in_multiline: bool,
)
    requires
        found_in(c_marker(), line),
    ensures
        classify(callee, line, in_multiline) == classify(other, line, in_multiline),
{
}

/// Outside a multi-line macro, a matching header line that defines a macro
/// whose body calls the callee is classified by the macro's name and the
/// line's path, with no continuation.
pub proof fn lemma_single_line_macro(
    callee: Seq<char>,
    line: Seq<char>,
    name: Seq<char>,
    path: Seq<char>,
)
    requires
        !found_in(c_marker(), line),
        !found_in(opening_marker(), line),
        found_in(match_marker(), line),
        group_in(macro_calling(callee), line, 1) == Some(name),
        group_in(match_path(), line, 1) == Some(path),
    ensures
        classify(callee, line, false) == Some((name, path, false)),
{
}

} // verus!
