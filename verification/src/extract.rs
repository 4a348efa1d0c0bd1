//! The field extractors: one per line shape the scanner recognizes. Each is
//! an application of the marker matcher with fixed markers; the script
//! assignment extractors first sniff the quote style of the line.

use vstd::prelude::*;
use crate::text::between;
use crate::text::extract_between;
use crate::text::find_from;
use crate::text::find_sub;
use crate::text::lemma_find_from_some;

verus! {

/// Marker that introduces a delegate class attribute value.
pub open spec fn delegate_marker() -> Seq<char> {
    "class=\""@
}

/// The double quote that closes an attribute value.
pub open spec fn quote_marker() -> Seq<char> {
    "\""@
}

/// Marker that opens a user-task element and its id attribute.
pub open spec fn user_task_marker() -> Seq<char> {
    "<bpmn:userTask id=\""@
}

/// Marker that introduces a name attribute value.
pub open spec fn name_marker() -> Seq<char> {
    "name=\""@
}

/// Opening marker of an input-parameter line.
pub open spec fn input_open_marker() -> Seq<char> {
    "<camunda:inputParameter name=\"outputName\">"@
}

/// Closing marker of an input-parameter line.
pub open spec fn input_close_marker() -> Seq<char> {
    "</camunda:inputParameter>"@
}

/// Start of a shielded `${...}` expression.
pub open spec fn shield_marker() -> Seq<char> {
    "${"@
}

/// Closing brace of a shielded expression.
pub open spec fn rbrace_marker() -> Seq<char> {
    "}"@
}

/// Opening marker of an output-parameter line.
pub open spec fn output_marker() -> Seq<char> {
    "<camunda:outputParameter name=\""@
}

/// Literal value that excludes an output-parameter line.
pub open spec fn output_excluded_marker() -> Seq<char> {
    "${true}"@
}

/// A dot, marking a qualified expression in an output-parameter name.
pub open spec fn dot_marker() -> Seq<char> {
    "."@
}

/// Call marker of a single-variable script assignment.
pub open spec fn set_var_marker() -> Seq<char> {
    "execution.setVariable("@
}

/// Call marker of a multi-variable script assignment.
pub open spec fn set_vars_marker() -> Seq<char> {
    "execution.setVariables("@
}

/// Line-comment marker of embedded script text.
pub open spec fn comment_marker() -> Seq<char> {
    "//"@
}

/// Marker of the diagram section, which terminates the scan.
pub open spec fn diagram_marker() -> Seq<char> {
    "<bpmndi:BPMNDiagram"@
}

/// The class name a delegate-bearing line carries, if any.
pub open spec fn class_name_of(line: Seq<char>) -> Option<Seq<char>> {
    between(line, delegate_marker(), quote_marker())
}

/// Finds the Java class name referenced by a delegate attribute: the text
/// between `class="` and the following quote.
pub fn extract_class_name(input: &str) -> (r: Option<&str>)
    ensures
        match r {
            Some(t) => class_name_of(input@) == Some(t@),
            None => class_name_of(input@) is None,
        },
{
    extract_between(input, "class=\"", "\"")
}

/// The id/name pair a user-task line carries, if any. The pair is
/// all-or-nothing: a line with an id but no locatable name yields nothing.
pub open spec fn id_and_name_of(line: Seq<char>) -> Option<(Seq<char>, Seq<char>)> {
    match between(line, user_task_marker(), quote_marker()) {
        None => None,
        Some(id) => match between(line, name_marker(), quote_marker()) {
            None => None,
            Some(name) => Some((id, name)),
        },
    }
}

/// Extracts the id and the display name of a user-task line, or nothing if
/// either extraction fails.
pub fn extract_id_and_name(input: &str) -> (r: Option<(&str, &str)>)
    ensures
        match r {
            Some(p) => id_and_name_of(input@) == Some((p.0@, p.1@)),
            None => id_and_name_of(input@) is None,
        },
{
    match extract_between(input, "<bpmn:userTask id=\"", "\"") {
        None => None,
        Some(id) => match extract_between(input, "name=\"", "\"") {
            None => None,
            Some(name) => Some((id, name)),
        },
    }
}

/// The raw value an input-parameter line carries, if any.
pub open spec fn input_variable_of(line: Seq<char>) -> Option<Seq<char>> {
    between(line, input_open_marker(), input_close_marker())
}

/// Extracts the value of an input-parameter line: the text between the
/// opening and the closing element markers.
pub fn extract_input_variable(input: &str) -> (r: Option<&str>)
    ensures
        match r {
            Some(t) => input_variable_of(input@) == Some(t@),
            None => input_variable_of(input@) is None,
        },
{
    extract_between(input, "<camunda:inputParameter name=\"outputName\">", "</camunda:inputParameter>")
}

/// The attribute value of an output-parameter line, if any.
pub open spec fn output_key_of(line: Seq<char>) -> Option<Seq<char>> {
    between(line, output_marker(), quote_marker())
}

/// Extracts the name attribute of an output-parameter line: the text between
/// the opening marker and the following quote.
pub fn extract_output_key(input: &str) -> (r: Option<&str>)
    ensures
        match r {
            Some(t) => output_key_of(input@) == Some(t@),
            None => output_key_of(input@) is None,
        },
{
    extract_between(input, "<camunda:outputParameter name=\"", "\"")
}

/// The variable referenced by a shielded expression, if any.
pub open spec fn output_value_of(line: Seq<char>) -> Option<Seq<char>> {
    between(line, shield_marker(), rbrace_marker())
}

/// Extracts the variable reference of an output-parameter line: the text
/// between `${` and the following closing brace.
pub fn extract_output_value(input: &str) -> (r: Option<&str>)
    ensures
        match r {
            Some(t) => output_value_of(input@) == Some(t@),
            None => output_value_of(input@) is None,
        },
{
    extract_between(input, "${", "}")
}

/// The key of a single-variable script assignment, if any: the quote style
/// is sniffed from the character immediately after the call marker, and the
/// key is the text delimited by that quote character on both sides.
pub open spec fn set_variable_key_of(line: Seq<char>) -> Option<Seq<char>> {
    match find_from(line, set_var_marker(), 0) {
        None => None,
        Some(i) => {
            let tail = line.subrange(i + set_var_marker().len(), line.len() as int);
            if tail.len() > 0 && tail[0] == '\'' {
                between(tail, seq!['\''], seq!['\''])
            } else {
                between(tail, seq!['"'], seq!['"'])
            }
        },
    }
}

/// Extracts the quoted key of an `execution.setVariable(` call.
pub fn extract_set_variable(inp: &str) -> (r: Option<&str>)
    ensures
        match r {
            Some(t) => set_variable_key_of(inp@) == Some(t@),
            None => set_variable_key_of(inp@) is None,
        },
{
    let n = inp.unicode_len();
    let marker = "execution.setVariable(";
    match find_sub(inp, marker) {
        None => None,
        Some(i) => {
            proof {
                lemma_find_from_some(inp@, marker@, 0, i as int);
            }
            let m = marker.unicode_len();
            let tail = inp.substring_char(i + m, n);
            if tail.unicode_len() > 0 && tail.get_char(0) == '\'' {
                proof {
                    reveal_strlit("'");
                    assert("'"@ =~= seq!['\'']);
                }
                extract_between(tail, "'", "'")
            } else {
                proof {
                    reveal_strlit("\"");
                    assert("\""@ =~= seq!['"']);
                }
                extract_between(tail, "\"", "\"")
            }
        },
    }
}

/// Character index of the first quote character of either style in `s` at
/// or after `i`.
pub open spec fn find_quote_from(s: Seq<char>, i: int) -> Option<int>
    decreases s.len() - i
        when 0 <= i
{
    if i >= s.len() {
        None
    } else if s[i] == '\'' || s[i] == '"' {
        Some(i)
    } else {
        find_quote_from(s, i + 1)
    }
}

/// A found quote index is in range and carries a quote character.
pub proof fn lemma_find_quote_some(s: Seq<char>, c: int, i: int)
    requires
        0 <= c,
        find_quote_from(s, c) == Some(i),
    ensures
        c <= i < s.len(),
        s[i] == '\'' || s[i] == '"',
    decreases s.len() - c,
{
    if c >= s.len() {
    } else if s[c] == '\'' || s[c] == '"' {
    } else {
        lemma_find_quote_some(s, c + 1, i);
    }
}

/// The key of a line inside a multi-variable script assignment, if any: the
/// quote style is inferred from the first quote character found, and the key
/// is the text between that quote and the next of the same style.
pub open spec fn quoted_key_of(s: Seq<char>) -> Option<Seq<char>> {
    match find_quote_from(s, 0) {
        None => None,
        Some(i) => {
            let q = s[i];
            let rest = s.subrange(i + 1, s.len() as int);
            match find_from(rest, seq![q], 0) {
                None => None,
                Some(j) => Some(rest.subrange(0, j)),
            }
        },
    }
}

/// Character index of the first quote character of either style in `s`.
fn find_quote(s: &str) -> (r: Option<usize>)
    ensures
        match r {
            Some(i) => find_quote_from(s@, 0) == Some(i as int),
            None => find_quote_from(s@, 0) is None,
        },
{
    let n = s.unicode_len();
    let mut i: usize = 0;
    while i < n
        invariant
            0 <= i <= n,
            n == s@.len(),
            find_quote_from(s@, 0) == find_quote_from(s@, i as int),
        decreases n - i,
    {
        let c = s.get_char(i);
        if c == '\'' || c == '"' {
            return Some(i);
        }
        i += 1;
    }
    None
}

/// Extracts the quoted key of a line belonging to an
/// `execution.setVariables(` block.
pub fn extract_set_variables(inp: &str) -> (r: Option<&str>)
    ensures
        match r {
            Some(t) => quoted_key_of(inp@) == Some(t@),
            None => quoted_key_of(inp@) is None,
        },
{
    let n = inp.unicode_len();
    match find_quote(inp) {
        None => None,
        Some(i) => {
            proof {
                lemma_find_quote_some(inp@, 0, i as int);
            }
            let c = inp.get_char(i);
            let rest = inp.substring_char(i + 1, n);
            let found = if c == '\'' {
                proof {
                    reveal_strlit("'");
                    assert("'"@ =~= seq![c]);
                }
                find_sub(rest, "'")
            } else {
                proof {
                    reveal_strlit("\"");
                    assert("\""@ =~= seq![c]);
                }
                find_sub(rest, "\"")
            };
            match found {
                None => None,
                Some(j) => {
                    proof {
                        lemma_find_from_some(rest@, seq![c], 0, j as int);
                    }
                    Some(rest.substring_char(0, j))
                },
            }
        },
    }
}

} // verus!
