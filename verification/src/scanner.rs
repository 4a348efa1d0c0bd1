//! The line-oriented scan: a five-way classification of each line, a state
//! machine for multi-line script-assignment blocks, and the aggregation of
//! the three result categories into sorted, duplicate-free sequences.

use vstd::prelude::*;
use crate::extract::class_name_of;
use crate::extract::comment_marker;
use crate::extract::delegate_marker;
use crate::extract::diagram_marker;
use crate::extract::dot_marker;
use crate::extract::extract_class_name;
use crate::extract::extract_id_and_name;
use crate::extract::extract_input_variable;
use crate::extract::extract_output_key;
use crate::extract::extract_output_value;
use crate::extract::extract_set_variable;
use crate::extract::extract_set_variables;
use crate::extract::id_and_name_of;
use crate::extract::input_close_marker;
use crate::extract::input_open_marker;
use crate::extract::input_variable_of;
use crate::extract::output_excluded_marker;
use crate::extract::output_key_of;
use crate::extract::output_marker;
use crate::extract::output_value_of;
use crate::extract::quoted_key_of;
use crate::extract::set_var_marker;
use crate::extract::set_variable_key_of;
use crate::extract::set_vars_marker;
use crate::extract::shield_marker;
use crate::extract::user_task_marker;
use crate::order::insert_str_sorted;
use crate::order::insert_task_sorted;
use crate::order::strictly_sorted_strs;
use crate::order::strictly_sorted_tasks;
use crate::order::strs_contain;
use crate::order::tasks_contain;
use crate::order::UserTask;
use crate::text::contains_sub;
use crate::text::ends_with;
use crate::text::has_prefix;
use crate::text::has_sub;
use crate::text::has_suffix;
use crate::text::starts_with;
use crate::text::strip_spaces;
use crate::text::strip_spaces_spec;
use crate::text::trim_spec;
use crate::text::trim_start_spec;
use crate::text::trim_start_str;
use crate::text::trim_str;

verus! {

/// Restriction on which delegate-bearing lines are eligible for extraction:
/// no restriction, only lines containing a pattern, or none at all (the
/// behaviour of an absent externally supplied pattern).
pub enum DelegateFilter {
    Unrestricted,
    Pattern(String),
    Closed,
}

/// Whether the filter lets a delegate-bearing line through.
pub open spec fn filter_allows(f: DelegateFilter, line: Seq<char>) -> bool {
    match f {
        DelegateFilter::Unrestricted => true,
        DelegateFilter::Pattern(p) => contains_sub(line, p@),
        DelegateFilter::Closed => false,
    }
}

/// Whether the filter lets a delegate-bearing line through.
fn filter_line(f: &DelegateFilter, line: &str) -> (r: bool)
    ensures
        r == filter_allows(*f, line@),
{
    match f {
        DelegateFilter::Unrestricted => true,
        DelegateFilter::Pattern(p) => has_sub(line, p.as_str()),
        DelegateFilter::Closed => false,
    }
}

/// The disposition of one (already left-trimmed) line, in priority order:
/// first match wins.
pub enum LineClass {
    TaskLine,
    DelegateLine,
    InputLine,
    OutputLine,
    SingleAssign,
    BlockAssign,
    Terminal,
    Plain,
}

/// Classifies a left-trimmed line, in the fixed priority order of the scan.
pub open spec fn class_of(in_block: bool, l: Seq<char>) -> LineClass {
    if starts_with(l, user_task_marker()) {
        LineClass::TaskLine
    } else if contains_sub(l, delegate_marker()) {
        LineClass::DelegateLine
    } else if starts_with(l, input_open_marker()) && ends_with(l, input_close_marker())
        && !contains_sub(l, shield_marker()) {
        LineClass::InputLine
    } else if starts_with(l, output_marker()) && !contains_sub(l, output_excluded_marker()) {
        LineClass::OutputLine
    } else if contains_sub(l, set_var_marker()) && !starts_with(l, comment_marker()) {
        LineClass::SingleAssign
    } else if (in_block || contains_sub(l, set_vars_marker())) && !starts_with(
        l,
        comment_marker(),
    ) {
        LineClass::BlockAssign
    } else if starts_with(l, diagram_marker()) {
        LineClass::Terminal
    } else {
        LineClass::Plain
    }
}

/// Classifies a left-trimmed line, in the fixed priority order of the scan.
pub fn classify(l: &str, in_block: bool) -> (r: LineClass)
    ensures
        r == class_of(in_block, l@),
{
    if has_prefix(l, "<bpmn:userTask id=\"") {
        LineClass::TaskLine
    } else if has_sub(l, "class=\"") {
        LineClass::DelegateLine
    } else if has_prefix(l, "<camunda:inputParameter name=\"outputName\">") && has_suffix(
        l,
        "</camunda:inputParameter>",
    ) && !has_sub(l, "${") {
        LineClass::InputLine
    } else if has_prefix(l, "<camunda:outputParameter name=\"") && !has_sub(l, "${true}") {
        LineClass::OutputLine
    } else if has_sub(l, "execution.setVariable(") && !has_prefix(l, "//") {
        LineClass::SingleAssign
    } else if (in_block || has_sub(l, "execution.setVariables(")) && !has_prefix(l, "//") {
        LineClass::BlockAssign
    } else if has_prefix(l, "<bpmndi:BPMNDiagram") {
        LineClass::Terminal
    } else {
        LineClass::Plain
    }
}

/// Closing shapes that end a multi-line script-assignment block, tested on
/// the whitespace-stripped line.
pub open spec fn block_terminates(stripped: Seq<char>) -> bool {
    ends_with(stripped, ")]"@) || ends_with(stripped, ")];"@) || ends_with(stripped, ");"@)
        || starts_with(stripped, ")"@)
}

/// Whether the whitespace-stripped line ends the current block.
fn block_terminates_exec(stripped: &str) -> (r: bool)
    ensures
        r == block_terminates(stripped@),
{
    has_suffix(stripped, ")]") || has_suffix(stripped, ")];") || has_suffix(stripped, ");")
        || has_prefix(stripped, ")")
}

/// The mathematical state of a scan: the three collected categories as
/// sets, the multi-line block flag, and whether the terminal marker has
/// been reached.
#[verifier::ext_equal]
pub struct ScanModel {
    pub delegates: Set<Seq<char>>,
    pub variables: Set<Seq<char>>,
    pub tasks: Set<(Seq<char>, Seq<char>)>,
    pub in_block: bool,
    pub stopped: bool,
}

/// The state a scan starts from: nothing collected, no open block.
pub open spec fn initial_model() -> ScanModel {
    ScanModel {
        delegates: Set::empty(),
        variables: Set::empty(),
        tasks: Set::empty(),
        in_block: false,
        stopped: false,
    }
}

/// How one raw document line transforms the scan state.
pub open spec fn scan_step(st: ScanModel, raw: Seq<char>, f: DelegateFilter) -> ScanModel {
    if st.stopped {
        st
    } else {
        let l = trim_start_spec(raw);
        match class_of(st.in_block, l) {
            LineClass::TaskLine => match id_and_name_of(l) {
                Some(p) => ScanModel { tasks: st.tasks.insert(p), ..st },
                None => st,
            },
            LineClass::DelegateLine => if filter_allows(f, l) {
                match class_name_of(l) {
                    Some(v) => ScanModel { delegates: st.delegates.insert(v), ..st },
                    None => st,
                }
            } else {
                st
            },
            LineClass::InputLine => match input_variable_of(l) {
                Some(v) => ScanModel { variables: st.variables.insert(trim_spec(v)), ..st },
                None => st,
            },
            LineClass::OutputLine => if contains_sub(l, dot_marker()) {
                match output_key_of(l) {
                    Some(v) => ScanModel { variables: st.variables.insert(v), ..st },
                    None => st,
                }
            } else {
                match output_value_of(l) {
                    Some(v) => ScanModel { variables: st.variables.insert(v), ..st },
                    None => st,
                }
            },
            LineClass::SingleAssign => match set_variable_key_of(l) {
                Some(v) => ScanModel { variables: st.variables.insert(v), ..st },
                None => st,
            },
            LineClass::BlockAssign => {
                let stripped = strip_spaces_spec(l);
                let vars = match quoted_key_of(stripped) {
                    Some(v) => st.variables.insert(v),
                    None => st.variables,
                };
                ScanModel { variables: vars, in_block: !block_terminates(stripped), ..st }
            },
            LineClass::Terminal => ScanModel { stopped: true, ..st },
            LineClass::Plain => st,
        }
    }
}

/// The scan state after the whole document, folded line by line.
pub open spec fn scan_model(doc: Seq<Seq<char>>, f: DelegateFilter) -> ScanModel
    decreases doc.len(),
{
    if doc.len() == 0 {
        initial_model()
    } else {
        scan_step(scan_model(doc.drop_last(), f), doc.last(), f)
    }
}

/// The stateful scanner: feed it the document's lines in order, then drain
/// it. It keeps each category strictly sorted at all times, so the final
/// sequences are sorted and duplicate-free by construction.
pub struct LineScanner {
    pub delegates: Vec<String>,
    pub context_variables: Vec<String>,
    pub user_tasks: Vec<UserTask>,
    pub in_block: bool,
    pub stopped: bool,
}

impl LineScanner {
    /// The collected categories as sets, with the two scan flags.
    pub open spec fn model(&self) -> ScanModel {
        ScanModel {
            delegates: Set::new(|x: Seq<char>| strs_contain(self.delegates@, x)),
            variables: Set::new(|x: Seq<char>| strs_contain(self.context_variables@, x)),
            tasks: Set::new(
                |p: (Seq<char>, Seq<char>)| tasks_contain(self.user_tasks@, p.0, p.1),
            ),
            in_block: self.in_block,
            stopped: self.stopped,
        }
    }

    /// Each category is strictly sorted, hence duplicate-free.
    pub open spec fn wf(&self) -> bool {
        strictly_sorted_strs(self.delegates@) && strictly_sorted_strs(self.context_variables@)
            && strictly_sorted_tasks(self.user_tasks@)
    }

    /// A fresh scanner: nothing collected, no open block.
    pub fn new() -> (r: LineScanner)
        ensures
            r.wf(),
            r.model() == initial_model(),
    {
        let r = LineScanner {
            delegates: Vec::new(),
            context_variables: Vec::new(),
            user_tasks: Vec::new(),
            in_block: false,
            stopped: false,
        };
        proof {
            assert(r.model() =~= initial_model());
        }
        r
    }

    /// Feeds one raw document line to the scanner. After the terminal
    /// marker has been reached, further lines change nothing.
    pub fn process_line(&mut self, raw: &str, filter: &DelegateFilter)
        requires
            old(self).wf(),
        ensures
            final(self).wf(),
            final(self).model() == scan_step(old(self).model(), raw@, *filter),
    {
        if self.stopped {
            return ;
        }
        let l = trim_start_str(raw);
        let cls = classify(l, self.in_block);
        match cls {
            LineClass::TaskLine => {
                match extract_id_and_name(l) {
                    Some(pair) => {
                        let task = UserTask { id: pair.0.to_owned(), name: pair.1.to_owned() };
                        insert_task_sorted(&mut self.user_tasks, task);
                    },
                    None => {},
                }
            },
            LineClass::DelegateLine => {
                if filter_line(filter, l) {
                    match extract_class_name(l) {
                        Some(v) => {
                            insert_str_sorted(&mut self.delegates, v.to_owned());
                        },
                        None => {},
                    }
                }
            },
            LineClass::InputLine => {
                match extract_input_variable(l) {
                    Some(v) => {
                        let trimmed = trim_str(v);
                        insert_str_sorted(&mut self.context_variables, trimmed.to_owned());
                    },
                    None => {},
                }
            },
            LineClass::OutputLine => {
                if has_sub(l, ".") {
                    match extract_output_key(l) {
                        Some(v) => {
                            insert_str_sorted(&mut self.context_variables, v.to_owned());
                        },
                        None => {},
                    }
                } else {
                    match extract_output_value(l) {
                        Some(v) => {
                            insert_str_sorted(&mut self.context_variables, v.to_owned());
                        },
                        None => {},
                    }
                }
            },
            LineClass::SingleAssign => {
                match extract_set_variable(l) {
                    Some(v) => {
                        insert_str_sorted(&mut self.context_variables, v.to_owned());
                    },
                    None => {},
                }
            },
            LineClass::BlockAssign => {
                let stripped = strip_spaces(l);
                self.in_block = true;
                match extract_set_variables(stripped.as_str()) {
                    Some(v) => {
                        insert_str_sorted(&mut self.context_variables, v.to_owned());
                    },
                    None => {},
                }
                if block_terminates_exec(stripped.as_str()) {
                    self.in_block = false;
                }
            },
            LineClass::Terminal => {
                self.stopped = true;
            },
            LineClass::Plain => {},
        }
        proof {
            assert(self.model() =~= scan_step(old(self).model(), raw@, *filter));
        }
    }
}

/// The three ordered, deduplicated sequences a scan produces.
pub struct ScanResult {
    pub delegates: Vec<String>,
    pub context_variables: Vec<String>,
    pub user_tasks: Vec<UserTask>,
}

/// The result carries exactly the elements of the model's sets, each
/// category strictly sorted: delegates and context variables ascending,
/// user tasks ascending by name with ties broken by id.
pub open spec fn result_of_model(r: &ScanResult, m: ScanModel) -> bool {
    &&& strictly_sorted_strs(r.delegates@)
    &&& forall|x: Seq<char>| #[trigger] strs_contain(r.delegates@, x) <==> m.delegates.contains(x)
    &&& strictly_sorted_strs(r.context_variables@)
    &&& forall|x: Seq<char>|
        #[trigger] strs_contain(r.context_variables@, x) <==> m.variables.contains(x)
    &&& strictly_sorted_tasks(r.user_tasks@)
    &&& forall|i: Seq<char>, n: Seq<char>|
        #[trigger] tasks_contain(r.user_tasks@, i, n) <==> m.tasks.contains((i, n))
}

impl LineScanner {
    /// Drains the scanner into the final ordered, deduplicated sequences.
    pub fn finish(self) -> (r: ScanResult)
        requires
            self.wf(),
        ensures
            result_of_model(&r, self.model()),
    {
        ScanResult {
            delegates: self.delegates,
            context_variables: self.context_variables,
            user_tasks: self.user_tasks,
        }
    }
}

/// The document's lines as character sequences.
pub open spec fn line_views(lines: Seq<String>) -> Seq<Seq<char>> {
    lines.map_values(|s: String| s@)
}

/// Scans a whole document with a delegate filter and aggregates the result.
pub fn scan_lines_with_filter(lines: &Vec<String>, filter: &DelegateFilter) -> (r: ScanResult)
    ensures
        result_of_model(&r, scan_model(line_views(lines@), *filter)),
{
    let mut sc = LineScanner::new();
    let ghost doc = line_views(lines@);
    let mut i: usize = 0;
    proof {
        assert(doc.subrange(0, 0) =~= Seq::<Seq<char>>::empty());
        assert(doc.len() == lines@.len());
    }
    while i < lines.len()
        invariant
            0 <= i <= lines.len(),
            doc == line_views(lines@),
            doc.len() == lines@.len(),
            sc.wf(),
            sc.model() == scan_model(doc.subrange(0, i as int), *filter),
        decreases lines.len() - i,
    {
        let line: &String = &lines[i];
        sc.process_line(line.as_str(), filter);
        proof {
            assert(doc.subrange(0, i + 1).drop_last() =~= doc.subrange(0, i as int));
            assert(doc.subrange(0, i + 1).last() == doc[i as int]);
            assert(doc[i as int] == lines@[i as int]@);
        }
        i += 1;
    }
    proof {
        assert(doc.subrange(0, doc.len() as int) =~= doc);
    }
    sc.finish()
}

/// Scans a whole document: every delegate-bearing line is eligible.
pub fn scan_lines(lines: &Vec<String>) -> (r: ScanResult)
    ensures
        result_of_model(&r, scan_model(line_views(lines@), DelegateFilter::Unrestricted)),
{
    scan_lines_with_filter(lines, &DelegateFilter::Unrestricted)
}

} // verus!
