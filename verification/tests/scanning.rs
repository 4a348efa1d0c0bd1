use bpmn_audit::scan_lines;
use bpmn_audit::scan_lines_with_filter;
use bpmn_audit::DelegateFilter;
use bpmn_audit::LineScanner;

fn doc(lines: &[&str]) -> Vec<String> {
    lines.iter().map(|l| l.to_string()).collect()
}

#[test]
fn empty_document() {
    let r = scan_lines(&doc(&[]));
    assert!(r.delegates.is_empty());
    assert!(r.context_variables.is_empty());
    assert!(r.user_tasks.is_empty());
}

#[test]
fn delegates_sorted_and_deduplicated() {
    let r = scan_lines(&doc(&[
        "<bpmn:serviceTask camunda:class=\"com.zeta.Last\">",
        "<bpmn:serviceTask camunda:class=\"com.alpha.First\">",
        "<bpmn:serviceTask camunda:class=\"com.zeta.Last\">",
        "<bpmn:serviceTask camunda:class=\"com.mid.Middle\">",
    ]));
    assert_eq!(
        r.delegates,
        vec![
            "com.alpha.First".to_string(),
            "com.mid.Middle".to_string(),
            "com.zeta.Last".to_string(),
        ]
    );
}

#[test]
fn user_tasks_sorted_by_name_and_deduplicated() {
    let r = scan_lines(&doc(&[
        "<bpmn:userTask id=\"t2\" name=\"Zulu step\">",
        "<bpmn:userTask id=\"t1\" name=\"Alpha step\">",
        "<bpmn:userTask id=\"t2\" name=\"Zulu step\">",
        "<bpmn:userTask id=\"t3\" name=\"Alpha step\">",
    ]));
    // Duplicate pairs collapse; duplicate names with distinct ids both
    // survive, ordered by name then id.
    assert_eq!(r.user_tasks.len(), 3);
    assert_eq!(r.user_tasks[0].id, "t1");
    assert_eq!(r.user_tasks[0].name, "Alpha step");
    assert_eq!(r.user_tasks[1].id, "t3");
    assert_eq!(r.user_tasks[1].name, "Alpha step");
    assert_eq!(r.user_tasks[2].id, "t2");
    assert_eq!(r.user_tasks[2].name, "Zulu step");
}

#[test]
fn multi_line_block() {
    let mut sc = LineScanner::new();
    let f = DelegateFilter::Unrestricted;
    sc.process_line("execution.setVariables(", &f);
    assert!(sc.in_block);
    sc.process_line("  \"alpha\": 1,", &f);
    assert!(sc.in_block);
    sc.process_line("  \"beta\": 2", &f);
    assert!(sc.in_block);
    sc.process_line(");", &f);
    assert!(!sc.in_block);
    let r = sc.finish();
    assert_eq!(r.context_variables, vec!["alpha".to_string(), "beta".to_string()]);
}

#[test]
fn shielded_input_parameter_excluded() {
    let r = scan_lines(&doc(&[
        "<camunda:inputParameter name=\"outputName\">${expr}</camunda:inputParameter>",
    ]));
    assert!(r.context_variables.is_empty());
}

#[test]
fn input_parameter_value_trimmed() {
    let r = scan_lines(&doc(&[
        "<camunda:inputParameter name=\"outputName\"> orderId </camunda:inputParameter>",
    ]));
    assert_eq!(r.context_variables, vec!["orderId".to_string()]);
}

#[test]
fn output_parameter_dual_strategy() {
    let r = scan_lines(&doc(&[
        "<camunda:outputParameter name=\"foo.bar\">",
        "<camunda:outputParameter name=\"x\">${myVar}</camunda:outputParameter>",
    ]));
    assert_eq!(r.context_variables, vec!["foo.bar".to_string(), "myVar".to_string()]);
}

#[test]
fn output_parameter_excluded_literal() {
    let r = scan_lines(&doc(&[
        "<camunda:outputParameter name=\"x\">${true}</camunda:outputParameter>",
    ]));
    assert!(r.context_variables.is_empty());
}

#[test]
fn quote_style_sniffing() {
    let r = scan_lines(&doc(&[
        "execution.setVariable('single', val)",
        "execution.setVariable(\"double\", val)",
    ]));
    assert_eq!(r.context_variables, vec!["double".to_string(), "single".to_string()]);
}

#[test]
fn commented_assignment_ignored() {
    let r = scan_lines(&doc(&["// execution.setVariable('key', val)"]));
    assert!(r.context_variables.is_empty());
}

#[test]
fn terminal_marker_stops_scan() {
    let r = scan_lines(&doc(&[
        "<bpmndi:BPMNDiagram id=\"diagram\">",
        "<bpmn:serviceTask camunda:class=\"com.example.LateDelegate\">",
    ]));
    assert!(r.delegates.is_empty());
}

#[test]
fn terminal_marker_keeps_earlier_results() {
    let r = scan_lines(&doc(&[
        "<bpmn:serviceTask camunda:class=\"com.example.EarlyDelegate\">",
        "<bpmndi:BPMNDiagram id=\"diagram\">",
        "<bpmn:serviceTask camunda:class=\"com.example.LateDelegate\">",
    ]));
    assert_eq!(r.delegates, vec!["com.example.EarlyDelegate".to_string()]);
}

#[test]
fn cross_source_duplicates_collapse() {
    // The same name via input-parameter syntax and via script assignment
    // yields exactly one occurrence in the final sequence.
    let r = scan_lines(&doc(&[
        "<camunda:inputParameter name=\"outputName\">orderId</camunda:inputParameter>",
        "execution.setVariable(\"orderId\", val)",
    ]));
    assert_eq!(r.context_variables, vec!["orderId".to_string()]);
}

#[test]
fn scan_twice_identical() {
    let lines = doc(&[
        "<bpmn:userTask id=\"t1\" name=\"Check\">",
        "<bpmn:serviceTask camunda:class=\"com.example.FooDelegate\">",
        "execution.setVariable('key', val)",
        "execution.setVariables(",
        "  \"alpha\": 1",
        ");",
    ]);
    let r1 = scan_lines(&lines);
    let r2 = scan_lines(&lines);
    assert_eq!(r1.delegates, r2.delegates);
    assert_eq!(r1.context_variables, r2.context_variables);
    assert_eq!(r1.user_tasks.len(), r2.user_tasks.len());
    for (a, b) in r1.user_tasks.iter().zip(r2.user_tasks.iter()) {
        assert_eq!(a.id, b.id);
        assert_eq!(a.name, b.name);
    }
}

#[test]
fn unterminated_block_keeps_partial_keys() {
    // End of input inside an open block is not an error: keys already
    // extracted remain.
    let r = scan_lines(&doc(&["execution.setVariables(", "  \"alpha\": 1,"]));
    assert_eq!(r.context_variables, vec!["alpha".to_string()]);
}

#[test]
fn filter_pattern_restricts_delegates() {
    let lines = doc(&[
        "<bpmn:serviceTask camunda:class=\"com.example.FooDelegate\">",
        "<bpmn:serviceTask camunda:class=\"org.other.BarDelegate\">",
    ]);
    let r = scan_lines_with_filter(&lines, &DelegateFilter::Pattern("com.example".to_string()));
    assert_eq!(r.delegates, vec!["com.example.FooDelegate".to_string()]);
}

#[test]
fn filter_closed_matches_nothing() {
    let lines = doc(&["<bpmn:serviceTask camunda:class=\"com.example.FooDelegate\">"]);
    let r = scan_lines_with_filter(&lines, &DelegateFilter::Closed);
    assert!(r.delegates.is_empty());
}

#[test]
fn leading_whitespace_trimmed_before_dispatch() {
    let r = scan_lines(&doc(&["    <bpmn:userTask id=\"t1\" name=\"Check\">"]));
    assert_eq!(r.user_tasks.len(), 1);
    assert_eq!(r.user_tasks[0].id, "t1");
}

#[test]
fn user_task_priority_over_delegate() {
    // A user-task line is dispatched to the user-task extractor even when it
    // also contains a class attribute marker.
    let r = scan_lines(&doc(&[
        "<bpmn:userTask id=\"t1\" name=\"Check\" camunda:class=\"com.example.X\">",
    ]));
    assert_eq!(r.user_tasks.len(), 1);
    assert!(r.delegates.is_empty());
}

#[test]
fn malformed_lines_contribute_nothing() {
    let r = scan_lines(&doc(&[
        "<bpmn:userTask id=\"broken",
        "class=\"unterminated",
        "just some text",
    ]));
    assert!(r.delegates.is_empty());
    assert!(r.context_variables.is_empty());
    assert!(r.user_tasks.is_empty());
}

#[test]
fn block_closing_shapes() {
    // Each closing shape ends the block: `)]`, `)];`, `);`, leading `)`.
    for closer in [")]", ")];", ");", ")"] {
        let mut sc = LineScanner::new();
        let f = DelegateFilter::Unrestricted;
        sc.process_line("execution.setVariables(", &f);
        assert!(sc.in_block);
        sc.process_line(closer, &f);
        assert!(!sc.in_block, "closer {:?} should end the block", closer);
    }
}
