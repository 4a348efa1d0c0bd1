use bpmn_audit::extract_between;
use bpmn_audit::extract_class_name;
use bpmn_audit::extract_id_and_name;
use bpmn_audit::extract_input_variable;
use bpmn_audit::extract_output_key;
use bpmn_audit::extract_output_value;
use bpmn_audit::extract_set_variable;
use bpmn_audit::extract_set_variables;

#[test]
fn between_basic() {
    assert_eq!(extract_between("a[x]b", "[", "]"), Some("x"));
    assert_eq!(extract_between("no markers here", "[", "]"), None);
    assert_eq!(extract_between("open [ only", "[", "]"), None);
}

#[test]
fn between_identical_markers() {
    // With the same start and end marker the result is the text between the
    // first and the immediately following occurrence, not a balanced match.
    assert_eq!(extract_between("say \"hi\" and \"bye\"", "\"", "\""), Some("hi"));
}

#[test]
fn class_name_basic() {
    let line = "<bpmn:serviceTask id=\"t1\" camunda:class=\"com.example.FooDelegate\">";
    assert_eq!(extract_class_name(line), Some("com.example.FooDelegate"));
}

#[test]
fn class_name_absent() {
    assert_eq!(extract_class_name("<bpmn:serviceTask id=\"t1\">"), None);
    // Marker present but never closed by a quote.
    assert_eq!(extract_class_name("class=\"unterminated"), None);
}

#[test]
fn id_and_name_basic() {
    let line = "<bpmn:userTask id=\"task1\" name=\"Review request\">";
    assert_eq!(extract_id_and_name(line), Some(("task1", "Review request")));
}

#[test]
fn id_and_name_all_or_nothing() {
    // A line with an id but no locatable name marker yields no partial pair.
    assert_eq!(extract_id_and_name("<bpmn:userTask id=\"task1\">"), None);
    assert_eq!(extract_id_and_name("no user task here"), None);
}

#[test]
fn input_variable_basic() {
    let line = "<camunda:inputParameter name=\"outputName\">orderId</camunda:inputParameter>";
    assert_eq!(extract_input_variable(line), Some("orderId"));
    assert_eq!(extract_input_variable("<camunda:inputParameter name=\"outputName\">x"), None);
}

#[test]
fn output_key_qualified() {
    let line = "<camunda:outputParameter name=\"foo.bar\">";
    assert_eq!(extract_output_key(line), Some("foo.bar"));
}

#[test]
fn output_value_reference() {
    let line = "<camunda:outputParameter name=\"x\">${myVar}</camunda:outputParameter>";
    assert_eq!(extract_output_value(line), Some("myVar"));
    assert_eq!(extract_output_value("no shielded expression"), None);
}

#[test]
fn set_variable_single_quotes() {
    assert_eq!(extract_set_variable("execution.setVariable('key', val)"), Some("key"));
}

#[test]
fn set_variable_double_quotes() {
    assert_eq!(extract_set_variable("execution.setVariable(\"key\", val)"), Some("key"));
}

#[test]
fn set_variable_absent() {
    assert_eq!(extract_set_variable("def x = 1"), None);
    assert_eq!(extract_set_variable("execution.setVariable(unquoted)"), None);
}

#[test]
fn set_variables_sniffs_first_quote() {
    assert_eq!(extract_set_variables("\"alpha\":1,"), Some("alpha"));
    assert_eq!(extract_set_variables("'beta':2"), Some("beta"));
    assert_eq!(extract_set_variables(");"), None);
    assert_eq!(extract_set_variables("\"unclosed"), None);
}
