//! Audit of a BPMN/Camunda process-definition document.
//!
//! The library scans a document line by line and extracts three artifacts:
//! the distinct Java delegate class names referenced by service tasks, the
//! user-task id/name pairs, and the "context variables" that flow through
//! input parameters, output parameters, or `execution.setVariable(s)(...)`
//! script assignments. Each category is deduplicated and returned as a
//! deterministically ordered sequence.

pub mod extract;
pub mod laws;
pub mod order;
pub mod scanner;
pub mod text;

pub use extract::extract_class_name;
pub use extract::extract_id_and_name;
pub use extract::extract_input_variable;
pub use extract::extract_output_key;
pub use extract::extract_output_value;
pub use extract::extract_set_variable;
pub use extract::extract_set_variables;
pub use order::UserTask;
pub use scanner::scan_lines;
pub use scanner::scan_lines_with_filter;
pub use scanner::DelegateFilter;
pub use scanner::LineScanner;
pub use scanner::ScanResult;
pub use text::extract_between;
