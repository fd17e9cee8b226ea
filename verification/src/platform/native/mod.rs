//! Native platform helpers: system information and monitor summaries.
pub mod sys_info;
pub mod monitors;
