//! Emitting a report: what is to be printed and what persisted, and in
//! which order.

use vstd::prelude::*;
use crate::suite::SuiteView;

verus! {

/// The name of the file that holds the report of the suite `name`.
pub open spec fn report_file_name(name: Seq<char>) -> Seq<char> {
    name + ".json"@
}

/// What a step of emitting a report asks for, as mathematical values.
pub enum EmitView {
    Print { text: Seq<char> },
    Persist { dir: Seq<char>, file_name: Seq<char>, content: Seq<char> },
}

/// One step of emitting a report.
#[derive(Debug)]
pub enum Emit {
    /// Write `text` to standard output.
    Print { text: String },
    /// Write `content` to the file `file_name` under `dir`.
    Persist { dir: String, file_name: String, content: String },
}

impl View for Emit {
    type V = EmitView;

    open spec fn view(&self) -> EmitView {
        match *self {
            Emit::Print { text } => EmitView::Print { text: text@ },
            Emit::Persist { dir, file_name, content } => EmitView::Persist {
                dir: dir@,
                file_name: file_name@,
                content: content@,
            },
        }
    }
}

/// The steps of emitting the rendered report `report` of `suite`, in the
/// order in which they are to be taken: the text is printed, and then,
/// where an output location is configured, the same text is persisted
/// under it in the file named after the suite.
pub open spec fn emission(suite: SuiteView, report: Seq<char>) -> Seq<EmitView> {
    match suite.output_dir {
        Some(dir) => seq![
            EmitView::Print { text: report },
            EmitView::Persist { dir, file_name: report_file_name(suite.name), content: report },
        ],
        None => seq![EmitView::Print { text: report }],
    }
}

/// The steps of a list, as mathematical values.
pub open spec fn steps_view(steps: Seq<Emit>) -> Seq<EmitView> {
    steps.map_values(|step: Emit| step@)
}

} // verus!
