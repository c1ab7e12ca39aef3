//! Mesh-export selection and progress reporting for the UI layer.

use vstd::prelude::*;

verus! {

/// Export file formats.
#[derive(Debug, Clone, Copy, PartialEq, Eq, Structural)]
pub enum ExportFormat {
    /// Binary glTF.
    Glb,
    /// Wavefront OBJ.
    Obj,
}

impl ExportFormat {
    /// File extension of the format.
    pub fn extension(&self) -> (r: &'static str)
        ensures
            self is Glb ==> r@ == "glb"@,
            self is Obj ==> r@ == "obj"@,
    {
        match self {
            ExportFormat::Glb => "glb",
            ExportFormat::Obj => "obj",
        }
    }

    /// Human-readable filter name for file dialogs.
    pub fn filter_name(&self) -> (r: &'static str)
        ensures
            self is Glb ==> r@ == "glTF Binary"@,
            self is Obj ==> r@ == "Wavefront OBJ"@,
    {
        match self {
            ExportFormat::Glb => "glTF Binary",
            ExportFormat::Obj => "Wavefront OBJ",
        }
    }
}

/// Progress messages an export worker reports back.
#[derive(Debug, Clone)]
pub enum ExportStatus {
    /// Export started, with a description.
    Started(String),
    /// Progress text.
    Progress(String),
    /// Finished, with a summary.
    Done(String),
    /// Failed or cancelled, with the reason.
    Error(String),
}

} // verus!
