use vstd::prelude::*;

verus! {

/// A section of a document that a registrar works on.
#[derive(PartialEq, Eq, Structural, Clone, Copy, Debug)]
pub enum Section {
    /// The manifest's `dependencies` table.
    Dependencies,
    /// The binding configuration's `parse.extra_bindings` array.
    ExtraBindings,
}

impl Section {
    /// The dotted path of the section in its document.
    pub fn dotted_path(&self) -> (r: String)
        ensures
            *self == Section::Dependencies ==> r@ == "dependencies"@,
            *self == Section::ExtraBindings ==> r@ == "parse.extra_bindings"@,
    {
        match self {
            Section::Dependencies => String::from_str("dependencies"),
            Section::ExtraBindings => String::from_str("parse.extra_bindings"),
        }
    }
}

/// Why a registration run stopped short of its goal.
#[derive(Debug, Clone, PartialEq)]
pub enum RegistrationError {
    /// The project-creation tool could not be launched; carries the system's description.
    ToolUnavailable(String),
    /// The tool ran and exited unsuccessfully; carries what it wrote to its two streams.
    ToolExecutionFailed { stdout: String, stderr: String },
    /// A document's text is not well-formed; carries the parser's message.
    ParseError(String),
    /// A document lacks the section a registrar works on, or has it in another shape.
    SchemaError(Section),
    /// A document could not be read or written; carries the system's description.
    WriteError(String),
}

} // verus!
