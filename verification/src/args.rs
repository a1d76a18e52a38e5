//! The commands of the command line tool.

use vstd::prelude::*;

verus! {

/// The command line of the tool: one command.
pub struct EXTRACTArgs {
    pub command: EXTRACTCommands,
}

/// What the tool is asked to do.
pub enum EXTRACTCommands {
    /// Run the extraction on a file.
    Extract {
        /// The path to the file to refactor.
        file_path: String,
        /// The output path for the refactored file.
        new_file_path: String,
        /// The start line of the code to extract.
        start_line: usize,
        /// The column of the cursor on the start line.
        start_column: usize,
        /// The end line of the code to extract.
        end_line: usize,
        /// The column of the cursor on the end line.
        end_column: usize,
        /// The name of the new function to create.
        new_fn_name: String,
        /// Whether to print more.
        verbose: bool,
    },
    /// Run the extraction over the test files.
    Test {
        /// Whether to print more.
        verbose: bool,
    },
}

} // verus!
