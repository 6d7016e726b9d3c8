//! Command-line surface of the program
//!
//! The argument parsing itself lives with the binary; these are the bare
//! shapes that the parsed arguments take.

use vstd::prelude::*;

verus! {

/// Command-line arguments that are passed to the program
#[derive(Debug, Copy, Clone)]
pub struct CliArgs {
    /// The mode of operation which should be run
    pub command: Option<CliCommand>,
}

/// Possible modes of operation
#[derive(Debug, Copy, Clone)]
pub enum CliCommand {
    /// Print the schema for configuration types of this KRM function
    PrintSchema {
        /// The format in which the schema should be printed
        format: SchemaFormat,
    },
    /// Execute the main kustomize plugin functionality (default)
    ExecPlugin,
}

/// Possible formats in which schemas can be printed
#[derive(Copy, Clone, Debug)]
pub enum SchemaFormat {
    /// JSON schema
    JsonSchema,
    /// OpenAPI 3
    Openapi,
}

} // verus!
