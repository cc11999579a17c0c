use vstd::prelude::*;

verus! {

/// The command line of the importer.
pub struct Cli;

/// What the command line asks for: the log file to write, the configuration
/// file, the CSV file to import, and whether its rows are sales orders.
#[derive(Debug, Clone)]
pub struct ReceivedArgs {
    pub log_file: String,
    pub config_file: String,
    pub import_file: String,
    pub template_pedido: bool,
}

} // verus!
