use vstd::prelude::*;

verus! {

/// The command-line surface: where the persistent store lives, where the
/// report goes (standard output when absent), and the action to take.
pub struct Cli {
    pub output: Option<String>,
    pub database: String,
    pub command: Commands,
}

/// The three actions: render the ranking, apply one rating period, or load
/// an import file into a period.
pub enum Commands {
    Print,
    Update { rating_period: i32 },
    Load { matches: String, rating_period: i32 },
}

} // verus!
