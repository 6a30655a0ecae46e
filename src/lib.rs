//! Command bookkeeping for a small chat bot: the command registry, the usage
//! counters, the dispatch hooks and the replies of the built-in commands.
pub mod text;
pub mod counter;
pub mod registry;
pub mod dispatch;
