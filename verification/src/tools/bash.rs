pub mod lexer;
pub mod ordered_set;
pub mod classifier;
pub mod command_pattern;
pub mod parser;
pub mod output;
pub mod pattern_registry;
pub mod round_trip;
pub mod tool;

pub use parser::BashCommandParser;
pub use classifier::{BashCommandClassifier, CommandRisk};
pub use pattern_registry::BashCommandPatternRegistry;
pub use tool::BashTool;
