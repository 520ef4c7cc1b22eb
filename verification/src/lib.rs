//! Reading and displaying the output of `git grep`, `grep`, `rg` and their kin.

pub mod decimal;
pub mod format;
pub mod graphemes;
pub mod line;
pub mod machine;
pub mod output_config;
pub mod parse;
pub mod pattern;
pub mod process;
pub mod sections;
pub mod text;
