//! cdx: an interactive directory navigator, as a verified library.
//!
//! The library holds the navigator's logic with its contracts: the key
//! bindings and the configuration, which entries are listed and how they
//! are shown, the merge of zoxide's directories, the fuzzy ranking, the
//! debounced and cancellable directory search, the preview tree, the grep
//! results and their highlighting, and the state machine of the navigator
//! itself. The program around it (`app/`) reads the terminal, the clock and
//! the file system, runs `git`, `rg`, `zoxide`, `eza`, `bat` and `fzf`, and
//! draws.
pub mod text;
pub mod keys;
pub mod config;
pub mod walker;
pub mod paths;
pub mod icons;
pub mod json;
pub mod grep;
pub mod zoxide;
pub mod search_state;
pub mod search;
pub mod score;
pub mod tree;
pub mod git;
pub mod app;
pub mod preview;
pub mod view;
pub mod cli;
pub mod laws;
pub mod highlight;
