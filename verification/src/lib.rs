//! Decisions, text formats and protocols of the git-fuzzy `status` view for
//! the zshrs shell: the fzf command line, the reading of the user's pick,
//! the session around it, the helpers fzf calls back, and the live-reload
//! watcher. What runs processes, reads files or talks to the host shell's
//! output lives outside this library.

pub mod ansi;
pub mod git;
pub mod helper;
pub mod keys;
pub mod layout;
pub mod paths;
pub mod preview;
pub mod quote;
pub mod session;
pub mod status;
pub mod text;
pub mod watch;

pub use ansi::status_menu_content;
pub use helper::helper_cmd;
pub use layout::{is_vertical, preview_window, small_screen, term_size};
pub use paths::{paths_from_fields, strip_rename};
pub use quote::shell_quote;
pub use text::lc;
pub use watch::state_hash;
