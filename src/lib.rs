//! Navigation, search, selection and execution bookkeeping for a browsable
//! catalog of system utilities.

mod cache;
mod catalog;
mod config;
mod execution;
mod export;
mod preview;
mod search;
mod selection;
mod session;
mod system;
mod text;
mod theme;

pub use cache::{clear_tabs_cache, lemma_one_fetch_per_invalidation, CacheCounter, CatalogCache};
pub use catalog::{
    catalog_wf, copy_strings, first_category_named, LookupError, strings_view, Catalog, CatalogNode, Category, CommandModel,
    CommandSpec, CoreError,
};
pub use config::{AppConfig, Args};
pub use execution::{
    compose_result, displayed_output, lemma_request_delivered, status_line, lemma_batch_collected_in_order,
    lemma_results_in_submission_order, lemma_submit_appends, lemma_two_requests_in_order,
    placeholder, plain_outcome, plain_outcome_of, report_of, report_text, spawn_failure,
    spawn_failure_prefix, CommandExecutionResult, CommandResult, CompletedRun,
    CoordinatorModel, CoordinatorStep, ExecutionCoordinator, ExecutionRequest,
};
pub use export::{
    command_content_of, command_matches, command_type_of, decimal, decimal_text, digit_char,
    entry_at, entry_command, entry_command_of, entry_info, entry_of, entry_preview,
    entry_preview_of, entry_script_path, entry_script_path_of, find_entry, first_entry_at, preview_matches, resolve_entry_command,
    resolve_entry_preview, script_args, tab_of, with_description, EntryCommand,
    EntryCommandModel, EntryError, EntryInfo, TabInfo,
};
pub use preview::{option_view, preview_of, preview_text, script_text};
pub use search::{
    filter_children, filtered, lemma_filtered_empty_query, lemma_filtered_within,
    matches_query, node_matches,
};
pub use selection::{lemma_toggle_twice, toggled, SelectionSet};
pub use session::{
    at_fresh_root, batch_executable, clamped, describes, entered, frames_wf, lemma_back_restores_cursor,
    lemma_search_shows_matching_children, moved_coordinator, moved_cursor, moved_selection,
    queued_batch, request_for, same_outside_navigation, selectable, went_back, Frame, ListEntry, Session,
};
pub use system::{
    first_value, has_prefix, lines_of, pretty_name, pretty_name_of, strip_cr, trim_quotes,
};
pub use text::{
    chars_of, contains_chars, contains_folded, contains_ignoring_case, contains_text, is_white,
    join_strings, joined, lemma_split_nonempty, lower_of, occurs_at, split_on, split_text,
    words_of,
};
pub use theme::Theme;
