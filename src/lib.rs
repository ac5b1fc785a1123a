//! Verified core of a terminal dashboard and batch reporter for container
//! services: the bounded fetch planning and result collection, the pane state
//! machine, the event translator and the dashboard reducer.

mod config;
mod domain;
mod event;
mod fetch;
mod message;
mod model;
mod pane;
mod pattern;
mod services;
mod sort;
mod text;
mod update;

pub use text::{
    text_lt, text_order,
};
pub use config::{
    clone_texts, parse_config_source, same_texts, source_named, texts_view, ClusterConfig,
    ClusterView, Config, ConfigSource, SourceView,
};
pub use domain::{
    clone_service_result, environment_from_flag, primary_status, sample_deployment,
    service_result_view, state_includes, DeploymentDetails, DeploymentError, DeploymentErrorView,
    DeploymentResult, DeploymentState, DeploymentView, Environment, OutputFormat, OutputMode,
    Service, ServiceDetails, ServiceError, ServiceErrorView, ServiceResult, ServiceView,
};
pub use sort::{
    insert_by_key, key_sorted, lemma_insert_by_key_position, lemma_key_sorted_fixes_sorted,
    lemma_key_sorted_idempotent, lemma_key_sorted_is_sorted, lemma_key_sorted_permutes,
    lemma_name_keys_order, name_keys_before, name_keys_lt, sort_by_key, sorted_by_key, views,
    SortKeyed,
};
pub use fetch::{
    all_clients_present, batch_failures, batch_records, check_clients, client_registered,
    cluster_records, collect_deployments, deployment_included, deployment_kept, deployment_record,
    deployments_of_cluster, distinct_sources, failure_records, failures_of_cluster, has_client,
    join_keys, joined_keys, lemma_batch_order, lemma_state_filters, service_records,
    shown_or_redacted, source_used, text_or_empty, text_or_unknown, unknown_text,
    MAX_CONCURRENT_FETCHES, ClusterOutcome, DescribedDeployment, DescribedService, FetchError,
    FetchLimiter,
};
pub use pattern::{
    filtered_cluster, matches_any, matching_texts, pattern_view, regex_matches, select_clusters,
    selected_clusters, TAG_REGEX_STR, Pattern, Profile,
};
pub use pane::{
    is_detail, is_list, next_row, pane_at, previous_row, row_of, InputEvent, KeyCode, Pane,
};
pub use event::{
    event_message, get_event_handling_msg, help_message, is_pane_key, lemma_pane_keys_total,
    list_only, pane_message, small_terminal_message,
};
pub use message::{
    Command, CommandView, Message,
};
pub use model::{
    bottom_selection, cache_map, clone_containers, clone_tasks, first_selection, is_too_small,
    item_name, lemma_cache_map_absent, lemma_cache_map_remove, lemma_cache_map_suffix,
    lemma_marked_count_bound, lemma_marked_count_concat, lemma_marked_count_insert,
    lemma_marked_count_sorted, lemma_marked_count_update, lemma_unmarked_count, mark_of,
    marked_count, move_selection, moved_selection, name_or_empty, next_selection,
    only_successes_marked, opt_view, parent_pane, previous_selection, selection_valid, too_small,
    top_selection, unmarked_items, with_moved_selection, CLEAR_USER_MESSAGE_LOOP_INTERVAL_SECS,
    MIN_TERMINAL_HEIGHT, MIN_TERMINAL_WIDTH, CacheEntry, ContainerItems, ContainerSnapshot,
    ContainerView, ListMove, Model, RunningState, ServiceItem, ServiceItemView, ServiceItems,
    TaskItems, TaskSnapshot, TaskView, TerminalDimensions, UserMessage,
};
pub use services::{
    described_result, empty_name_error, failed_results, listed_results, missing_client_error,
    refreshed_result, refreshed_service, results_view, services_for_cluster, text_or_unknown_word,
    unknown_word, ServiceResultView,
};
pub use update::{
    applied, capped_add, containers_after_message, containers_follow, data_refreshed, error_count,
    evicted, expired, fetched_task_commands, is_task_pane, lemma_eviction_lasts,
    lemma_mark_then_unmark, lemma_marking_failure_refused, lemma_refresh_evicts, list_move_of,
    lists_containers_of, message_commands, message_effect, raised_at, refresh_targets, resynced,
    selected_result, selected_task_of, task_selection, tasks_after_message, update,
};
