//! Team orchestration engine: roster management, plan validation, the
//! sandboxed tool loop, the writer/critic reflection loop, the event journal
//! and the status projection rebuilt from that journal.

mod text;
mod ident;
mod roster;
mod plan;
mod sandbox;
mod tools;
mod journal;
mod reflection;
mod status;
mod artifacts;
mod providers;
mod entries;
mod prompts;
mod layout;
mod tags;
mod camp;
mod listing;

pub use ident::{
    normalize_tool_subset, normalize_tool_subset_idempotent, validate_simple_identifier,
};
pub use roster::{
    default_team_config, find_agent, find_agent_by_role, normalize_team_config, sort_roster,
    sorted_roster_is_a_sorted_permutation, sorting_sorted_roster_changes_nothing, AgentMeta,
    TeamAgentConfig, TeamAgentCreateInput, TeamConfig, TeamSettingsUpdateInput,
};
pub use plan::{
    validate_decomposition_plan, validated_plan_well_formed, DecompositionPlan, DelegationStep,
};
pub use sandbox::{
    ensure_within_root, escaping_paths_refused, resolve_tool_path, validate_relative_path,
};
pub use tools::{
    plan_tool_call, tool_loop_bounded, tool_loop_stops_after_six, tool_names_for_subset,
    tool_spec_json, tool_specs_for_subset, AgentStepResult, LoopStep,
    ToolAction, ToolArgs, ToolLoop, TEAM_MAX_TOOL_LOOPS,
};
pub use journal::{
    accumulate_usage, append_journal_line, is_record_text, journal_lines, journal_round_trip, usage_to_bus,
    BusContent, BusEntry, BusEntryType, BusTokenUsage, ProviderUsage,
};
pub use reflection::{
    failing_critic_runs_every_round, requested_rounds, rounds_are_clamped, CritiqueResult,
    ReflectionRun, ReflectionStep, ReflectionSummary,
};
pub use status::{
    preview_from_content, solo_status, status_of_step, team_status, TeamAgentStatus,
    TeamArtifactsStatus, TeamStatus, TeamStepStatus,
};
pub use artifacts::{
    artifact_display_path, draft_filename, draft_relative_path, fallback_draft_filename,
    sanitize_filename, unique_promoted_name,
};
pub use providers::{
    endpoint, ensure_provider_enabled, now_timestamp_ms, provider_to_runtime_config,
    require_api_key, BasecampChatMetadata, LlamaCppProvider, LmStudioProvider, OllamaProvider,
    OpenRouterProvider, ProviderCapabilities, ProviderConfig, ProviderHealthStatus, ProviderKind,
    ProviderManager, ProviderRegistryRow, ProviderRuntimeSettings, StreamProtocol,
};
pub use entries::{
    critique_entry, decomposition_entries, make_bus_entry, promotion_entry, revision_entry,
    step_result_entry,
};
pub use prompts::{
    critic_request, decomposition_request, default_agent_prompt, default_supervisor_prompt,
    json_candidates, json_parse_failure, reflection_agents, render_agent_roster,
    render_supervisor_prompt, step_instruction, step_request, supervisor_task_message,
    writer_request,
};
pub use layout::{
    agent_context_dir, agent_dir, agent_prompt_path, agent_tools_path, agent_transcript_path,
    agents_root, debug_dir, events_path, sanitize_filename_component, supervisor_dir,
    supervisor_prompt_path, supervisor_tools_path, supervisor_transcript_path, team_artifacts_dir,
    team_bus_path, team_drafts_dir, team_json_path, team_promoted_dir, turn_bundle_file_path,
    turn_file_path, turn_request_file_path, turn_response_file_path,
};
pub use tags::{normalize_artifact_tags, normalize_artifact_tags_idempotent};
pub use camp::{
    artifact_markdown_path, resolve_note_path, validate_artifact_filename,
    validate_context_relative_path, validate_identifier, validate_note_filename,
};
pub use listing::{sort_file_names, sorted_names_are_a_sorted_permutation};
