use basecamp_team::{
    decomposition_entries, endpoint, ensure_provider_enabled, ensure_within_root, json_candidates,
    preview_from_content, promotion_entry, provider_to_runtime_config, reflection_agents,
    render_agent_roster, render_supervisor_prompt, require_api_key, sanitize_filename_component,
    solo_status, status_of_step, step_instruction, step_request, step_result_entry,
    team_json_path, team_status, tool_names_for_subset, turn_bundle_file_path,
    turn_request_file_path, turn_response_file_path, agent_context_dir, critique_entry,
    BusContent, BusEntry, BusEntryType, BusTokenUsage, CritiqueResult, DecompositionPlan,
    DelegationStep, ProviderConfig, ProviderKind, ProviderRegistryRow, ProviderRuntimeSettings,
    TeamAgentConfig, TeamConfig,
};

fn strings(values: &[&str]) -> Vec<String> {
    values.iter().map(|v| v.to_string()).collect()
}

fn agent(id: &str, role: &str, tools: &[&str]) -> TeamAgentConfig {
    TeamAgentConfig {
        id: id.to_string(),
        role: role.to_string(),
        model: "ollama/llama3".to_string(),
        tool_subset: strings(tools),
        description: String::new(),
    }
}

fn team(agents: Vec<TeamAgentConfig>) -> TeamConfig {
    TeamConfig {
        is_team: true,
        supervisor_model: "openrouter/auto".to_string(),
        agents,
        reflection_loops: true,
        max_reflection_rounds: 2,
    }
}

fn step(id: &str, to: &str) -> DelegationStep {
    DelegationStep {
        step_id: id.to_string(),
        assigned_to: to.to_string(),
        instruction: " Write it ".to_string(),
        depends_on: Vec::new(),
        expected_output: format!("{id}.md"),
    }
}

fn usage(input: i64, output: i64) -> BusTokenUsage {
    BusTokenUsage { input, output }
}

fn entry(entry_type: BusEntryType, from: &str, step_id: Option<&str>, content: BusContent, u: BusTokenUsage) -> BusEntry {
    BusEntry {
        id: "id".to_string(),
        timestamp: "2024-01-01T00:00:00Z".to_string(),
        entry_type,
        from: from.to_string(),
        to: "supervisor".to_string(),
        step_id: step_id.map(|s| s.to_string()),
        content,
        token_usage: u,
    }
}

fn plan() -> DecompositionPlan {
    DecompositionPlan {
        task_summary: "Poem".to_string(),
        steps: vec![step("s1", "writer"), step("s2", "critic"), step("s3", "writer")],
        reflection_required: true,
    }
}

#[test]
fn status_is_rebuilt_from_the_journal() {
    let config = team(vec![agent("writer", "writer", &["read_file"]), agent("critic", "critic", &[])]);
    let mut entries = decomposition_entries(plan(), usage(100, 50));
    assert_eq!(entries.len(), 4);
    entries.push(step_result_entry(
        "writer",
        "s1".to_string(),
        "First\nline".to_string(),
        "artifacts/drafts/s1.md".to_string(),
        Vec::new(),
        usage(10, 20),
    ));
    entries.push(entry(BusEntryType::Error, "critic", Some("s3"), BusContent::Text("boom".to_string()), usage(1, 1)));
    let critique = CritiqueResult { issues: Vec::new(), suggestions: Vec::new(), pass: false };
    entries.push(critique_entry("critic", 1, &critique, usage(3, 4)));

    let status = team_status(&config, &entries, strings(&["a.md"]), Vec::new());
    assert!(status.is_team);
    assert_eq!(status.bus_entries, 7);
    let steps: Vec<(&str, &str)> = status.steps.iter().map(|s| (s.step_id.as_str(), s.status.as_str())).collect();
    assert_eq!(steps, vec![("s1", "complete"), ("s2", "running"), ("s3", "failed")]);

    assert_eq!(status.agents[0].id, "writer");
    assert_eq!(status.agents[0].token_usage.input, 10);
    assert_eq!(status.agents[0].token_usage.output, 20);
    assert_eq!(status.agents[0].last_output_preview.as_deref(), Some("First line"));
    assert_eq!(status.agents[0].status, "idle");
    assert_eq!(status.agents[1].status, "working");
    assert_eq!(status.agents[1].token_usage.input, 4);
    assert_eq!(status.artifacts.drafts, strings(&["a.md"]));
}

#[test]
fn later_plans_supersede_earlier_ones() {
    let config = team(vec![agent("writer", "writer", &[])]);
    let mut entries = decomposition_entries(plan(), usage(0, 0));
    let second = DecompositionPlan { task_summary: "Again".to_string(), steps: vec![step("t1", "writer")], reflection_required: false };
    entries.extend(decomposition_entries(second, usage(0, 0)));
    let status = team_status(&config, &entries, Vec::new(), Vec::new());
    assert_eq!(status.steps.len(), 1);
    assert_eq!(status.steps[0].step_id, "t1");
    assert_eq!(status.steps[0].status, "running");
    assert_eq!(status.agents[0].status, "working");
}

#[test]
fn critic_without_running_steps_is_reflecting() {
    let config = team(vec![agent("critic", "critic", &[])]);
    let critique = CritiqueResult { issues: Vec::new(), suggestions: Vec::new(), pass: true };
    let entries = vec![critique_entry("critic", 1, &critique, usage(0, 0))];
    let status = team_status(&config, &entries, Vec::new(), Vec::new());
    assert!(status.steps.is_empty());
    assert_eq!(status.agents[0].status, "reflecting");
}

#[test]
fn step_status_defaults_to_pending() {
    let entries: Vec<BusEntry> = Vec::new();
    assert_eq!(status_of_step(&entries, "s1"), "pending");
}

#[test]
fn solo_camp_status() {
    let status = solo_status();
    assert!(!status.is_team);
    assert_eq!(status.max_reflection_rounds, 2);
    assert_eq!(status.bus_entries, 0);
}

#[test]
fn previews_are_trimmed_and_cut() {
    let long = "x".repeat(250);
    let preview = preview_from_content(&BusContent::Text(format!("  {long}  "))).unwrap();
    assert_eq!(preview.chars().count(), 200);
    assert_eq!(preview_from_content(&BusContent::Text(" \n ".to_string())), None);
    assert_eq!(preview_from_content(&BusContent::Other("{}".to_string())), None);
}

#[test]
fn promotion_record_carries_the_outcome() {
    let e = promotion_entry("artifacts/drafts/a.md".to_string(), "artifacts/promoted/a.md".to_string(), Some((false, 2)));
    assert_eq!(e.entry_type, BusEntryType::Promotion);
    assert_eq!(e.from, "supervisor");
    assert_eq!(e.to, "all");
    match e.content {
        BusContent::Promotion { pass, rounds_completed, .. } => {
            assert_eq!(pass, Some(false));
            assert_eq!(rounds_completed, Some(2));
        }
        _ => panic!("expected a promotion payload"),
    }
    assert!(!e.id.is_empty());
    assert!(!e.timestamp.is_empty());
}

#[test]
fn roster_renders_one_line_per_agent() {
    let config = team(vec![agent("writer", "writer", &["read_file", "write_file"]), agent("critic", "critic", &[])]);
    assert_eq!(
        render_agent_roster(&config),
        "- id: writer, role: writer, model: ollama/llama3, tools: [read_file, write_file], description: No description\n- id: critic, role: critic, model: ollama/llama3, tools: [none], description: No description"
    );
    assert_eq!(render_agent_roster(&team(Vec::new())), "- No agents configured");
    assert_eq!(render_supervisor_prompt("Team:\n{{agent_roster}}\nEnd {{agent_roster}}", "R"), "Team:\nR\nEnd R");
}

#[test]
fn json_candidates_strip_fences_and_find_braces() {
    let c = json_candidates("  ```json\n{\"a\":1}\n```  ").unwrap();
    assert_eq!(c, strings(&["```json\n{\"a\":1}\n```", "{\"a\":1}", "{\"a\":1}"]));
    let d = json_candidates("Here it is: {\"b\":2} done").unwrap();
    assert_eq!(d[2], "{\"b\":2}");
    assert_eq!(json_candidates("no json").unwrap().len(), 2);
    assert_eq!(json_candidates("  ").unwrap_err(), "Model returned empty output where JSON was expected.");
}

#[test]
fn step_requests_are_checked() {
    let config = team(vec![agent("writer", "writer", &[]), agent("critic", "critic", &[])]);
    assert_eq!(step_request(&config, "writer", &step("s1", "writer")), Ok((0, "s1".to_string())));
    assert_eq!(
        step_request(&config, "critic", &step("s1", "writer")),
        Err("Requested agent does not match step.assigned_to.".to_string())
    );
    assert_eq!(step_request(&config, "ghost", &step("s1", "ghost")), Err("Agent not found in team roster.".to_string()));
    assert_eq!(
        step_instruction("s1", "writer", &step("s1", "writer")),
        "Delegation step id: s1\nAssigned role: writer\n\nInstruction:\nWrite it\n\nDependencies: none\n\nExpected output:\ns1.md\n\nWhen complete, provide the final result text for this step."
    );
}

#[test]
fn reflection_needs_writer_and_critic() {
    let both = team(vec![agent("a", "Critic", &[]), agent("WRITER", "author", &[])]);
    assert_eq!(reflection_agents(&both), Ok((1, 0)));
    let none = team(vec![agent("a", "critic", &[])]);
    assert_eq!(
        reflection_agents(&none),
        Err("Team is missing a Writer agent required for reflection loop.".to_string())
    );
    let no_critic = team(vec![agent("w", "writer", &[])]);
    assert_eq!(
        reflection_agents(&no_critic),
        Err("Team is missing a Critic agent required for reflection loop.".to_string())
    );
}

#[test]
fn unknown_tool_names_are_not_offered() {
    let names = tool_names_for_subset(&strings(&["read_file", "shell", "web_search"]));
    assert_eq!(names, strings(&["read_file", "web_search"]));
}

#[test]
fn within_root_is_a_path_prefix() {
    assert!(ensure_within_root("/a/ctx", "/a/ctx/x.md").is_ok());
    assert!(ensure_within_root("/a/ctx", "/a/ctx").is_ok());
    assert_eq!(ensure_within_root("/a/ctx", "/a/ctx2/x.md"), Err("Path escapes the agent context directory.".to_string()));
    assert!(ensure_within_root("/", "/etc").is_ok());
}

#[test]
fn provider_kinds_parse_and_print() {
    assert_eq!(ProviderKind::parse(" LM_Studio "), Some(ProviderKind::Lmstudio));
    assert_eq!(ProviderKind::parse("llama.cpp"), Some(ProviderKind::LlamaCpp));
    assert_eq!(ProviderKind::parse("gpt"), None);
    assert_eq!(ProviderKind::Ollama.as_str(), "ollama");
    assert_eq!(ProviderKind::Ollama.default_base_url(), "http://localhost:11434");
    assert_eq!(endpoint("http://localhost:1234/v1/", "/models"), "http://localhost:1234/v1/models");
    let row = ProviderRegistryRow {
        provider_kind: ProviderKind::Openrouter,
        base_url: "https://openrouter.ai/api/v1".to_string(),
        enabled: false,
        last_ok_at: None,
        last_error: None,
    };
    let config: ProviderConfig = provider_to_runtime_config(&row);
    assert_eq!(config.base_url, "https://openrouter.ai/api/v1");
    assert_eq!(
        ensure_provider_enabled(&config),
        Err("Provider `openrouter` is disabled in Settings.".to_string())
    );
    let settings = ProviderRuntimeSettings { config, api_key: Some(" key ".to_string()) };
    assert_eq!(require_api_key(&settings), Ok("key".to_string()));
}

#[test]
fn debug_and_team_paths() {
    assert_eq!(sanitize_filename_component("corr-123!"), "corr-123");
    assert_eq!(sanitize_filename_component("!!"), "unknown");
    assert_eq!(turn_request_file_path("/c", "corr-123"), "/c/.camp/debug/turn_corr-123_request.json");
    assert_eq!(turn_response_file_path("/c", "x"), "/c/.camp/debug/turn_x_response.json");
    assert_eq!(turn_bundle_file_path("/c", "x"), "/c/.camp/debug/turn_x_bundle.json");
    assert_eq!(team_json_path("/c"), "/c/team.json");
    assert_eq!(agent_context_dir("/c", "writer"), "/c/agents/writer/context");
}

#[test]
fn critic_whose_latest_record_is_a_result_is_idle() {
    let config = team(vec![agent("critic", "critic", &[])]);
    let critique = CritiqueResult { issues: Vec::new(), suggestions: Vec::new(), pass: false };
    let entries = vec![
        critique_entry("critic", 1, &critique, usage(0, 0)),
        entry(BusEntryType::Result, "critic", None, BusContent::Text("later work".to_string()), usage(0, 0)),
    ];
    let status = team_status(&config, &entries, Vec::new(), Vec::new());
    assert_eq!(status.agents[0].status, "idle");
}

#[test]
fn artifact_listings_are_sorted() {
    let config = team(Vec::new());
    let entries: Vec<BusEntry> = Vec::new();
    let status = team_status(&config, &entries, strings(&["b.md", "a/z.md", "B.md", "a.md"]), strings(&["z.md", "y.md"]));
    assert_eq!(status.artifacts.drafts, strings(&["B.md", "a.md", "a/z.md", "b.md"]));
    assert_eq!(status.artifacts.promoted, strings(&["y.md", "z.md"]));
    assert_eq!(basecamp_team::sort_file_names(strings(&["c", "a", "b", "a"])), strings(&["a", "a", "b", "c"]));
}
