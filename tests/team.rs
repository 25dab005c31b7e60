use basecamp_team::{
    append_journal_line, decomposition_request, draft_relative_path, fallback_draft_filename,
    journal_lines, normalize_team_config, normalize_tool_subset, plan_tool_call, requested_rounds,
    sanitize_filename, unique_promoted_name, validate_decomposition_plan,
    validate_relative_path, validate_simple_identifier, CritiqueResult, DecompositionPlan,
    DelegationStep, LoopStep, ProviderUsage, ReflectionRun, ReflectionStep, TeamAgentConfig,
    TeamAgentCreateInput, TeamConfig, TeamSettingsUpdateInput, ToolAction, ToolArgs, ToolLoop,
};

fn strings(values: &[&str]) -> Vec<String> {
    values.iter().map(|v| v.to_string()).collect()
}

fn agent(id: &str, role: &str) -> TeamAgentConfig {
    TeamAgentConfig {
        id: id.to_string(),
        role: role.to_string(),
        model: "ollama/llama3.2:3b".to_string(),
        tool_subset: Vec::new(),
        description: String::new(),
    }
}

fn team(agents: Vec<TeamAgentConfig>) -> TeamConfig {
    TeamConfig {
        is_team: true,
        supervisor_model: "openrouter/auto".to_string(),
        agents,
        reflection_loops: true,
        max_reflection_rounds: 2,
    }
}

fn step(id: &str, to: &str, deps: &[&str]) -> DelegationStep {
    DelegationStep {
        step_id: id.to_string(),
        assigned_to: to.to_string(),
        instruction: "Do the work".to_string(),
        depends_on: strings(deps),
        expected_output: String::new(),
    }
}

fn input(id: &str) -> TeamAgentCreateInput {
    TeamAgentCreateInput {
        id: id.to_string(),
        role: " writer ".to_string(),
        model: " ollama/llama3 ".to_string(),
        tool_subset: strings(&["Read_File"]),
        description: " drafts ".to_string(),
    }
}

#[test]
fn tool_subset_normalization_trims_lowercases_and_dedups() {
    let raw = strings(&[" Read_File ", "read_file", "", "WRITE_FILE", "  "]);
    let once = normalize_tool_subset(&raw);
    assert_eq!(once, strings(&["read_file", "write_file"]));
}

#[test]
fn tool_subset_normalization_is_idempotent() {
    let raw = strings(&["List_Files", " web_search", "LIST_FILES", "Write_File "]);
    let once = normalize_tool_subset(&raw);
    let twice = normalize_tool_subset(&once);
    assert_eq!(once, twice);
}

#[test]
fn simple_identifier_rejects_blank_and_traversal() {
    assert_eq!(validate_simple_identifier("  ", "step_id"), Err("step_id is required.".to_string()));
    assert_eq!(
        validate_simple_identifier("a/b", "agent_id"),
        Err("agent_id must not contain path separators or traversal segments.".to_string())
    );
    assert!(validate_simple_identifier("x..y", "agent_id").is_err());
    assert!(validate_simple_identifier("a\\b", "agent_id").is_err());
    assert_eq!(validate_simple_identifier("  writer ", "agent_id"), Ok("writer".to_string()));
}

#[test]
fn empty_roster_refuses_decomposition() {
    let config = team(Vec::new());
    assert_eq!(
        decomposition_request(&config, "Write a poem"),
        Err("Team has no agents. Add at least one agent before decomposition.".to_string())
    );
}

#[test]
fn blank_task_is_refused() {
    let config = team(vec![agent("writer", "writer")]);
    assert_eq!(decomposition_request(&config, "   "), Err("user_task is required.".to_string()));
    assert_eq!(decomposition_request(&config, " Write a poem "), Ok("Write a poem".to_string()));
}

#[test]
fn unknown_dependency_names_both_steps() {
    let config = team(vec![agent("writer", "writer")]);
    let plan = DecompositionPlan {
        task_summary: "Poem".to_string(),
        steps: vec![step("s1", "writer", &[]), step("s2", "writer", &["s1", "s99"])],
        reflection_required: false,
    };
    let err = validate_decomposition_plan(&config, plan).unwrap_err();
    assert_eq!(err, "Step `s2` depends on unknown step `s99`.");
}

#[test]
fn validated_plan_defaults_and_dedups() {
    let config = team(vec![agent("writer", "writer"), agent("critic", "critic")]);
    let plan = DecompositionPlan {
        task_summary: "  ".to_string(),
        steps: vec![step(" s1 ", "writer", &[]), step("s2", "critic", &["s1", " s1", "s1"])],
        reflection_required: true,
    };
    let valid = validate_decomposition_plan(&config, plan).unwrap();
    assert_eq!(valid.task_summary, "Task decomposition");
    assert_eq!(valid.steps[0].step_id, "s1");
    assert_eq!(valid.steps[0].expected_output, "s1.md");
    assert_eq!(valid.steps[1].depends_on, strings(&["s1"]));
    assert!(valid.reflection_required);
}

#[test]
fn plan_validation_allows_dependency_cycles() {
    let config = team(vec![agent("writer", "writer")]);
    let plan = DecompositionPlan {
        task_summary: "Cycle".to_string(),
        steps: vec![step("a", "writer", &["b"]), step("b", "writer", &["a"])],
        reflection_required: false,
    };
    assert!(validate_decomposition_plan(&config, plan).is_ok());
}

#[test]
fn plan_validation_errors() {
    let config = team(vec![agent("writer", "writer")]);
    let empty = DecompositionPlan { task_summary: "x".to_string(), steps: Vec::new(), reflection_required: false };
    assert_eq!(
        validate_decomposition_plan(&config, empty).unwrap_err(),
        "Supervisor returned no steps in decomposition plan."
    );
    let dup = DecompositionPlan {
        task_summary: "x".to_string(),
        steps: vec![step("s1", "writer", &[]), step("s1", "writer", &[])],
        reflection_required: false,
    };
    assert_eq!(
        validate_decomposition_plan(&config, dup).unwrap_err(),
        "Duplicate step_id `s1` in decomposition plan."
    );
    let stranger = DecompositionPlan {
        task_summary: "x".to_string(),
        steps: vec![step("s1", "ghost", &[])],
        reflection_required: false,
    };
    assert_eq!(
        validate_decomposition_plan(&config, stranger).unwrap_err(),
        "Decomposition step `s1` assigned to unknown agent `ghost`."
    );
    let mut silent = step("s1", "writer", &[]);
    silent.instruction = "   ".to_string();
    let blank = DecompositionPlan { task_summary: "x".to_string(), steps: vec![silent], reflection_required: false };
    assert_eq!(
        validate_decomposition_plan(&config, blank).unwrap_err(),
        "Decomposition step `s1` is missing instruction text."
    );
}

#[test]
fn write_file_outside_sandbox_is_refused() {
    let args = ToolArgs {
        path: Some("../../etc/passwd".to_string()),
        content: Some("owned".to_string()),
        encoding: None,
    };
    match plan_tool_call("/tmp/camp/agents/writer/context", Some("write_file".to_string()), Ok(args)) {
        ToolAction::Fail(message) => assert!(message.contains("escapes the agent context directory")),
        _ => panic!("an escaping path must not be written"),
    }
}

#[test]
fn escaping_paths_are_refused_for_every_tool() {
    for path in ["/etc/passwd", "notes\\..\\x", " ../x", "a/../../b", "ok/..hidden"] {
        let args = ToolArgs { path: Some(path.to_string()), content: None, encoding: None };
        match plan_tool_call("/root", Some("read_file".to_string()), Ok(args)) {
            ToolAction::Fail(message) => {
                assert_eq!(message, "Path escapes the agent context directory.")
            }
            _ => panic!("path {path} must be refused"),
        }
    }
}

#[test]
fn tool_calls_inside_sandbox_resolve() {
    let args = ToolArgs { path: Some(" notes/today.md ".to_string()), content: None, encoding: None };
    match plan_tool_call("/root/ctx", Some("read_file".to_string()), Ok(args)) {
        ToolAction::ReadFile { target, path } => {
            assert_eq!(target, "/root/ctx/notes/today.md");
            assert_eq!(path, " notes/today.md ");
        }
        _ => panic!("expected a read"),
    }
    let none = ToolArgs { path: None, content: None, encoding: None };
    match plan_tool_call("/root/ctx", Some("list_files".to_string()), Ok(none)) {
        ToolAction::ListFiles { target, .. } => assert_eq!(target, "/root/ctx"),
        _ => panic!("expected a listing"),
    }
}

#[test]
fn write_file_decodes_base64() {
    let args = ToolArgs {
        path: Some("out.bin".to_string()),
        content: Some("aGVsbG8=".to_string()),
        encoding: Some("BASE64".to_string()),
    };
    match plan_tool_call("/c", Some("write_file".to_string()), Ok(args)) {
        ToolAction::WriteFile { target, bytes, .. } => {
            assert_eq!(target, "/c/out.bin");
            assert_eq!(bytes, b"hello".to_vec());
        }
        _ => panic!("expected a write"),
    }
    let bad = ToolArgs {
        path: Some("out.bin".to_string()),
        content: Some("***".to_string()),
        encoding: Some("base64".to_string()),
    };
    match plan_tool_call("/c", Some("write_file".to_string()), Ok(bad)) {
        ToolAction::Fail(message) => assert!(message.starts_with("Invalid base64 content: ")),
        _ => panic!("expected a failure"),
    }
}

#[test]
fn unavailable_and_unknown_tools_fail() {
    let args = || ToolArgs { path: None, content: None, encoding: None };
    match plan_tool_call("/c", Some("web_search".to_string()), Ok(args())) {
        ToolAction::Fail(m) => assert_eq!(m, "web_search is not available in local deterministic team mode."),
        _ => panic!(),
    }
    match plan_tool_call("/c", Some("shell".to_string()), Ok(args())) {
        ToolAction::Fail(m) => assert_eq!(m, "Unsupported tool `shell`."),
        _ => panic!(),
    }
    match plan_tool_call("/c", None, Ok(args())) {
        ToolAction::Fail(m) => assert_eq!(m, "Tool call missing function.name"),
        _ => panic!(),
    }
}

#[test]
fn relative_path_validation_messages() {
    assert_eq!(validate_relative_path("", "path", false), Err("path is required.".to_string()));
    assert_eq!(validate_relative_path("", "path", true), Ok(String::new()));
    assert_eq!(validate_relative_path("/tmp/escape.txt", "path", false), Err("path must be a relative path.".to_string()));
    assert_eq!(
        validate_relative_path("nested/../escape.txt", "path", false),
        Err("path must not contain traversal segments or absolute path markers.".to_string())
    );
    assert_eq!(validate_relative_path("nested/file.txt", "path", false), Ok("nested/file.txt".to_string()));
}

#[test]
fn reflection_rounds_are_clamped() {
    assert_eq!(requested_rounds(0, 3), 3);
    assert_eq!(requested_rounds(10, 3), 3);
    assert_eq!(requested_rounds(2, 3), 2);
    assert_eq!(requested_rounds(0, 0), 1);
}

#[test]
fn always_calling_model_stops_after_six_requests() {
    let mut run = ToolLoop::new();
    let usage = ProviderUsage { prompt_tokens: Some(10), completion_tokens: Some(5), total_tokens: None };
    let mut requests = 0;
    loop {
        requests += 1;
        match run.record_response(" calling a tool ", &usage, true) {
            LoopStep::Done => panic!("tool calls never finish the loop by themselves"),
            LoopStep::RunTools { request_again } => {
                if !request_again {
                    break;
                }
            }
        }
    }
    assert_eq!(requests, 6);
    assert_eq!(run.rounds, 6);
    assert_eq!(run.final_output, "calling a tool");
    assert_eq!(run.token_usage.input, 60);
    assert_eq!(run.token_usage.output, 30);
}

#[test]
fn answer_without_tool_calls_ends_the_loop() {
    let mut run = ToolLoop::new();
    let usage = ProviderUsage { prompt_tokens: None, completion_tokens: Some(7), total_tokens: None };
    assert!(matches!(run.record_response("done\n", &usage, false), LoopStep::Done));
    assert_eq!(run.final_output, "done");
    assert_eq!(run.token_usage.input, 0);
    assert_eq!(run.token_usage.output, 7);
}

#[test]
fn failing_critic_uses_every_round_then_promotes() {
    let mut run = ReflectionRun::start(0, 2, true);
    let critique = || CritiqueResult { issues: strings(&["weak"]), suggestions: Vec::new(), pass: false };
    assert!(matches!(run.record_critique(critique()), ReflectionStep::Revise));
    assert!(matches!(run.record_critique(critique()), ReflectionStep::Promote));
    let summary = run.into_summary("artifacts/drafts/a.md".to_string(), "artifacts/promoted/a.md".to_string());
    assert_eq!(summary.rounds_completed, 2);
    assert!(!summary.pass);
    assert_eq!(summary.critiques.len(), 2);
}

#[test]
fn passing_critique_ends_reflection_early() {
    let mut run = ReflectionRun::start(10, 3, true);
    assert_eq!(run.rounds, 3);
    let ok = CritiqueResult { issues: Vec::new(), suggestions: Vec::new(), pass: true };
    assert!(matches!(run.record_critique(ok), ReflectionStep::Promote));
    assert!(run.pass);
    assert_eq!(run.rounds_completed, 1);
}

#[test]
fn disabled_reflection_stops_after_first_critique() {
    let mut run = ReflectionRun::start(3, 3, false);
    let bad = CritiqueResult { issues: Vec::new(), suggestions: Vec::new(), pass: false };
    assert!(matches!(run.record_critique(bad), ReflectionStep::Promote));
    assert_eq!(run.rounds_completed, 1);
}

#[test]
fn promoted_name_collision_gets_timestamp() {
    assert_eq!(unique_promoted_name("draft.md", false, 1_700_000_000_000), "draft.md");
    assert_eq!(unique_promoted_name("draft.md", true, 1_700_000_000_000), "draft-1700000000000.md");
    assert_eq!(unique_promoted_name("README", true, 5), "README-5.md");
    assert_eq!(unique_promoted_name(".env", true, 5), ".env-5.md");
    assert_eq!(unique_promoted_name("a.tar.gz", true, 7), "a.tar-7.gz");
}

#[test]
fn draft_names_are_sanitized() {
    assert_eq!(sanitize_filename("notes/Final Report!!.txt", "x.md"), "Final-Report-.txt");
    assert_eq!(sanitize_filename("summary", "x.md"), "summary.md");
    assert_eq!(sanitize_filename("   ", "s1-writer.md"), "s1-writer.md");
    assert_eq!(sanitize_filename("..", "fallback.md"), "fallback.md");
    assert_eq!(sanitize_filename("--a--b..", "f.md"), "a-b.md");
    assert_eq!(fallback_draft_filename("s1", 42), "s1-42.md");
}

#[test]
fn draft_paths_drop_their_prefix() {
    assert_eq!(draft_relative_path("artifacts/drafts/a.md"), Ok("a.md".to_string()));
    assert_eq!(draft_relative_path(" b.md "), Ok("b.md".to_string()));
    assert_eq!(draft_relative_path(""), Err("artifact_path is required.".to_string()));
    assert!(draft_relative_path("artifacts/drafts/../team.json").is_err());
}

#[test]
fn journal_lines_round_trip() {
    let records = ["{\"id\":\"1\"}", "{\"id\":\"2\"}", "{\"id\":\"3\"}"];
    let mut journal = String::new();
    for record in records {
        append_journal_line(&mut journal, record);
    }
    assert_eq!(journal, "{\"id\":\"1\"}\n{\"id\":\"2\"}\n{\"id\":\"3\"}\n");
    assert_eq!(journal_lines(&journal), strings(&records));
}

#[test]
fn journal_reading_skips_blank_lines() {
    assert_eq!(journal_lines("\n  a \n\n\t\nb"), strings(&["a", "b"]));
    assert!(journal_lines("").is_empty());
}

#[test]
fn roster_upsert_sorts_and_caps() {
    let mut config = team(Vec::new());
    for id in ["Zed", "alpha", "Beta"] {
        config.upsert_agent(&input(id)).unwrap();
    }
    let ids: Vec<&str> = config.agents.iter().map(|a| a.id.as_str()).collect();
    assert_eq!(ids, vec!["alpha", "Beta", "Zed"]);
    let stored = &config.agents[0];
    assert_eq!(stored.role, "writer");
    assert_eq!(stored.model, "ollama/llama3");
    assert_eq!(stored.tool_subset, strings(&["read_file"]));
    assert_eq!(stored.description, "drafts");

    let mut replacement = input("alpha");
    replacement.role = "critic".to_string();
    config.upsert_agent(&replacement).unwrap();
    assert_eq!(config.agents.len(), 3);
    assert_eq!(config.agents[0].role, "critic");

    for id in ["a4", "a5", "a6", "a7", "a8"] {
        config.upsert_agent(&input(id)).unwrap();
    }
    assert_eq!(config.agents.len(), 8);
    assert_eq!(
        config.upsert_agent(&input("a9")).unwrap_err(),
        "A team can have at most 8 agents. Remove one before adding another."
    );
    assert!(config.upsert_agent(&input("a8")).is_ok());

    let mut roleless = input("b1");
    roleless.role = " ".to_string();
    let mut fresh = team(Vec::new());
    assert_eq!(fresh.upsert_agent(&roleless).unwrap_err(), "agent_config.role is required.");
}

#[test]
fn roster_removal_and_settings() {
    let mut config = team(vec![agent("writer", "writer"), agent("critic", "critic")]);
    assert_eq!(config.remove_agent("ghost"), Err("Agent not found in team roster.".to_string()));
    assert_eq!(config.remove_agent(" critic "), Ok("critic".to_string()));
    assert_eq!(config.agents.len(), 1);

    let settings = TeamSettingsUpdateInput {
        supervisor_model: " openrouter/auto ".to_string(),
        reflection_loops: false,
        max_reflection_rounds: 20,
    };
    config.update_settings(&settings).unwrap();
    assert_eq!(config.supervisor_model, "openrouter/auto");
    assert_eq!(config.max_reflection_rounds, 8);
    assert!(!config.reflection_loops);
    let blank = TeamSettingsUpdateInput { supervisor_model: " ".to_string(), reflection_loops: true, max_reflection_rounds: 0 };
    assert_eq!(config.update_settings(&blank), Err("supervisor_model is required.".to_string()));
    let zero = TeamSettingsUpdateInput { supervisor_model: "m".to_string(), reflection_loops: true, max_reflection_rounds: 0 };
    config.update_settings(&zero).unwrap();
    assert_eq!(config.max_reflection_rounds, 1);
}

#[test]
fn stored_config_is_normalized() {
    let mut stored = team(vec![agent("writer", "writer")]);
    stored.supervisor_model = "  ".to_string();
    stored.max_reflection_rounds = 0;
    stored.is_team = false;
    stored.agents[0].model = String::new();
    stored.agents[0].tool_subset = strings(&["READ_FILE", "read_file"]);
    let normalized = normalize_team_config(stored, "ollama/base");
    assert!(normalized.is_team);
    assert_eq!(normalized.supervisor_model, "ollama/base");
    assert_eq!(normalized.max_reflection_rounds, 2);
    assert_eq!(normalized.agents[0].model, "ollama/base");
    assert_eq!(normalized.agents[0].tool_subset, strings(&["read_file"]));
}

#[test]
fn identifier_errors_name_the_step() {
    let config = team(vec![agent("writer", "writer")]);
    let blank_agent = DecompositionPlan {
        task_summary: "x".to_string(),
        steps: vec![step("Z9", " ", &[])],
        reflection_required: false,
    };
    assert_eq!(
        validate_decomposition_plan(&config, blank_agent).unwrap_err(),
        "Decomposition step `Z9`: assigned_to is required."
    );
    let bad_dep = DecompositionPlan {
        task_summary: "x".to_string(),
        steps: vec![step("s1", "writer", &["../up"])],
        reflection_required: false,
    };
    assert_eq!(
        validate_decomposition_plan(&config, bad_dep).unwrap_err(),
        "Decomposition step `s1`: depends_on must not contain path separators or traversal segments."
    );
    let bad_id = DecompositionPlan {
        task_summary: "x".to_string(),
        steps: vec![step("s1", "writer", &[]), step(" ", "writer", &[])],
        reflection_required: false,
    };
    assert_eq!(
        validate_decomposition_plan(&config, bad_id).unwrap_err(),
        "Decomposition step 2: step_id is required."
    );
}

#[test]
fn dot_only_names_fall_back() {
    assert_eq!(sanitize_filename("-..-", "f.md"), "f.md");
    assert_eq!(sanitize_filename("-.-", "f.md"), "f.md");
    assert_eq!(sanitize_filename("-.a", "f.md"), ".a");
}

#[test]
fn record_lines_are_single_trimmed_lines() {
    assert!(basecamp_team::is_record_text("{\"id\":\"1\"}"));
    assert!(!basecamp_team::is_record_text(""));
    assert!(!basecamp_team::is_record_text(" {}"));
    assert!(!basecamp_team::is_record_text("{\n}"));
}

#[test]
fn equal_keys_keep_their_order() {
    let mut config = team(Vec::new());
    config.agents = vec![agent("b", "writer"), agent("A", "writer"), agent("a", "critic")];
    config.upsert_agent(&input("c")).unwrap();
    let ids: Vec<&str> = config.agents.iter().map(|a| a.id.as_str()).collect();
    assert_eq!(ids, vec!["A", "a", "b", "c"]);
}
