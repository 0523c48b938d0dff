use tenex::agent::Storage;
use tenex::data::{AgentProgram, App, AppData, Config, Settings};
use tenex::palette::{resolve_typed_slash_command, to_ascii_lower, trim_slashes, SlashResolution, SlashStep};
use tenex::state::AppMode;

fn commands() -> Vec<String> {
    ["/agents", "/toggle_docker", "/changelog", "/help"].iter().map(|s| (*s).to_string()).collect()
}

fn data_with_input(input: &str) -> AppData {
    let config = Config { default_program: "assistant".to_string(), branch_prefix: "tenex/".to_string() };
    let settings = Settings {
        agent_program: AgentProgram::DefaultProgram,
        planner_agent_program: AgentProgram::DefaultProgram,
        review_agent_program: AgentProgram::DefaultProgram,
        custom_agent_command: String::new(),
        planner_custom_agent_command: String::new(),
        review_custom_agent_command: String::new(),
    };
    let mut d = App::new(config, Storage::new(), settings).data;
    d.input = input.to_string();
    d
}

#[test]
fn ascii_lowering_matches_std() {
    for s in ["AbC-ÄZ", "", "/HELP", "x1Y2"] {
        assert_eq!(to_ascii_lower(s), s.to_ascii_lowercase());
    }
    assert_eq!(trim_slashes("///help"), "help");
    assert_eq!(trim_slashes("help/"), "help/");
}

#[test]
fn palette_filters_by_the_typed_prefix() {
    let cmds = commands();
    assert_eq!(data_with_input("").filtered_slash_commands(&cmds), cmds);
    assert_eq!(data_with_input("/ag").filtered_slash_commands(&cmds), vec!["/agents"]);
    assert_eq!(data_with_input("  /CH extra").filtered_slash_commands(&cmds), vec!["/changelog"]);
    assert_eq!(data_with_input("h").filtered_slash_commands(&cmds), vec!["/help"]);
    assert!(data_with_input("/zzz").filtered_slash_commands(&cmds).is_empty());
}

#[test]
fn palette_highlight_wraps() {
    let cmds = commands();
    let mut d = data_with_input("");
    d.select_prev_slash_command(&cmds);
    assert_eq!(d.palette_selected, 3);
    d.select_next_slash_command(&cmds);
    assert_eq!(d.palette_selected, 0);
    d.select_next_slash_command(&cmds);
    assert_eq!(d.palette_selected, 1);
    d.input = "/zzz".to_string();
    d.select_next_slash_command(&cmds);
    assert_eq!(d.palette_selected, 0);
}

#[test]
fn typed_commands_resolve() {
    let cmds = commands();
    assert!(matches!(resolve_typed_slash_command("", &cmds), SlashResolution::Nothing));
    assert!(matches!(resolve_typed_slash_command(" / ", &cmds), SlashResolution::Nothing));
    match resolve_typed_slash_command("HELP now", &cmds) {
        SlashResolution::Command(name) => assert_eq!(name, "/help"),
        other => panic!("unexpected {other:?}"),
    }
    match resolve_typed_slash_command("/tog", &cmds) {
        SlashResolution::Command(name) => assert_eq!(name, "/toggle_docker"),
        other => panic!("unexpected {other:?}"),
    }
    assert!(matches!(resolve_typed_slash_command("/x", &cmds), SlashResolution::Unknown));
    let more = vec!["/help".to_string(), "/hello".to_string()];
    assert!(matches!(resolve_typed_slash_command("/he", &more), SlashResolution::Ambiguous));
    match resolve_typed_slash_command("/help", &more) {
        SlashResolution::Command(name) => assert_eq!(name, "/help"),
        other => panic!("unexpected {other:?}"),
    }
}

#[test]
fn running_typed_commands() {
    let cmds = commands();
    let mut d = data_with_input("/agents");
    assert!(matches!(d.submit_slash_command_palette(&cmds), SlashStep::Mode(AppMode::SettingsMenu)));
    assert!(d.input.is_empty());

    let mut d = data_with_input("help");
    assert!(matches!(d.run_typed_slash_command(&cmds), SlashStep::Mode(AppMode::Help)));

    let mut d = data_with_input("/c");
    assert!(matches!(d.run_typed_slash_command(&cmds), SlashStep::Changelog));
    assert!(d.input.is_empty());

    let mut d = data_with_input("/t");
    assert!(matches!(d.run_typed_slash_command(&cmds), SlashStep::ToggleDocker));
    assert_eq!(d.input, "/t");

    let mut d = data_with_input("/nope now");
    assert!(matches!(d.run_typed_slash_command(&cmds), SlashStep::Mode(AppMode::Normal)));
    assert_eq!(d.ui.status.as_deref(), Some("Unknown command: /nope"));

    let more = vec!["/help".to_string(), "/hello".to_string()];
    let mut d = data_with_input("he");
    assert!(matches!(d.run_typed_slash_command(&more), SlashStep::Mode(AppMode::Normal)));
    assert_eq!(d.ui.status.as_deref(), Some("Ambiguous command: he"));

    let mut d = data_with_input("/");
    assert!(matches!(d.run_typed_slash_command(&cmds), SlashStep::Mode(AppMode::Normal)));
    assert!(d.ui.status.is_none());
}

#[test]
fn running_commands_by_name() {
    let mut d = data_with_input("x");
    assert!(matches!(d.run_slash_command_by_name("/model"), SlashStep::Mode(AppMode::Normal)));
    assert_eq!(d.ui.status.as_deref(), Some("Unknown command: /model"));
    assert!(matches!(d.run_slash_command_by_name("/help"), SlashStep::Mode(AppMode::Help)));
}

#[test]
fn confirming_the_highlighted_command() {
    let cmds = commands();
    let mut d = data_with_input("/ch");
    d.palette_selected = 0;
    assert!(matches!(d.confirm_slash_command_selection(&cmds), SlashStep::Changelog));
    let mut d = data_with_input("/help");
    d.palette_selected = 7;
    assert!(matches!(d.confirm_slash_command_selection(&cmds), SlashStep::Mode(AppMode::Help)));
}

#[test]
fn palette_next_then_prev_comes_back() {
    let cmds = commands();
    let mut d = data_with_input("");
    for start in 0..4 {
        d.palette_selected = start;
        d.select_next_slash_command(&cmds);
        d.select_prev_slash_command(&cmds);
        assert_eq!(d.palette_selected, start);
        d.select_prev_slash_command(&cmds);
        d.select_next_slash_command(&cmds);
        assert_eq!(d.palette_selected, start);
    }
}
