use cargonode::commands::project::should_use_vcs;
use cargonode::config::{get_tool_config, validate_tool_config, CargonodeConfig, ToolConfig};
use cargonode::utils::{VcsConfig, VcsType};

fn tool(command: &str, args: &[&str], inputs: &[&str], outputs: &[&str]) -> ToolConfig {
    ToolConfig {
        command: command.to_string(),
        args: args.iter().map(|s| s.to_string()).collect(),
        env: Vec::new(),
        working_dir: None,
        inputs: inputs.iter().map(|s| s.to_string()).collect(),
        outputs: outputs.iter().map(|s| s.to_string()).collect(),
    }
}

#[test]
fn test_get_tool_config() {
    let tools = vec![(
        "test".to_string(),
        tool("npm", &["test"], &["src/**/*.js"], &["coverage/**/*"]),
    )];
    let config = CargonodeConfig { tools };

    let test_tool = get_tool_config(&config, "test").unwrap();
    assert_eq!(test_tool.command, "npm");

    let result = get_tool_config(&config, "build");
    assert!(result.is_none());
}

#[test]
fn test_validate_tool_config() {
    let valid_config = tool("npm", &["test"], &["src/**/*.js"], &["coverage/**/*"]);
    assert!(validate_tool_config("test", &valid_config).is_ok());

    let valid_no_outputs = tool("npm", &["start"], &["src/**/*.js"], &[]);
    assert!(validate_tool_config("start", &valid_no_outputs).is_ok());

    let invalid_command = tool("", &["test"], &["src/**/*.js"], &["coverage/**/*"]);
    assert!(validate_tool_config("test", &invalid_command).is_err());

    let invalid_inputs = tool("npm", &["test"], &[], &["coverage/**/*"]);
    assert!(validate_tool_config("test", &invalid_inputs).is_err());
}

#[test]
fn test_should_use_vcs() {
    assert!(should_use_vcs(&None));
    assert!(should_use_vcs(&Some(VcsConfig::default())));
    assert!(!should_use_vcs(&Some(VcsConfig {
        vcs_type: VcsType::Disabled,
        ..Default::default()
    })));
}
