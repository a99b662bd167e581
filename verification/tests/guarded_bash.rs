use hoosh::tools::guarded_bash::BashTool;

#[test]
fn test_extract_bash_pattern() {
    // Test with command + subcommand
    assert_eq!(
        BashTool::extract_bash_pattern("cargo clippy --all-features --all-targets"),
        "cargo clippy*"
    );

    // Test with npm run
    assert_eq!(BashTool::extract_bash_pattern("npm run test"), "npm run*");

    // Test with git command
    assert_eq!(
        BashTool::extract_bash_pattern("git commit -m \"message\""),
        "git commit*"
    );

    // Test with command that has only flags (should include first flag)
    assert_eq!(BashTool::extract_bash_pattern("ls -la"), "ls -la*");
    assert_eq!(
        BashTool::extract_bash_pattern("cargo --version"),
        "cargo --version*"
    );

    // Test with python script
    assert_eq!(
        BashTool::extract_bash_pattern("python script.py --arg value"),
        "python script.py*"
    );

    // Test with custom tool
    assert_eq!(
        BashTool::extract_bash_pattern("./custom-tool arg1 arg2"),
        "./custom-tool arg1*"
    );

    // Test with make
    assert_eq!(BashTool::extract_bash_pattern("make test"), "make test*");

    // Test with single word command
    assert_eq!(BashTool::extract_bash_pattern("pwd"), "pwd*");

    // Test with empty string
    assert_eq!(BashTool::extract_bash_pattern(""), "*");

    // Test with docker compose
    assert_eq!(
        BashTool::extract_bash_pattern("docker compose up -d"),
        "docker compose*"
    );

    // Test with quoted strings (should skip quoted parts)
    assert_eq!(
        BashTool::extract_bash_pattern("echo \"Hello! Bash tool is working correctly.\""),
        "echo*"
    );

    // Test with echo and arguments
    assert_eq!(BashTool::extract_bash_pattern("echo test"), "echo test*");
}
