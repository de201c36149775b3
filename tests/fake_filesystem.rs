use honeytrap_deception::{FakeFilesystem, FileType};

#[test]
fn test_list_home_dir() {
    let fs = FakeFilesystem::new();
    let entries = fs.list_dir(Some("/home/admin")).unwrap();
    assert!(!entries.is_empty());
}

#[test]
fn test_read_bashrc() {
    let fs = FakeFilesystem::new();
    let content = fs.read_file("/home/admin/.bashrc").unwrap();
    assert!(content.contains(".bashrc"));
}

#[test]
fn test_change_directory() {
    let mut fs = FakeFilesystem::new();
    fs.change_dir("/etc").unwrap();
    assert_eq!(fs.current_dir(), "/etc");
}

#[test]
fn test_pwd() {
    let fs = FakeFilesystem::new();
    assert_eq!(fs.current_dir(), "/home/admin");
}

#[test]
fn test_permission_denied() {
    let fs = FakeFilesystem::new();
    let result = fs.read_file("/etc/shadow");
    assert!(result.is_err());
}

#[test]
fn shadow_is_denied_and_bashrc_readable() {
    let fs = FakeFilesystem::new();
    assert_eq!(fs.read_file("/etc/shadow"), Err("cat: /etc/shadow: Permission denied".to_string()));
    assert!(fs.read_file("/home/admin/.bashrc").unwrap().contains(".bashrc"));
}

#[test]
fn read_errors_name_the_path() {
    let fs = FakeFilesystem::new();
    assert_eq!(fs.read_file("/etc"), Err("cat: /etc: Is a directory".to_string()));
    assert_eq!(fs.read_file("nope"), Err("cat: nope: No such file or directory".to_string()));
    assert_eq!(fs.read_file("/var/log/syslog"), Err("cat: /var/log/syslog: Permission denied".to_string()));
}

#[test]
fn relative_and_home_paths_resolve() {
    let fs = FakeFilesystem::new();
    assert_eq!(fs.read_file(".bashrc"), fs.read_file("/home/admin/.bashrc"));
    assert_eq!(fs.read_file("~/.bashrc"), fs.read_file("/home/admin/.bashrc"));
    assert_eq!(fs.read_file("../../etc/hosts"), Ok("127.0.0.1 localhost\n".to_string()));
    assert!(fs.path_exists("~"));
    assert!(fs.path_exists("/etc/"));
    assert!(!fs.path_exists("/etc/missing"));
}

#[test]
fn change_dir_to_parent_stops_at_root() {
    let mut fs = FakeFilesystem::new();
    fs.change_dir("..").unwrap();
    assert_eq!(fs.current_dir(), "/home");
    fs.change_dir("..").unwrap();
    assert_eq!(fs.current_dir(), "/");
    fs.change_dir("..").unwrap();
    assert_eq!(fs.current_dir(), "/");
}

#[test]
fn change_dir_lands_on_canonical_form() {
    let mut fs = FakeFilesystem::new();
    fs.change_dir("/var//log/./").unwrap();
    assert_eq!(fs.current_dir(), "/var/log");
    fs.change_dir("../../home/admin/.").unwrap();
    assert_eq!(fs.current_dir(), "/home/admin");
    fs.change_dir("/").unwrap();
    assert_eq!(fs.current_dir(), "/");
    fs.change_dir("~").unwrap();
    assert_eq!(fs.current_dir(), "/home/admin");
}

#[test]
fn change_dir_errors_leave_directory() {
    let mut fs = FakeFilesystem::new();
    assert_eq!(fs.change_dir("/nowhere"), Err("cd: /nowhere: No such file or directory".to_string()));
    assert_eq!(fs.change_dir("/etc/passwd"), Err("cd: /etc/passwd: Not a directory".to_string()));
    assert_eq!(fs.current_dir(), "/home/admin");
}

#[test]
fn list_root_and_missing_directory() {
    let fs = FakeFilesystem::new();
    let names: Vec<String> = fs.list_dir(Some("/")).unwrap().into_iter().map(|e| e.name).collect();
    assert_eq!(names, vec!["home", "etc", "var", "tmp", "usr", "bin", "opt"]);
    assert_eq!(
        fs.list_dir(Some("/missing")).unwrap_err(),
        "ls: cannot access '/missing': No such file or directory"
    );
    let home = fs.list_dir(None).unwrap();
    let home_names: Vec<&str> = home.iter().map(|e| e.name.as_str()).collect();
    assert_eq!(home_names, vec![".bashrc", ".bash_history", ".ssh"]);
    assert!(home.iter().all(|e| e.file_type == FileType::File));
    assert!(fs.list_dir(Some("/tmp")).unwrap().is_empty());
}
