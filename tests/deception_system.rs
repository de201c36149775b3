use honeytrap_deception::{
    DeceptionSystem, HoneypotConfig, HoneypotType, HttpHoneypot, InteractionLevel, IpAddress,
    MysqlHoneypot, SshHoneypot,
};

fn config(port: u16, honeypot_type: HoneypotType) -> HoneypotConfig {
    HoneypotConfig { port, honeypot_type, interaction_level: InteractionLevel::Medium }
}

#[test]
fn redeploying_a_port_keeps_only_the_second() {
    let mut system = DeceptionSystem::new();
    system.deploy_honeypot(config(2222, HoneypotType::Ssh));
    system.deploy_honeypot(config(2222, HoneypotType::Http));
    assert_eq!(system.generate_report().honeypot_count, 1);
    let selected = system.select_honeypot(2222).unwrap();
    assert_eq!(selected.service_type(), HoneypotType::Http);
    assert_eq!(selected.port(), 2222);
}

#[test]
fn sessions_fall_back_to_the_default_port() {
    let mut system = DeceptionSystem::new();
    system.deploy_honeypot(config(22, HoneypotType::Ssh));
    system.deploy_honeypot(config(3306, HoneypotType::Mysql));
    assert_eq!(system.select_honeypot(3306).unwrap().service_type(), HoneypotType::Mysql);
    assert_eq!(system.select_honeypot(8080).unwrap().service_type(), HoneypotType::Ssh);
    system.set_fallback_port(None);
    assert!(system.select_honeypot(8080).is_none());
    system.set_fallback_port(Some(3306));
    assert_eq!(system.select_honeypot(8080).unwrap().service_type(), HoneypotType::Mysql);
}

#[test]
fn session_gauge_and_report() {
    let mut system = DeceptionSystem::new();
    assert!(system.begin_session(22).is_none());
    system.deploy_honeypot(config(22, HoneypotType::Ssh));
    assert!(system.begin_session(22).is_some());
    assert_eq!(system.generate_report().active_sessions(), 2);
    system.end_session();
    system.end_session();
    let report = system.generate_report();
    assert_eq!(report.active_sessions(), 0);
    assert_eq!(report.honeypot_count(), 1);
}

#[test]
fn blocking_is_a_set() {
    let mut system = DeceptionSystem::new();
    system.block_ip(IpAddress::V4(0x0A00_0001));
    system.block_ip(IpAddress::V4(0x0A00_0001));
    system.block_ip(IpAddress::V6(1));
    assert!(system.is_blocked(IpAddress::V6(1)));
    assert!(!system.is_blocked(IpAddress::V4(1)));
    assert_eq!(system.generate_report().blocked_count(), 2);
}

#[test]
fn honeypot_variants() {
    assert_eq!(SshHoneypot::new(22).port(), 22);
    assert_eq!(HttpHoneypot::new(80).service_type(), HoneypotType::Http);
    assert_eq!(MysqlHoneypot::new(3306).service_type(), HoneypotType::Mysql);
    assert_eq!(HoneypotType::Mysql.label(), "MySQL");
    assert_eq!(HoneypotType::Ssh.label(), "SSH");
}
