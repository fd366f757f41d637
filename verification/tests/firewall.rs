use proxmox_ve_config::firewall::bridge::{Config, Options};
use proxmox_ve_config::firewall::types::log::LogLevel;
use proxmox_ve_config::firewall::types::rule::Verdict;

#[test]
fn bridge_options_left_open() {
    let config = Config::new(Options::default());
    assert!(!config.enabled());
    assert_eq!(config.log_level_forward(), LogLevel::Nolog);
    assert_eq!(config.policy_forward(), Verdict::Accept);
    assert_eq!(LogLevel::default(), LogLevel::Nolog);
}

#[test]
fn bridge_options_set() {
    let config = Config::new(Options {
        enable: Some(true),
        policy_forward: Some(Verdict::Drop),
        log_level_forward: Some(LogLevel::Info),
    });
    assert!(config.enabled());
    assert_eq!(config.log_level_forward(), LogLevel::Info);
    assert_eq!(config.policy_forward(), Verdict::Drop);

    let off = Config::new(Options { enable: Some(false), ..Options::default() });
    assert!(!off.enabled());
}
