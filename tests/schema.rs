use lact_schema::cli::{CliArgs, CliCommand};
use lact_schema::schema::{DeviceListEntry, PowerState, PowerStates};

fn entry(id: &str, name: Option<&str>) -> DeviceListEntry {
    DeviceListEntry { id: id.to_string(), name: name.map(|n| n.to_string()) }
}

#[test]
fn display_name_prefers_name() {
    assert_eq!(entry("1002:73BF", Some("RX 6800")).display_name(), "RX 6800");
    assert_eq!(entry("1002:73BF", None).display_name(), "1002:73BF");
}

#[test]
fn gpu_ids_from_argument_or_list() {
    let list = vec![entry("a", None), entry("b", Some("B"))];
    let args = CliArgs { gpu_id: Some("x".to_string()), subcommand: CliCommand::Info };
    assert_eq!(args.gpu_ids(&list), vec!["x".to_string()]);
    let args = CliArgs { gpu_id: None, subcommand: CliCommand::ListGpus };
    assert_eq!(args.gpu_ids(&list), vec!["a".to_string(), "b".to_string()]);
}

#[test]
fn power_states_empty() {
    assert!(PowerStates { core: vec![], vram: vec![] }.is_empty());
    let s = PowerState { enabled: true, min_value: None, value: 500, index: Some(0) };
    assert!(!PowerStates { core: vec![], vram: vec![s] }.is_empty());
}
