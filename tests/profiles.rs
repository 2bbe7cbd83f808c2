use indexmap::IndexMap;
use lact_schema::profiles::{
    resolve, ProcessInfo, ProcessProfileRule, ProfileRule, ProfileWatcherState, ProfilesInfo,
};

fn process(name: &str, cmdline: &str) -> ProcessInfo {
    ProcessInfo { name: name.to_string(), cmdline: cmdline.to_string() }
}

fn empty_state() -> ProfileWatcherState {
    ProfileWatcherState::new()
}

fn state(procs: Vec<(i32, ProcessInfo)>, games: Vec<i32>) -> ProfileWatcherState {
    let mut s = empty_state();
    s.update(&procs, &games);
    s
}

fn rule(name: &str, args: Option<&str>) -> ProcessProfileRule {
    ProcessProfileRule { name: name.to_string(), args: args.map(|a| a.to_string()) }
}

#[test]
fn process_rule_selects_then_falls_back() {
    let mut profiles = IndexMap::new();
    profiles.insert("Game".to_string(), Some(ProfileRule::Process(rule("game.exe", None))));
    profiles.insert("Default".to_string(), None);
    let s = state(vec![(10, process("game.exe", "game.exe -fullscreen"))], vec![]);
    assert_eq!(resolve(&profiles, &s), Some("Game".to_string()));
    let s = state(vec![], vec![]);
    assert_eq!(resolve(&profiles, &s), None);
}

#[test]
fn gamemode_rule_ignores_name() {
    let mut profiles = IndexMap::new();
    profiles.insert("Game".to_string(), Some(ProfileRule::Gamemode(None)));
    let s = state(vec![(7, process("whatever", "whatever"))], vec![7]);
    assert_eq!(resolve(&profiles, &s), Some("Game".to_string()));
    let s = state(vec![(7, process("whatever", "whatever"))], vec![]);
    assert_eq!(resolve(&profiles, &s), None);
}

#[test]
fn gamemode_filter_looks_at_games_only() {
    let mut profiles = IndexMap::new();
    profiles.insert("Game".to_string(), Some(ProfileRule::Gamemode(Some(rule("b", None)))));
    let s = state(vec![(1, process("a", "a")), (2, process("b", "b"))], vec![1]);
    assert_eq!(resolve(&profiles, &s), None);
    let s = state(vec![(1, process("a", "a")), (2, process("b", "b"))], vec![2]);
    assert_eq!(resolve(&profiles, &s), Some("Game".to_string()));
}

#[test]
fn argument_filter() {
    let mut profiles = IndexMap::new();
    profiles.insert("Vk".to_string(), Some(ProfileRule::Process(rule("app", Some("--vulkan")))));
    let s = state(vec![(1, process("app", "app --gl"))], vec![]);
    assert_eq!(resolve(&profiles, &s), None);
    let s = state(vec![(1, process("app", "app --gl")), (2, process("app", "app --vulkan -x"))], vec![]);
    assert_eq!(resolve(&profiles, &s), Some("Vk".to_string()));
}

#[test]
fn first_match_wins() {
    let mut profiles = IndexMap::new();
    profiles.insert("A".to_string(), Some(ProfileRule::Process(rule("x", None))));
    profiles.insert("B".to_string(), Some(ProfileRule::Process(rule("y", None))));
    let s = state(vec![(1, process("y", "y")), (2, process("x", "x"))], vec![]);
    assert_eq!(resolve(&profiles, &s), Some("A".to_string()));
}

#[test]
fn resolving_twice_gives_the_same() {
    let mut profiles = IndexMap::new();
    profiles.insert("A".to_string(), Some(ProfileRule::Process(rule("x", None))));
    let s = state(vec![(2, process("x", "x"))], vec![]);
    assert_eq!(resolve(&profiles, &s), resolve(&profiles, &s));
}

#[test]
fn update_rebuilds_indices() {
    let s = state(
        vec![(1, process("a", "a")), (2, process("b", "b")), (3, process("a", "a -x"))],
        vec![3, 99],
    );
    assert_eq!(s.process_list.len(), 3);
    assert_eq!(s.gamemode_games.iter().copied().collect::<Vec<_>>(), vec![3]);
    assert_eq!(s.process_names_map.len(), 2);
    assert_eq!(s.process_names_map[0].0, "a");
    assert_eq!(s.process_names_map[0].1, vec![1, 3]);
    assert_eq!(s.process_names_map[1].1, vec![2]);
}

#[test]
fn profiles_equality_ignores_watcher() {
    let make = || {
        let mut profiles = IndexMap::new();
        profiles.insert("A".to_string(), Some(ProfileRule::Process(rule("x", None))));
        profiles
    };
    let a = ProfilesInfo {
        profiles: make(),
        current_profile: Some("A".to_string()),
        auto_switch: true,
        watcher_state: None,
    };
    let b = ProfilesInfo {
        profiles: make(),
        current_profile: Some("A".to_string()),
        auto_switch: true,
        watcher_state: Some(state(vec![(1, process("x", "x"))], vec![])),
    };
    assert!(a == b);
    let c = ProfilesInfo { auto_switch: false, ..b };
    assert!(a != c);
}

#[test]
fn switch_only_on_change() {
    let info = ProfilesInfo {
        profiles: IndexMap::new(),
        current_profile: Some("A".to_string()),
        auto_switch: true,
        watcher_state: None,
    };
    assert_eq!(info.switch_target(&Some("A".to_string())), None);
    assert_eq!(info.switch_target(&Some("B".to_string())), Some(Some("B".to_string())));
    assert_eq!(info.switch_target(&None), Some(None));
    let manual = ProfilesInfo { auto_switch: false, ..info };
    assert_eq!(manual.switch_target(&Some("B".to_string())), None);
}

#[test]
fn default_rule_is_empty_process_rule() {
    match ProfileRule::default() {
        ProfileRule::Process(p) => {
            assert_eq!(p.name, "");
            assert!(p.args.is_none());
        },
        _ => panic!("not a process rule"),
    }
}

#[test]
fn name_rule_after_process_leaves() {
    let mut profiles = IndexMap::new();
    profiles.insert("Game".to_string(), Some(ProfileRule::Process(rule("game.exe", None))));
    let mut s = state(vec![(10, process("game.exe", "")), (11, process("shell", ""))], vec![]);
    assert_eq!(resolve(&profiles, &s), Some("Game".to_string()));
    s.update(&vec![(11, process("shell", ""))], &vec![]);
    assert_eq!(resolve(&profiles, &s), None);
    assert_eq!(s.process_names_map.len(), 1);
}
