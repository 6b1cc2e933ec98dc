use launch_core::optional::{
    default_enabled, default_visible, Action, Apply, CompareMode, FileAction, FileBundle, Location,
    Optional, OptionalFiles, OsRule, Rule,
};
use launch_core::rename_map::RenameMap;
use launch_core::resolution::{resolve, validate};
use launch_core::validation::{ClientInfo, OsType};

fn strings(items: &[&str]) -> Vec<String> {
    items.iter().map(|s| s.to_string()).collect()
}

fn renames(pairs: &[(&str, &str)]) -> RenameMap {
    let pairs: Vec<(String, String)> =
        pairs.iter().map(|(k, v)| (k.to_string(), v.to_string())).collect();
    RenameMap::from_pairs(&pairs)
}

fn files(location: Location, plain: &[&str], renamed: &[(&str, &str)]) -> Action {
    Action::Files(FileAction {
        location,
        files: OptionalFiles::new(strings(plain), renames(renamed)),
    })
}

fn on(os_type: OsType) -> Rule {
    Rule::OsType(OsRule::new(os_type, CompareMode::Equal))
}

fn not_on(os_type: OsType) -> Rule {
    Rule::OsType(OsRule::new(os_type, CompareMode::Unequal))
}

fn optional(actions: Vec<Action>, rules: Vec<Rule>, visible: bool, name: Option<&str>) -> Optional {
    Optional {
        actions,
        rules,
        enabled: default_enabled(),
        visible,
        description: None,
        name: name.map(|s| s.to_string()),
    }
}

fn linux() -> ClientInfo {
    ClientInfo::new(OsType::Linux)
}

#[test]
fn defaults_of_an_optional() {
    assert!(default_enabled());
    assert!(!default_visible());
    assert_eq!(CompareMode::default(), CompareMode::Equal);
}

#[test]
fn os_rule_compares_by_its_mode() {
    let equal = OsRule::new(OsType::Linux, CompareMode::Equal);
    let unequal = OsRule::new(OsType::Linux, CompareMode::Unequal);
    assert!(equal.apply(&linux()));
    assert!(!equal.apply(&ClientInfo::new(OsType::Windows)));
    assert!(!unequal.apply(&linux()));
    assert!(unequal.apply(&ClientInfo::new(OsType::MacOs)));
}

#[test]
fn optional_without_rules_never_applies() {
    let o = optional(vec![Action::Args(strings(&["-x"]))], vec![], false, None);
    assert!(!o.apply(&linux()));
    assert!(!o.apply(&ClientInfo::new(OsType::Windows)));
    assert!(!o.apply(&ClientInfo::new(OsType::MacOs)));
    assert!(!o.visible(&linux()));
    assert!(!o.relevant(&linux(), &strings(&[])));
}

#[test]
fn rules_are_combined_by_or() {
    let o = optional(vec![], vec![on(OsType::Windows), on(OsType::Linux)], false, None);
    assert!(o.apply(&linux()));
    assert!(o.apply(&ClientInfo::new(OsType::Windows)));
    assert!(!o.apply(&ClientInfo::new(OsType::MacOs)));
    let contrary = optional(vec![], vec![on(OsType::Linux), not_on(OsType::Linux)], false, None);
    assert!(contrary.apply(&linux()));
    assert!(contrary.apply(&ClientInfo::new(OsType::Windows)));
}

#[test]
fn visible_is_the_flag_and_the_rules() {
    for flag in [false, true] {
        for os in [OsType::Linux, OsType::Windows] {
            let o = optional(vec![], vec![on(OsType::Linux)], flag, Some("shaders"));
            let client = ClientInfo::new(os);
            assert_eq!(o.visible(&client), flag && o.apply(&client));
        }
    }
}

#[test]
fn hidden_optional_is_relevant_whatever_is_selected() {
    let o = optional(vec![], vec![on(OsType::Linux)], false, Some("shaders"));
    assert!(o.relevant(&linux(), &strings(&[])));
    assert!(o.relevant(&linux(), &strings(&["shaders"])));
    assert!(o.relevant(&linux(), &strings(&["other"])));
    let windows = ClientInfo::new(OsType::Windows);
    assert!(!o.relevant(&windows, &strings(&[])));
    assert!(!o.relevant(&windows, &strings(&["shaders"])));
    let unnamed = optional(vec![], vec![on(OsType::Linux)], false, None);
    assert!(unnamed.relevant(&linux(), &strings(&["x"])));
}

#[test]
fn visible_optional_is_relevant_only_when_selected() {
    let o = optional(vec![], vec![on(OsType::Linux)], true, Some("shaders"));
    assert!(!o.relevant(&linux(), &strings(&[])));
    assert!(!o.relevant(&linux(), &strings(&["other"])));
    assert!(o.relevant(&linux(), &strings(&["other", "shaders"])));
    assert!(!o.relevant(&ClientInfo::new(OsType::Windows), &strings(&["shaders"])));
}

#[test]
fn args_keep_the_order_of_the_actions() {
    let o = optional(
        vec![
            Action::Args(strings(&["-a", "-b"])),
            files(Location::Assets, &["x"], &[]),
            Action::Args(strings(&[])),
            Action::Args(strings(&["-c"])),
        ],
        vec![],
        false,
        None,
    );
    assert_eq!(o.get_args(), strings(&["-a", "-b", "-c"]));
    let none = optional(vec![files(Location::Assets, &["x"], &[])], vec![], false, None);
    assert_eq!(none.get_args(), Vec::<String>::new());
}

#[test]
fn files_are_grouped_by_location() {
    let o = optional(
        vec![
            files(Location::Assets, &["a", "b"], &[("k", "1")]),
            Action::Args(strings(&["-a"])),
            files(Location::Libraries, &[], &[]),
            files(Location::Assets, &["c"], &[("k", "2"), ("l", "3")]),
        ],
        vec![],
        false,
        None,
    );
    let bundle = o.get_files();
    assert!(bundle.get(Location::Profile).is_none());
    let libraries = bundle.get(Location::Libraries).unwrap();
    assert!(libraries.original_paths.is_empty());
    assert_eq!(libraries.rename_paths.len(), 0);
    let assets = bundle.get(Location::Assets).unwrap();
    assert_eq!(assets.original_paths, strings(&["a", "b", "c"]));
    assert_eq!(assets.rename_paths.len(), 2);
    assert_eq!(assets.rename_paths.get(&"k".to_string()), Some(&"2".to_string()));
    assert_eq!(assets.rename_paths.get(&"l".to_string()), Some(&"3".to_string()));
}

#[test]
fn overlapping_renames_keep_the_value_of_the_later_optional() {
    let first = optional(
        vec![files(Location::Assets, &["one"], &[("icon.png", "first.png"), ("a", "b")])],
        vec![on(OsType::Linux)],
        false,
        None,
    );
    let second = optional(
        vec![files(Location::Assets, &["two"], &[("icon.png", "second.png")])],
        vec![on(OsType::Linux)],
        false,
        None,
    );
    let resolution = resolve(&vec![first, second], &linux(), &strings(&[]));
    let assets = resolution.files.get(Location::Assets).unwrap();
    assert_eq!(assets.rename_paths.len(), 2);
    assert_eq!(assets.rename_paths.get(&"icon.png".to_string()), Some(&"second.png".to_string()));
    assert_eq!(assets.rename_paths.get(&"a".to_string()), Some(&"b".to_string()));
    assert_eq!(assets.original_paths, strings(&["one", "two"]));
    let pairs = assets.rename_paths.to_pairs();
    assert_eq!(pairs.iter().filter(|(key, _)| key == "icon.png").count(), 1);
}

fn sample(tag: &str, location: Location, key_value: &str) -> Optional {
    optional(
        vec![
            Action::Args(strings(&[tag])),
            files(location, &[tag], &[("shared", key_value), (tag, tag)]),
        ],
        vec![on(OsType::Linux)],
        false,
        None,
    )
}

fn same_files(a: &FileBundle, b: &FileBundle) {
    for location in [Location::Profile, Location::Libraries, Location::Assets] {
        match (a.get(location), b.get(location)) {
            (None, None) => {}
            (Some(x), Some(y)) => {
                assert_eq!(x.original_paths, y.original_paths);
                let mut left = x.rename_paths.to_pairs();
                let mut right = y.rename_paths.to_pairs();
                left.sort();
                right.sort();
                assert_eq!(left, right);
            }
            _ => panic!("one bundle has a location that the other lacks"),
        }
    }
}

#[test]
fn resolving_in_two_parts_and_merging_equals_resolving_at_once() {
    let client = linux();
    let selected = strings(&[]);
    let whole = resolve(
        &vec![
            sample("a", Location::Assets, "from-a"),
            sample("b", Location::Profile, "from-b"),
            sample("c", Location::Assets, "from-c"),
        ],
        &client,
        &selected,
    );
    let front = resolve(
        &vec![sample("a", Location::Assets, "from-a"), sample("b", Location::Profile, "from-b")],
        &client,
        &selected,
    );
    let back = resolve(&vec![sample("c", Location::Assets, "from-c")], &client, &selected);
    let mut merged = front.files;
    merged.merge(&back.files);
    same_files(&merged, &whole.files);
    let mut args = front.args;
    args.extend(back.args);
    assert_eq!(args, whole.args);
    let assets = whole.files.get(Location::Assets).unwrap();
    assert_eq!(assets.rename_paths.get(&"shared".to_string()), Some(&"from-c".to_string()));
    assert_eq!(assets.original_paths, strings(&["a", "c"]));
}

#[test]
fn resolution_takes_only_relevant_optionals() {
    let hidden = optional(vec![Action::Args(strings(&["-h"]))], vec![on(OsType::Linux)], false, None);
    let chosen =
        optional(vec![Action::Args(strings(&["-c"]))], vec![on(OsType::Linux)], true, Some("c"));
    let skipped =
        optional(vec![Action::Args(strings(&["-s"]))], vec![on(OsType::Linux)], true, Some("s"));
    let foreign =
        optional(vec![Action::Args(strings(&["-w"]))], vec![on(OsType::Windows)], false, None);
    let resolution = resolve(&vec![hidden, chosen, skipped, foreign], &linux(), &strings(&["c"]));
    assert_eq!(resolution.args, strings(&["-h", "-c"]));
    assert!(resolution.files.get(Location::Assets).is_none());
    let nothing = resolve(&vec![], &linux(), &strings(&["c"]));
    assert!(nothing.args.is_empty());
}

#[test]
fn a_visible_optional_without_a_name_is_turned_away() {
    let good = optional(vec![], vec![], true, Some("n"));
    let hidden = optional(vec![], vec![], false, None);
    let bad = optional(vec![], vec![], true, None);
    assert!(good.is_well_formed());
    assert!(hidden.is_well_formed());
    assert!(!bad.is_well_formed());
    assert!(validate(&vec![good, hidden]));
    assert!(!validate(&vec![optional(vec![], vec![], true, Some("n")), bad]));
    assert!(validate(&vec![]));
}

#[test]
fn rename_map_keeps_one_value_per_key() {
    let mut map = RenameMap::new();
    assert_eq!(map.len(), 0);
    map.insert("a".to_string(), "1".to_string());
    map.insert("b".to_string(), "2".to_string());
    map.insert("a".to_string(), "3".to_string());
    assert_eq!(map.len(), 2);
    assert!(map.contains_key(&"a".to_string()));
    assert!(!map.contains_key(&"c".to_string()));
    assert_eq!(map.get(&"a".to_string()), Some(&"3".to_string()));
    assert_eq!(map.get(&"c".to_string()), None);
    assert_eq!(
        map.to_pairs(),
        vec![("a".to_string(), "3".to_string()), ("b".to_string(), "2".to_string())]
    );
    let mut other = renames(&[("b", "9"), ("c", "8")]);
    other.extend(&map);
    assert_eq!(other.get(&"b".to_string()), Some(&"2".to_string()));
    assert_eq!(other.get(&"c".to_string()), Some(&"8".to_string()));
    assert_eq!(other.len(), 3);
    let copy = other.clone();
    assert_eq!(copy.to_pairs(), other.to_pairs());
}

#[test]
fn rename_map_keeps_the_order_in_which_keys_first_came() {
    let mut map = renames(&[("b", "1"), ("a", "2"), ("c", "3"), ("a", "4")]);
    let keys: Vec<String> = map.to_pairs().into_iter().map(|(key, _)| key).collect();
    assert_eq!(keys, strings(&["b", "a", "c"]));
    map.extend(&renames(&[("d", "5"), ("b", "6")]));
    assert_eq!(
        map.to_pairs(),
        vec![
            ("b".to_string(), "6".to_string()),
            ("a".to_string(), "4".to_string()),
            ("c".to_string(), "3".to_string()),
            ("d".to_string(), "5".to_string()),
        ]
    );
    assert_eq!(map.clone().to_pairs(), map.to_pairs());
}
