use load64::vice_config::ViceConfig;

fn arg(parts: &[&str]) -> Vec<String> {
    parts.iter().map(|s| (*s).to_string()).collect()
}

#[test]
fn test_merge_replaces_existing_arg() {
    let mut config = ViceConfig::new(vec![arg(&["-joydev1", "0"]), arg(&["-VICIIfilter", "0"])]);

    let override_config = ViceConfig::new(vec![arg(&["-joydev1", "1"])]);

    config.merge(&override_config);

    assert_eq!(config.args, vec![arg(&["-VICIIfilter", "0"]), arg(&["-joydev1", "1"])]);
}

#[test]
fn test_merge_removes_arg_with_bang_prefix() {
    let mut config = ViceConfig::new(vec![arg(&["-trapdevice8"]), arg(&["-autostart-warp"]), arg(&["-VICIIfilter", "0"])]);

    let override_config = ViceConfig::new(vec![arg(&["!-autostart-warp"])]);

    config.merge(&override_config);

    assert_eq!(config.args, vec![arg(&["-trapdevice8"]), arg(&["-VICIIfilter", "0"])]);
}

#[test]
fn test_merge_adds_new_arg() {
    let mut config = ViceConfig::new(vec![arg(&["-joydev1", "0"])]);

    let override_config = ViceConfig::new(vec![arg(&["-sound"])]);

    config.merge(&override_config);

    assert_eq!(config.args, vec![arg(&["-joydev1", "0"]), arg(&["-sound"])]);
}

#[test]
fn test_to_command_args_flattens_args() {
    let config = ViceConfig::new(vec![arg(&["-trapdevice8"]), arg(&["-VICIIfilter", "0"]), arg(&["-joydev1", "0"])]);

    let result = config.to_command_args();

    assert_eq!(result, vec!["-trapdevice8", "-VICIIfilter", "0", "-joydev1", "0"]);
}

#[test]
fn test_to_command_args_filters_out_removals() {
    let config = ViceConfig::new(vec![arg(&["-trapdevice8"]), arg(&["!-autostart-warp"]), arg(&["-VICIIfilter", "0"])]);

    let result = config.to_command_args();

    assert_eq!(result, vec!["-trapdevice8", "-VICIIfilter", "0"]);
}

#[test]
fn test_to_command_args_puts_autostart_last() {
    let config = ViceConfig::new(vec![arg(&["-trapdevice8"]), arg(&["-autostart", "game.prg"]), arg(&["-VICIIfilter", "0"])]);

    let result = config.to_command_args();

    assert_eq!(result, vec!["-trapdevice8", "-VICIIfilter", "0", "-autostart", "game.prg"]);
}

#[test]
fn test_complex_merge_scenario() {
    let mut config = ViceConfig::new(vec![arg(&["-trapdevice8"]), arg(&["-autostart-warp"]), arg(&["-VICIIfilter", "0"]), arg(&["-joydev1", "0"])]);

    let override_config = ViceConfig::new(vec![arg(&["-joydev1", "1"]), arg(&["-sound"]), arg(&["!-autostart-warp"])]);

    config.merge(&override_config);

    assert_eq!(config.args, vec![arg(&["-trapdevice8"]), arg(&["-VICIIfilter", "0"]), arg(&["-joydev1", "1"]), arg(&["-sound"])]);
}

#[test]
fn test_remove_matches_plus_and_minus_prefix() {
    let mut config = ViceConfig::new(vec![arg(&["-autostart-warp"]), arg(&["+confirmonexit"]), arg(&["-VICIIfilter", "0"])]);

    let override_config = ViceConfig::new(vec![arg(&["!autostart-warp"]), arg(&["!confirmonexit"])]);

    config.merge(&override_config);

    assert_eq!(config.args, vec![arg(&["-VICIIfilter", "0"])]);
}

#[test]
fn test_remove_with_prefix_also_matches() {
    let mut config = ViceConfig::new(vec![arg(&["-autostart-warp"]), arg(&["+confirmonexit"])]);

    let override_config = ViceConfig::new(vec![arg(&["!-autostart-warp"]), arg(&["!+confirmonexit"])]);

    config.merge(&override_config);

    assert_eq!(config.args, Vec::<Vec<String>>::new());
}

#[test]
fn test_replace_matches_regardless_of_prefix() {
    let mut config = ViceConfig::new(vec![arg(&["+confirmonexit"])]);

    let override_config = ViceConfig::new(vec![arg(&["-confirmonexit"])]);

    config.merge(&override_config);

    assert_eq!(config.args, vec![arg(&["-confirmonexit"])]);
}

fn texts(parts: &[&str]) -> Vec<String> {
    parts.iter().map(|s| (*s).to_string()).collect()
}

#[test]
fn keys_are_normalized() {
    assert_eq!(ViceConfig::normalize_key("-joydev1"), "joydev1");
    assert_eq!(ViceConfig::normalize_key("+confirmonexit"), "confirmonexit");
    assert_eq!(ViceConfig::normalize_key("!-autostart-warp"), "autostart-warp");
    assert_eq!(ViceConfig::normalize_key("!+confirmonexit"), "confirmonexit");
    assert_eq!(ViceConfig::normalize_key("!sound"), "sound");
    assert_eq!(ViceConfig::normalize_key("sound"), "sound");
    assert_eq!(ViceConfig::normalize_key("--sound"), "-sound");
    assert_eq!(ViceConfig::normalize_key("-!sound"), "!sound");
    assert_eq!(ViceConfig::normalize_key("!!sound"), "!sound");
    assert_eq!(ViceConfig::normalize_key("!"), "");
    assert_eq!(ViceConfig::normalize_key("-"), "");
    assert_eq!(ViceConfig::normalize_key(""), "");
    assert_eq!(ViceConfig::normalize_key("-\u{e9}t\u{e9}"), "\u{e9}t\u{e9}");
}

#[test]
fn keys_come_from_the_first_text() {
    assert_eq!(ViceConfig::key(&texts(&["-joydev1", "1"])), Some("joydev1"));
    assert_eq!(ViceConfig::key(&texts(&["!-joydev1"])), Some("joydev1"));
    assert_eq!(ViceConfig::key(&texts(&[])), None);
}

#[test]
fn removals_begin_with_an_exclamation_mark() {
    assert!(ViceConfig::is_removal(&texts(&["!-warp"])));
    assert!(ViceConfig::is_removal(&texts(&["!"])));
    assert!(!ViceConfig::is_removal(&texts(&["-warp", "!"])));
    assert!(!ViceConfig::is_removal(&texts(&[""])));
    assert!(!ViceConfig::is_removal(&texts(&[])));
}

#[test]
fn merge_takes_away_every_argument_with_the_key() {
    let mut config =
        ViceConfig::new(vec![texts(&["-sound"]), texts(&["-warp"]), texts(&["+sound", "1"])]);
    config.merge(&ViceConfig::new(vec![texts(&["sound", "2"])]));
    assert_eq!(config.args, vec![texts(&["-warp"]), texts(&["sound", "2"])]);
}

#[test]
fn merge_with_an_argument_without_texts_touches_only_such_arguments() {
    let mut config = ViceConfig::new(vec![texts(&[]), texts(&["-warp"])]);
    config.merge(&ViceConfig::new(vec![texts(&[])]));
    assert_eq!(config.args, vec![texts(&["-warp"]), texts(&[])]);
}

#[test]
fn merge_applies_overrides_one_after_the_other() {
    let mut config = ViceConfig::new(vec![texts(&["-warp"])]);
    config.merge(&ViceConfig::new(vec![
        texts(&["-sound"]),
        texts(&["!sound"]),
        texts(&["-sound", "1"]),
    ]));
    assert_eq!(config.args, vec![texts(&["-warp"]), texts(&["-sound", "1"])]);
}

#[test]
fn command_line_keeps_order_within_each_group() {
    let config = ViceConfig::new(vec![
        texts(&["-autostart", "a.prg"]),
        texts(&["-warp"]),
        texts(&["+autostart", "b.prg"]),
        texts(&["!sound"]),
        texts(&[]),
        texts(&["-autostart-warp"]),
    ]);
    assert_eq!(
        config.to_command_args(),
        vec!["-warp", "-autostart-warp", "-autostart", "a.prg", "+autostart", "b.prg"]
    );
}

#[test]
fn command_line_of_nothing_is_empty() {
    assert!(ViceConfig::new(Vec::new()).to_command_args().is_empty());
}

#[test]
fn default_is_wanted_unless_the_profiles_are_listed_empty() {
    assert!(ViceConfig::wants_default(None));
    assert!(ViceConfig::wants_default(Some(&texts(&["pal"]))));
    assert!(!ViceConfig::wants_default(Some(&texts(&[]))));
}

#[test]
fn compose_lays_profiles_and_own_arguments_over_the_base() {
    let base = ViceConfig::new(vec![texts(&["-trapdevice8"]), texts(&["-autostart-warp"])]);
    let profiles = vec![
        ViceConfig::new(vec![texts(&["-VICIIfilter", "1"])]),
        ViceConfig::new(vec![texts(&["!autostart-warp"]), texts(&["-VICIIfilter", "2"])]),
    ];
    let own = ViceConfig::new(vec![texts(&["-joydev1", "1"])]);
    let config = ViceConfig::compose(base, &profiles, &own);
    assert_eq!(
        config.args,
        vec![texts(&["-trapdevice8"]), texts(&["-VICIIfilter", "2"]), texts(&["-joydev1", "1"])]
    );
}

#[test]
fn compose_without_profiles_is_one_merge() {
    let base = ViceConfig::new(vec![texts(&["-trapdevice8"])]);
    let own = ViceConfig::new(vec![texts(&["-joydev1", "1"])]);
    let config = ViceConfig::compose(base, &Vec::new(), &own);
    assert_eq!(config.args, vec![texts(&["-trapdevice8"]), texts(&["-joydev1", "1"])]);
}

fn configured(
    default: &[&[&str]],
    inherits: Option<&[&str]>,
    profiles: &[(&str, &[&[&str]])],
    own: &[&[&str]],
) -> ViceConfig {
    let config = |args: &[&[&str]]| ViceConfig::new(args.iter().map(|a| texts(a)).collect());
    let names = inherits.map(texts);
    let base = if ViceConfig::wants_default(names.as_ref()) {
        config(default)
    } else {
        ViceConfig::new(Vec::new())
    };
    let inherited: Vec<ViceConfig> = names
        .unwrap_or_default()
        .iter()
        .filter_map(|name| profiles.iter().find(|(profile, _)| profile == name))
        .map(|(_, args)| config(args))
        .collect();
    ViceConfig::compose(base, &inherited, &config(own))
}

#[test]
fn test_load_with_profiles() {
    let config = configured(
        &[&["-trapdevice8"], &["-autostart-warp"]],
        Some(&["pal"]),
        &[("pal", &[&["-VICIIfilter", "1"]])],
        &[&["-joydev1", "1"]],
    );

    assert_eq!(config.args, vec![arg(&["-trapdevice8"]), arg(&["-autostart-warp"]), arg(&["-VICIIfilter", "1"]), arg(&["-joydev1", "1"])]);
}

#[test]
fn test_load_with_profiles_empty_inherits_skips_default() {
    let config = configured(&[&["-trapdevice8"]], Some(&[]), &[], &[&["-joydev1", "1"]]);

    assert_eq!(config.args, vec![arg(&["-joydev1", "1"])]);
}

#[test]
fn test_load_with_profiles_removal_syntax() {
    let config = configured(
        &[&["-trapdevice8"], &["-autostart-warp"]],
        None,
        &[],
        &[&["!autostart-warp"], &["-joydev1", "1"]],
    );

    assert_eq!(config.args, vec![arg(&["-trapdevice8"]), arg(&["-joydev1", "1"])]);
}
