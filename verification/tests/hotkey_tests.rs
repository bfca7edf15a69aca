use typr::hotkey::{
    hotkey_token_list, hotkey_update_plan, is_modifier_only_hotkey, is_modifier_token,
    modifier_mask_for_hotkey, modifier_poll, modifier_target, registration_for, split_at_plus, HotkeyRegistration,
    ShortcutTransition, ALTERNATE_FLAG, COMMAND_FLAG, CONTROL_FLAG, SHIFT_FLAG,
};

#[test]
fn modifier_tokens_ignore_case_and_white_space() {
    assert!(is_modifier_token(" option "));
    assert!(is_modifier_token("CmdOrCtrl"));
    assert!(is_modifier_token("super"));
    assert!(!is_modifier_token("Space"));
    assert!(!is_modifier_token(""));
}

#[test]
fn hotkeys_split_into_trimmed_non_blank_tokens() {
    assert_eq!(split_at_plus("a++b"), vec!["a", "", "b"]);
    assert_eq!(hotkey_token_list(" Ctrl + Option +Space"), vec!["Ctrl", "Option", "Space"]);
    assert_eq!(hotkey_token_list("+ +"), Vec::<String>::new());
}

#[test]
fn modifier_only_hotkeys() {
    assert!(is_modifier_only_hotkey("Ctrl+Option"));
    assert!(is_modifier_only_hotkey(" cmd + + shift "));
    assert!(!is_modifier_only_hotkey("Ctrl+Option+Space"));
    assert!(!is_modifier_only_hotkey(""));
    assert!(!is_modifier_only_hotkey(" + "));
}

#[test]
fn modifier_masks_or_the_flags_together() {
    assert_eq!(
        modifier_mask_for_hotkey("Ctrl+Option"),
        Some(CONTROL_FLAG | ALTERNATE_FLAG)
    );
    assert_eq!(
        modifier_mask_for_hotkey("CmdOrCtrl+Shift"),
        Some(COMMAND_FLAG | SHIFT_FLAG)
    );
    assert_eq!(modifier_mask_for_hotkey("Ctrl+K"), None);
    assert_eq!(modifier_mask_for_hotkey(""), None);
}

#[test]
fn modifier_polls_report_changes_only() {
    let target = CONTROL_FLAG | ALTERNATE_FLAG;
    assert_eq!(
        modifier_poll(target | 0x100, target, false),
        (true, Some(ShortcutTransition::Pressed))
    );
    assert_eq!(modifier_poll(target, target, true), (true, None));
    assert_eq!(
        modifier_poll(CONTROL_FLAG, target, true),
        (false, Some(ShortcutTransition::Released))
    );
    assert_eq!(modifier_poll(target | SHIFT_FLAG, target, false), (false, None));
}

#[test]
fn registrations_by_kind() {
    assert_eq!(registration_for(""), HotkeyRegistration::Nothing);
    assert_eq!(
        registration_for("Ctrl+Option"),
        HotkeyRegistration::ModifierWatcher("Ctrl+Option".to_string())
    );
    assert_eq!(
        registration_for("Ctrl+Option+Space"),
        HotkeyRegistration::Shortcut("Ctrl+Option+Space".to_string())
    );
}

#[test]
fn hotkey_update_plans() {
    let same = hotkey_update_plan(" Ctrl+K ", "Ctrl+K");
    assert!(same.unchanged);
    assert_eq!(same.unregister, None);

    let plan = hotkey_update_plan("Ctrl+Option+Space", " Ctrl+Option ");
    assert!(!plan.unchanged);
    assert_eq!(plan.unregister, Some("Ctrl+Option+Space".to_string()));
    assert_eq!(
        plan.register,
        HotkeyRegistration::ModifierWatcher("Ctrl+Option".to_string())
    );
    assert_eq!(
        plan.restore,
        HotkeyRegistration::Shortcut("Ctrl+Option+Space".to_string())
    );

    let from_modifiers = hotkey_update_plan("Ctrl+Option", "");
    assert_eq!(from_modifiers.unregister, None);
    assert_eq!(from_modifiers.register, HotkeyRegistration::Nothing);
}

#[test]
fn modifier_targets_name_invalid_hotkeys() {
    assert_eq!(modifier_target("Ctrl+Option"), Ok(CONTROL_FLAG | ALTERNATE_FLAG));
    assert_eq!(
        modifier_target("Ctrl+K"),
        Err("Invalid modifier-only hotkey 'Ctrl+K'".to_string())
    );
}

#[test]
fn a_run_of_polls_reports_alternating_changes() {
    let target = CONTROL_FLAG | ALTERNATE_FLAG;
    let readings = [0, target, target | 0x100, CONTROL_FLAG, 0, target];
    let mut was = modifier_poll(readings[0], target, false).0;
    let mut events = Vec::new();
    for &flags in &readings[1..] {
        let (pressed, transition) = modifier_poll(flags, target, was);
        events.push(transition);
        was = pressed;
    }
    assert_eq!(
        events,
        vec![
            Some(ShortcutTransition::Pressed),
            None,
            Some(ShortcutTransition::Released),
            None,
            Some(ShortcutTransition::Pressed),
        ]
    );
}
