use pwm::keybindings::{
    action_for, default_bindings, logout_choices, logout_command, raw_key_bindings, Action,
};
use pwm::table::Table;
use pwm::user_config::{Apps, BindSpec};

fn apps() -> Apps {
    Apps {
        terminal: "st".to_string(),
        launcher: "dmenu_run".to_string(),
        locker: "slock".to_string(),
        startup_script: "/etc/xdg/pwm/startup.sh".to_string(),
    }
}

fn bind(key: &str, action: &str, arg: Option<&str>) -> BindSpec {
    BindSpec { key: key.to_string(), action: action.to_string(), arg: arg.map(|a| a.to_string()) }
}

fn spawn_of(t: &Table<Action>, key: &str) -> Option<String> {
    match t.get(key) {
        Some(Action::Spawn(c)) => Some(c.clone()),
        _ => None,
    }
}

fn scratchpad_keys(t: Table<Action>) -> Vec<String> {
    t.into_entries()
        .into_iter()
        .filter(|(_, a)| matches!(a, Action::ToggleScratchpad))
        .map(|(k, _)| k)
        .collect()
}

#[test]
fn default_keymap_contents() {
    let t = default_bindings(true, &apps());
    assert!(matches!(t.get("M-j"), Some(Action::FocusDown)));
    assert!(matches!(t.get("M-k"), Some(Action::FocusUp)));
    assert!(matches!(t.get("M-S-j"), Some(Action::SwapDown)));
    assert!(matches!(t.get("M-S-k"), Some(Action::SwapUp)));
    assert!(matches!(t.get("M-q"), Some(Action::KillFocused)));
    assert!(matches!(t.get("M-S-f"), Some(Action::ToggleFullscreen)));
    assert!(matches!(t.get("M-Tab"), Some(Action::ToggleTag)));
    assert!(matches!(t.get("M-period"), Some(Action::NextScreen)));
    assert!(matches!(t.get("M-comma"), Some(Action::PreviousScreen)));
    assert!(matches!(t.get("M-m"), Some(Action::NextLayout)));
    assert!(matches!(t.get("M-S-m"), Some(Action::PreviousLayout)));
    assert!(matches!(t.get("M-Up"), Some(Action::IncMain(1))));
    assert!(matches!(t.get("M-Down"), Some(Action::IncMain(-1))));
    assert!(matches!(t.get("M-Right"), Some(Action::ExpandMain)));
    assert!(matches!(t.get("M-Left"), Some(Action::ShrinkMain)));
    assert_eq!(spawn_of(&t, "M-Return").as_deref(), Some("st"));
    assert_eq!(spawn_of(&t, "M-d").as_deref(), Some("dmenu_run"));
    assert_eq!(spawn_of(&t, "M-t").as_deref(), Some("slock"));
    assert!(matches!(t.get("M-x"), Some(Action::LogoutMenu)));
    assert!(matches!(t.get("M-S-s"), Some(Action::LogState)));
    assert!(matches!(t.get("M-S-q"), Some(Action::Exit)));
    assert!(matches!(t.get("M-S-r"), Some(Action::Restart)));
    assert_eq!(
        spawn_of(&t, "XF86AudioRaiseVolume").as_deref(),
        Some("pactl set-sink-volume @DEFAULT_SINK@ +5%")
    );
    assert_eq!(
        spawn_of(&t, "XF86AudioLowerVolume").as_deref(),
        Some("pactl set-sink-volume @DEFAULT_SINK@ -5%")
    );
    assert_eq!(
        spawn_of(&t, "XF86AudioMute").as_deref(),
        Some("pactl set-sink-mute @DEFAULT_SINK@ toggle")
    );
    assert!(matches!(t.get("M-s"), Some(Action::ToggleScratchpad)));
    assert_eq!(t.into_entries().len(), 26);
}

#[test]
fn default_keymap_without_scratchpad() {
    let t = default_bindings(false, &apps());
    assert!(t.get("M-s").is_none());
    assert_eq!(t.into_entries().len(), 25);
}

#[test]
fn no_binds_gives_defaults_and_workspaces() {
    let t = raw_key_bindings(&apps(), None);
    assert!(matches!(t.get("M-s"), Some(Action::ToggleScratchpad)));
    for tag in ["1", "2", "3", "4", "5", "6", "7", "8", "9"] {
        match t.get(&format!("M-{tag}")) {
            Some(Action::FocusTag(x)) => assert_eq!(x, tag),
            _ => panic!("missing focus binding"),
        }
        match t.get(&format!("M-S-{tag}")) {
            Some(Action::MoveFocusedToTag(x)) => assert_eq!(x, tag),
            _ => panic!("missing move binding"),
        }
    }
    assert_eq!(t.into_entries().len(), 26 + 18);
    let empty: Vec<BindSpec> = vec![];
    assert_eq!(raw_key_bindings(&apps(), Some(&empty)).into_entries().len(), 44);
}

#[test]
fn bind_replaces_only_its_key() {
    let binds = vec![bind("M-j", "spawn", Some("firefox"))];
    let t = raw_key_bindings(&apps(), Some(&binds));
    assert_eq!(spawn_of(&t, "M-j").as_deref(), Some("firefox"));
    assert!(matches!(t.get("M-k"), Some(Action::FocusUp)));
    assert_eq!(spawn_of(&t, "M-Return").as_deref(), Some("st"));
    assert_eq!(t.into_entries().len(), 44);
}

#[test]
fn bind_adds_new_key() {
    let binds = vec![bind("M-b", "next_layout", None)];
    let t = raw_key_bindings(&apps(), Some(&binds));
    assert!(matches!(t.get("M-b"), Some(Action::NextLayout)));
    assert_eq!(t.into_entries().len(), 45);
}

#[test]
fn later_bind_for_same_key_wins() {
    let binds = vec![bind("M-b", "next_layout", None), bind("M-b", "exit", None)];
    let t = raw_key_bindings(&apps(), Some(&binds));
    assert!(matches!(t.get("M-b"), Some(Action::Exit)));
}

#[test]
fn unknown_action_is_skipped() {
    let binds = vec![bind("M-j", "fly_away", None), bind("M-z", "spawn", None)];
    let t = raw_key_bindings(&apps(), Some(&binds));
    assert!(matches!(t.get("M-j"), Some(Action::FocusDown)));
    assert!(t.get("M-z").is_none());
}

#[test]
fn workspace_keys_win_over_binds() {
    let binds = vec![bind("M-1", "exit", None)];
    let t = raw_key_bindings(&apps(), Some(&binds));
    assert!(matches!(t.get("M-1"), Some(Action::FocusTag(_))));
}

#[test]
fn scratchpad_moves_to_bound_key() {
    let binds = vec![bind("M-p", "toggle_scratchpad", None)];
    let t = raw_key_bindings(&apps(), Some(&binds));
    assert!(t.get("M-s").is_none());
    assert!(matches!(t.get("M-p"), Some(Action::ToggleScratchpad)));
    assert_eq!(scratchpad_keys(t), vec!["M-p".to_string()]);
}

#[test]
fn scratchpad_bound_once_only() {
    let binds = vec![
        bind("M-p", "toggle_scratchpad", None),
        bind("M-o", "toggle_scratchpad", None),
    ];
    let t = raw_key_bindings(&apps(), Some(&binds));
    assert!(t.get("M-o").is_none());
    assert_eq!(scratchpad_keys(t), vec!["M-p".to_string()]);
}

#[test]
fn scratchpad_rebound_over_its_own_key_is_lost() {
    let binds = vec![bind("M-p", "toggle_scratchpad", None), bind("M-p", "exit", None)];
    let t = raw_key_bindings(&apps(), Some(&binds));
    assert!(scratchpad_keys(t).is_empty());
}

#[test]
fn action_for_names() {
    let a = apps();
    let mut free = true;
    assert!(matches!(action_for("focus_down", None, &a, &mut free), Some(Action::FocusDown)));
    assert!(matches!(action_for("previous_layout", None, &a, &mut free), Some(Action::PreviousLayout)));
    assert!(matches!(action_for("expand_main", None, &a, &mut free), Some(Action::ExpandMain)));
    assert!(matches!(action_for("log_state", None, &a, &mut free), Some(Action::LogState)));
    assert!(matches!(action_for("logout_menu", None, &a, &mut free), Some(Action::LogoutMenu)));
    assert!(matches!(action_for("restart", None, &a, &mut free), Some(Action::Restart)));
    match action_for("spawn_launcher", None, &a, &mut free) {
        Some(Action::Spawn(c)) => assert_eq!(c, "dmenu_run"),
        _ => panic!("expected spawn"),
    }
    match action_for("spawn", Some("alacritty -e htop"), &a, &mut free) {
        Some(Action::Spawn(c)) => assert_eq!(c, "alacritty -e htop"),
        _ => panic!("expected spawn"),
    }
    assert!(action_for("spawn", None, &a, &mut free).is_none());
    assert!(action_for("Focus_Down", None, &a, &mut free).is_none());
    assert!(free);
}

#[test]
fn action_for_inc_main_argument() {
    let a = apps();
    let mut free = true;
    assert!(matches!(action_for("inc_main", Some("-3"), &a, &mut free), Some(Action::IncMain(-3))));
    assert!(matches!(action_for("inc_main", Some("+2"), &a, &mut free), Some(Action::IncMain(2))));
    assert!(matches!(action_for("inc_main", Some("-128"), &a, &mut free), Some(Action::IncMain(-128))));
    assert!(matches!(action_for("inc_main", Some("128"), &a, &mut free), Some(Action::IncMain(1))));
    assert!(matches!(action_for("inc_main", Some("two"), &a, &mut free), Some(Action::IncMain(1))));
    assert!(matches!(action_for("inc_main", None, &a, &mut free), Some(Action::IncMain(1))));
}

#[test]
fn action_for_scratchpad_taken_once() {
    let a = apps();
    let mut free = true;
    assert!(matches!(action_for("toggle_scratchpad", None, &a, &mut free), Some(Action::ToggleScratchpad)));
    assert!(!free);
    assert!(action_for("toggle_scratchpad", None, &a, &mut free).is_none());
    assert!(!free);
}

#[test]
fn logout_menu_choices_and_commands() {
    let choices = logout_choices();
    assert_eq!(choices, vec!["󰒲  suspend", "󰍃  logout", "󱞳  reboot", "󰤆  shutdown"]);
    assert_eq!(logout_command(choices[0]), Some("loginctl suspend"));
    assert_eq!(logout_command(choices[1]), Some("kill -9 -1"));
    assert_eq!(logout_command(choices[2]), Some("loginctl reboot"));
    assert_eq!(logout_command(choices[3]), Some("loginctl poweroff"));
    assert_eq!(logout_command("suspend"), None);
    assert_eq!(logout_command(""), None);
}

#[test]
fn skipped_binds_are_reported() {
    let binds = vec![
        bind("M-a", "toggle_scratchpad", None),
        bind("M-b", "fly_away", None),
        bind("M-c", "spawn", None),
        bind("M-d", "toggle_scratchpad", None),
        bind("M-e", "exit", None),
    ];
    assert_eq!(pwm::keybindings::skipped_binds(&apps(), &binds), vec![1, 2, 3]);
    let none: Vec<BindSpec> = vec![];
    assert!(pwm::keybindings::skipped_binds(&apps(), &none).is_empty());
}
