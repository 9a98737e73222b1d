//! The keymap: which key runs which action. The built-in bindings, the
//! `[[bind]]` entries of `config.toml` overlaid on them key by key, and the
//! per-workspace bindings on top; and the choices of the session menu.
//!
//! Actions are plain values here; turning each into the window manager's
//! handler happens where the window manager is driven.

use vstd::prelude::*;
use crate::config::WORKSPACES;
use crate::table::Table;
use crate::text::{chars_of, chars_eq_str, parse_i8, parse_signed};
use crate::user_config::{Apps, BindSpec};

verus! {

/// What a key binding does.
#[derive(Debug, Clone)]
pub enum Action {
    FocusDown,
    FocusUp,
    SwapDown,
    SwapUp,
    KillFocused,
    ToggleFullscreen,
    ToggleTag,
    NextScreen,
    PreviousScreen,
    NextLayout,
    PreviousLayout,
    /// Change the number of windows in the main area by this much.
    IncMain(i8),
    ExpandMain,
    ShrinkMain,
    /// Run this command.
    Spawn(String),
    LogoutMenu,
    LogState,
    Exit,
    Restart,
    ToggleScratchpad,
    /// Focus the workspace of this name.
    FocusTag(String),
    /// Move the focused window to the workspace of this name.
    MoveFocusedToTag(String),
}

/// What an [`Action`] holds, its strings as characters.
pub enum ActionView {
    FocusDown,
    FocusUp,
    SwapDown,
    SwapUp,
    KillFocused,
    ToggleFullscreen,
    ToggleTag,
    NextScreen,
    PreviousScreen,
    NextLayout,
    PreviousLayout,
    IncMain(i8),
    ExpandMain,
    ShrinkMain,
    Spawn(Seq<char>),
    LogoutMenu,
    LogState,
    Exit,
    Restart,
    ToggleScratchpad,
    FocusTag(Seq<char>),
    MoveFocusedToTag(Seq<char>),
}

impl View for Action {
    type V = ActionView;

    open spec fn view(&self) -> ActionView {
        match self {
            Action::FocusDown => ActionView::FocusDown,
            Action::FocusUp => ActionView::FocusUp,
            Action::SwapDown => ActionView::SwapDown,
            Action::SwapUp => ActionView::SwapUp,
            Action::KillFocused => ActionView::KillFocused,
            Action::ToggleFullscreen => ActionView::ToggleFullscreen,
            Action::ToggleTag => ActionView::ToggleTag,
            Action::NextScreen => ActionView::NextScreen,
            Action::PreviousScreen => ActionView::PreviousScreen,
            Action::NextLayout => ActionView::NextLayout,
            Action::PreviousLayout => ActionView::PreviousLayout,
            Action::IncMain(n) => ActionView::IncMain(*n),
            Action::ExpandMain => ActionView::ExpandMain,
            Action::ShrinkMain => ActionView::ShrinkMain,
            Action::Spawn(c) => ActionView::Spawn(c@),
            Action::LogoutMenu => ActionView::LogoutMenu,
            Action::LogState => ActionView::LogState,
            Action::Exit => ActionView::Exit,
            Action::Restart => ActionView::Restart,
            Action::ToggleScratchpad => ActionView::ToggleScratchpad,
            Action::FocusTag(t) => ActionView::FocusTag(t@),
            Action::MoveFocusedToTag(t) => ActionView::MoveFocusedToTag(t@),
        }
    }
}

/// The volume commands bound to the media keys.
pub const RAISE_VOLUME: &'static str = "pactl set-sink-volume @DEFAULT_SINK@ +5%";

pub const LOWER_VOLUME: &'static str = "pactl set-sink-volume @DEFAULT_SINK@ -5%";

pub const TOGGLE_MUTE: &'static str = "pactl set-sink-mute @DEFAULT_SINK@ toggle";

/// The built-in keymap; `M-s` toggles the scratchpad when `with_scratchpad`.
pub open spec fn default_keymap(with_scratchpad: bool, apps: Apps) -> Map<Seq<char>, ActionView> {
    let m = Map::empty().insert("M-j"@, ActionView::FocusDown).insert(
        "M-k"@,
        ActionView::FocusUp,
    ).insert("M-S-j"@, ActionView::SwapDown).insert("M-S-k"@, ActionView::SwapUp).insert(
        "M-q"@,
        ActionView::KillFocused,
    ).insert("M-S-f"@, ActionView::ToggleFullscreen).insert("M-Tab"@, ActionView::ToggleTag).insert(
        "M-period"@,
        ActionView::NextScreen,
    ).insert("M-comma"@, ActionView::PreviousScreen).insert("M-m"@, ActionView::NextLayout).insert(
        "M-S-m"@,
        ActionView::PreviousLayout,
    ).insert("M-Up"@, ActionView::IncMain(1i8)).insert("M-Down"@, ActionView::IncMain(-1i8)).insert(
        "M-Right"@,
        ActionView::ExpandMain,
    ).insert("M-Left"@, ActionView::ShrinkMain).insert(
        "M-Return"@,
        ActionView::Spawn(apps.terminal@),
    ).insert("M-d"@, ActionView::Spawn(apps.launcher@)).insert(
        "M-t"@,
        ActionView::Spawn(apps.locker@),
    ).insert("M-x"@, ActionView::LogoutMenu).insert("M-S-s"@, ActionView::LogState).insert(
        "M-S-q"@,
        ActionView::Exit,
    ).insert("M-S-r"@, ActionView::Restart).insert(
        "XF86AudioRaiseVolume"@,
        ActionView::Spawn(RAISE_VOLUME@),
    ).insert("XF86AudioLowerVolume"@, ActionView::Spawn(LOWER_VOLUME@)).insert(
        "XF86AudioMute"@,
        ActionView::Spawn(TOGGLE_MUTE@),
    );
    if with_scratchpad {
        m.insert("M-s"@, ActionView::ToggleScratchpad)
    } else {
        m
    }
}

/// Binds `key` to `action` in `t`.
fn bind(t: &mut Table<Action>, key: &str, action: Action)
    ensures
        final(t)@ == old(t)@.insert(key@, action@),
{
    t.insert(String::from_str(key), action);
}

/// The default keymap, the base that `config.toml`'s `[[bind]]` entries are
/// overlaid onto. `with_scratchpad` is false when a `[[bind]]` entry claims
/// the scratchpad toggle for another key, in which case the default `M-s`
/// binding for it is left out.
pub fn default_bindings(with_scratchpad: bool, apps: &Apps) -> (r: Table<Action>)
    ensures
        r@ == default_keymap(with_scratchpad, *apps),
{
    let mut t: Table<Action> = Table::new();
    // Window navigation
    bind(&mut t, "M-j", Action::FocusDown);
    bind(&mut t, "M-k", Action::FocusUp);
    bind(&mut t, "M-S-j", Action::SwapDown);
    bind(&mut t, "M-S-k", Action::SwapUp);
    // Window management
    bind(&mut t, "M-q", Action::KillFocused);
    bind(&mut t, "M-S-f", Action::ToggleFullscreen);
    // Workspace/tag navigation
    bind(&mut t, "M-Tab", Action::ToggleTag);
    // Screen navigation
    bind(&mut t, "M-period", Action::NextScreen);
    bind(&mut t, "M-comma", Action::PreviousScreen);
    // Layouts
    bind(&mut t, "M-m", Action::NextLayout);
    bind(&mut t, "M-S-m", Action::PreviousLayout);
    bind(&mut t, "M-Up", Action::IncMain(1));
    bind(&mut t, "M-Down", Action::IncMain(-1));
    bind(&mut t, "M-Right", Action::ExpandMain);
    bind(&mut t, "M-Left", Action::ShrinkMain);
    // Applications
    bind(&mut t, "M-Return", Action::Spawn(apps.terminal.clone()));
    bind(&mut t, "M-d", Action::Spawn(apps.launcher.clone()));
    bind(&mut t, "M-t", Action::Spawn(apps.locker.clone()));
    // System
    bind(&mut t, "M-x", Action::LogoutMenu);
    bind(&mut t, "M-S-s", Action::LogState);
    bind(&mut t, "M-S-q", Action::Exit);
    bind(&mut t, "M-S-r", Action::Restart);
    // Volume (PulseAudio)
    bind(&mut t, "XF86AudioRaiseVolume", Action::Spawn(String::from_str(RAISE_VOLUME)));
    bind(&mut t, "XF86AudioLowerVolume", Action::Spawn(String::from_str(LOWER_VOLUME)));
    bind(&mut t, "XF86AudioMute", Action::Spawn(String::from_str(TOGGLE_MUTE)));
    // Scratchpad
    if with_scratchpad {
        bind(&mut t, "M-s", Action::ToggleScratchpad);
    }
    t
}


/// What `arg` holds, as characters.
pub open spec fn arg_view(arg: Option<&str>) -> Option<Seq<char>> {
    match arg {
        Some(a) => Some(a@),
        None => None,
    }
}

/// How much `inc_main` changes the main area by: its argument read as an
/// `i8`, or 1 when there is none or it is no `i8`.
pub open spec fn inc_main_amount(arg: Option<Seq<char>>) -> i8 {
    match arg {
        Some(a) => match parse_signed(a, 10, i8::MIN as int, i8::MAX as nat) {
            Some(v) => v as i8,
            None => 1,
        },
        None => 1,
    }
}

/// The action a `[[bind]]` entry names. `scratchpad_free` says whether the
/// scratchpad toggle is still to be had: it can only be bound once. An
/// unknown name, `spawn` without an argument and a toggle already taken
/// give `None`.
pub open spec fn named_action(
    name: Seq<char>,
    arg: Option<Seq<char>>,
    apps: Apps,
    scratchpad_free: bool,
) -> Option<ActionView> {
    if name == "toggle_scratchpad"@ {
        if scratchpad_free {
            Some(ActionView::ToggleScratchpad)
        } else {
            None
        }
    } else if name == "focus_down"@ {
        Some(ActionView::FocusDown)
    } else if name == "focus_up"@ {
        Some(ActionView::FocusUp)
    } else if name == "swap_down"@ {
        Some(ActionView::SwapDown)
    } else if name == "swap_up"@ {
        Some(ActionView::SwapUp)
    } else if name == "kill_focused"@ {
        Some(ActionView::KillFocused)
    } else if name == "toggle_fullscreen"@ {
        Some(ActionView::ToggleFullscreen)
    } else if name == "toggle_tag"@ {
        Some(ActionView::ToggleTag)
    } else if name == "next_screen"@ {
        Some(ActionView::NextScreen)
    } else if name == "previous_screen"@ {
        Some(ActionView::PreviousScreen)
    } else if name == "next_layout"@ {
        Some(ActionView::NextLayout)
    } else if name == "previous_layout"@ {
        Some(ActionView::PreviousLayout)
    } else if name == "expand_main"@ {
        Some(ActionView::ExpandMain)
    } else if name == "shrink_main"@ {
        Some(ActionView::ShrinkMain)
    } else if name == "inc_main"@ {
        Some(ActionView::IncMain(inc_main_amount(arg)))
    } else if name == "spawn_terminal"@ {
        Some(ActionView::Spawn(apps.terminal@))
    } else if name == "spawn_launcher"@ {
        Some(ActionView::Spawn(apps.launcher@))
    } else if name == "spawn_locker"@ {
        Some(ActionView::Spawn(apps.locker@))
    } else if name == "spawn"@ {
        match arg {
            Some(a) => Some(ActionView::Spawn(a)),
            None => None,
        }
    } else if name == "logout_menu"@ {
        Some(ActionView::LogoutMenu)
    } else if name == "log_state"@ {
        Some(ActionView::LogState)
    } else if name == "exit"@ {
        Some(ActionView::Exit)
    } else if name == "restart"@ {
        Some(ActionView::Restart)
    } else {
        None
    }
}

/// What an optional action holds.
pub open spec fn action_opt_view(a: Option<Action>) -> Option<ActionView> {
    match a {
        Some(a) => Some(a@),
        None => None,
    }
}

/// The action that the named entry of `config.toml` binds, as
/// `default_bindings` wires the same action up. `toggle_scratchpad` can be
/// bound once: the first use takes it, and a later one, like an unknown
/// name, gives `None`.
pub fn action_for(
    action: &str,
    arg: Option<&str>,
    apps: &Apps,
    toggle_scratchpad: &mut bool,
) -> (r: Option<Action>)
    ensures
        action_opt_view(r) == named_action(action@, arg_view(arg), *apps, *old(toggle_scratchpad)),
        *final(toggle_scratchpad) == (*old(toggle_scratchpad) && action@ != "toggle_scratchpad"@),
{
    let name = chars_of(action);
    let n = name.as_slice();
    if chars_eq_str(n, "toggle_scratchpad") {
        if *toggle_scratchpad {
            *toggle_scratchpad = false;
            Some(Action::ToggleScratchpad)
        } else {
            None
        }
    } else if chars_eq_str(n, "focus_down") {
        Some(Action::FocusDown)
    } else if chars_eq_str(n, "focus_up") {
        Some(Action::FocusUp)
    } else if chars_eq_str(n, "swap_down") {
        Some(Action::SwapDown)
    } else if chars_eq_str(n, "swap_up") {
        Some(Action::SwapUp)
    } else if chars_eq_str(n, "kill_focused") {
        Some(Action::KillFocused)
    } else if chars_eq_str(n, "toggle_fullscreen") {
        Some(Action::ToggleFullscreen)
    } else if chars_eq_str(n, "toggle_tag") {
        Some(Action::ToggleTag)
    } else if chars_eq_str(n, "next_screen") {
        Some(Action::NextScreen)
    } else if chars_eq_str(n, "previous_screen") {
        Some(Action::PreviousScreen)
    } else if chars_eq_str(n, "next_layout") {
        Some(Action::NextLayout)
    } else if chars_eq_str(n, "previous_layout") {
        Some(Action::PreviousLayout)
    } else if chars_eq_str(n, "expand_main") {
        Some(Action::ExpandMain)
    } else if chars_eq_str(n, "shrink_main") {
        Some(Action::ShrinkMain)
    } else if chars_eq_str(n, "inc_main") {
        let amount: i8 = match arg {
            Some(a) => {
                let ac = chars_of(a);
                match parse_i8(ac.as_slice()) {
                    Some(v) => v,
                    None => 1,
                }
            },
            None => 1,
        };
        Some(Action::IncMain(amount))
    } else if chars_eq_str(n, "spawn_terminal") {
        Some(Action::Spawn(apps.terminal.clone()))
    } else if chars_eq_str(n, "spawn_launcher") {
        Some(Action::Spawn(apps.launcher.clone()))
    } else if chars_eq_str(n, "spawn_locker") {
        Some(Action::Spawn(apps.locker.clone()))
    } else if chars_eq_str(n, "spawn") {
        match arg {
            Some(a) => Some(Action::Spawn(String::from_str(a))),
            None => None,
        }
    } else if chars_eq_str(n, "logout_menu") {
        Some(Action::LogoutMenu)
    } else if chars_eq_str(n, "log_state") {
        Some(Action::LogState)
    } else if chars_eq_str(n, "exit") {
        Some(Action::Exit)
    } else if chars_eq_str(n, "restart") {
        Some(Action::Restart)
    } else {
        None
    }
}


/// The argument of a `[[bind]]` entry, as characters.
pub open spec fn bind_arg(b: BindSpec) -> Option<Seq<char>> {
    match b.arg {
        Some(a) => Some(a@),
        None => None,
    }
}

/// One `[[bind]]` entry applied to a keymap and to whether the scratchpad
/// toggle is still free: a recognized action replaces what the key did, an
/// unrecognized one leaves the keymap as it was.
pub open spec fn bind_step(
    state: (Map<Seq<char>, ActionView>, bool),
    b: BindSpec,
    apps: Apps,
) -> (Map<Seq<char>, ActionView>, bool) {
    let free = state.1 && b.action@ != "toggle_scratchpad"@;
    match named_action(b.action@, bind_arg(b), apps, state.1) {
        Some(a) => (state.0.insert(b.key@, a), free),
        None => (state.0, free),
    }
}

/// The `[[bind]]` entries `binds` applied in order to `base`, with the
/// scratchpad toggle free at the start when `free`.
pub open spec fn overlay_binds(
    base: Map<Seq<char>, ActionView>,
    binds: Seq<BindSpec>,
    apps: Apps,
    free: bool,
) -> (Map<Seq<char>, ActionView>, bool)
    decreases binds.len(),
{
    if binds.len() == 0 {
        (base, free)
    } else {
        bind_step(overlay_binds(base, binds.drop_last(), apps, free), binds.last(), apps)
    }
}

/// Whether some entry of `binds` names the scratchpad toggle.
pub open spec fn claims_scratchpad(binds: Seq<BindSpec>) -> bool {
    exists|i: int| 0 <= i < binds.len() && binds[i].action@ == "toggle_scratchpad"@
}

/// The key that focuses the workspace at `i`.
pub open spec fn focus_key(i: int) -> Seq<char> {
    "M-"@ + WORKSPACES[i]@
}

/// The key that moves the focused window to the workspace at `i`.
pub open spec fn move_key(i: int) -> Seq<char> {
    "M-S-"@ + WORKSPACES[i]@
}

/// `m` with the bindings of the first `n` workspaces added on top.
pub open spec fn with_workspace_keys(m: Map<Seq<char>, ActionView>, n: nat) -> Map<
    Seq<char>,
    ActionView,
>
    decreases n,
{
    if n == 0 {
        m
    } else {
        let i = n - 1;
        with_workspace_keys(m, (n - 1) as nat).insert(
            focus_key(i),
            ActionView::FocusTag(WORKSPACES[i]@),
        ).insert(move_key(i), ActionView::MoveFocusedToTag(WORKSPACES[i]@))
    }
}

/// The entries of an optional list of `[[bind]]` entries.
pub open spec fn bind_list(binds: Option<&[BindSpec]>) -> Seq<BindSpec> {
    match binds {
        Some(b) => b@,
        None => seq![],
    }
}

/// The keymap pwm runs with: the defaults (without `M-s` when an entry
/// claims the scratchpad toggle), the entries overlaid in order, and the
/// workspace bindings on top.
pub open spec fn keymap(apps: Apps, binds: Seq<BindSpec>) -> Map<Seq<char>, ActionView> {
    let moves = claims_scratchpad(binds);
    let overlaid = overlay_binds(default_keymap(!moves, apps), binds, apps, moves).0;
    with_workspace_keys(overlaid, 9)
}

/// Whether some entry of `binds` names the scratchpad toggle.
fn any_claims_scratchpad(binds: &[BindSpec]) -> (r: bool)
    ensures
        r == claims_scratchpad(binds@),
{
    let mut i: usize = 0;
    while i < binds.len()
        invariant
            i <= binds.len(),
            forall|j: int| 0 <= j < i ==> binds@[j].action@ != "toggle_scratchpad"@,
        decreases binds.len() - i,
    {
        if crate::text::str_eq(binds[i].action.as_str(), "toggle_scratchpad") {
            return true;
        }
        i = i + 1;
    }
    false
}

/// Creates the main keybindings: the built-in defaults, with `config.toml`'s
/// `[[bind]]` entries (if any) overlaid on top key by key - a `[[bind]]` for
/// a key that already does something replaces just that one binding, every
/// other default stays intact. Unrecognized action names, and any use of
/// `toggle_scratchpad` beyond the first, are skipped. Per-workspace
/// `M-<tag>`/`M-S-<tag>` bindings are always added on top of everything else.
pub fn raw_key_bindings(apps: &Apps, binds: Option<&[BindSpec]>) -> (r: Table<Action>)
    ensures
        r@ == keymap(*apps, bind_list(binds)),
{
    let moves_scratchpad = match binds {
        Some(specs) => any_claims_scratchpad(specs),
        None => false,
    };
    let mut toggle_scratchpad: bool = true;
    let default_scratchpad = if moves_scratchpad {
        false
    } else {
        toggle_scratchpad = false;
        true
    };
    let mut raw_bindings = default_bindings(default_scratchpad, apps);
    let ghost base = raw_bindings@;
    if let Some(specs) = binds {
        let mut i: usize = 0;
        assert(specs@.take(0) =~= Seq::<BindSpec>::empty());
        while i < specs.len()
            invariant
                i <= specs.len(),
                (raw_bindings@, toggle_scratchpad) == overlay_binds(
                    base,
                    specs@.take(i as int),
                    *apps,
                    moves_scratchpad,
                ),
            decreases specs.len() - i,
        {
            let spec = &specs[i];
            assert(specs@.take(i + 1).drop_last() =~= specs@.take(i as int));
            let arg: Option<&str> = match &spec.arg {
                Some(a) => Some(a.as_str()),
                None => None,
            };
            assert(arg_view(arg) == bind_arg(*spec));
            match action_for(spec.action.as_str(), arg, apps, &mut toggle_scratchpad) {
                Some(handler) => {
                    raw_bindings.insert(spec.key.clone(), handler);
                },
                None => {},
            }
            i = i + 1;
        }
        assert(specs@.take(specs.len() as int) =~= specs@);
    }
    let ghost overlaid = raw_bindings@;
    let mut n: usize = 0;
    while n < 9
        invariant
            n <= 9,
            raw_bindings@ == with_workspace_keys(overlaid, n as nat),
        decreases 9 - n,
    {
        let tag: &str = WORKSPACES[n];
        raw_bindings.insert(
            String::from_str("M-").concat(tag),
            Action::FocusTag(String::from_str(tag)),
        );
        raw_bindings.insert(
            String::from_str("M-S-").concat(tag),
            Action::MoveFocusedToTag(String::from_str(tag)),
        );
        n = n + 1;
    }
    raw_bindings
}


/// The built-in keymap, key by key: window navigation on `M-j`/`M-k` (and
/// swapping with `M-S-j`/`M-S-k`), the configured terminal, launcher and
/// locker on `M-Return`, `M-d` and `M-t`, the volume keys, and the
/// scratchpad toggle on `M-s` when it is not claimed elsewhere.
pub proof fn lemma_default_keymap_keys(with_scratchpad: bool, apps: Apps)
    ensures
        default_keymap(with_scratchpad, apps).contains_key("M-j"@),
        default_keymap(with_scratchpad, apps)["M-j"@] == ActionView::FocusDown,
        default_keymap(with_scratchpad, apps).contains_key("M-k"@),
        default_keymap(with_scratchpad, apps)["M-k"@] == ActionView::FocusUp,
        default_keymap(with_scratchpad, apps).contains_key("M-S-j"@),
        default_keymap(with_scratchpad, apps)["M-S-j"@] == ActionView::SwapDown,
        default_keymap(with_scratchpad, apps).contains_key("M-S-k"@),
        default_keymap(with_scratchpad, apps)["M-S-k"@] == ActionView::SwapUp,
        default_keymap(with_scratchpad, apps).contains_key("M-q"@),
        default_keymap(with_scratchpad, apps)["M-q"@] == ActionView::KillFocused,
        default_keymap(with_scratchpad, apps).contains_key("M-S-f"@),
        default_keymap(with_scratchpad, apps)["M-S-f"@] == ActionView::ToggleFullscreen,
        default_keymap(with_scratchpad, apps).contains_key("M-Tab"@),
        default_keymap(with_scratchpad, apps)["M-Tab"@] == ActionView::ToggleTag,
        default_keymap(with_scratchpad, apps).contains_key("M-period"@),
        default_keymap(with_scratchpad, apps)["M-period"@] == ActionView::NextScreen,
        default_keymap(with_scratchpad, apps).contains_key("M-comma"@),
        default_keymap(with_scratchpad, apps)["M-comma"@] == ActionView::PreviousScreen,
        default_keymap(with_scratchpad, apps).contains_key("M-m"@),
        default_keymap(with_scratchpad, apps)["M-m"@] == ActionView::NextLayout,
        default_keymap(with_scratchpad, apps).contains_key("M-S-m"@),
        default_keymap(with_scratchpad, apps)["M-S-m"@] == ActionView::PreviousLayout,
        default_keymap(with_scratchpad, apps).contains_key("M-Up"@),
        default_keymap(with_scratchpad, apps)["M-Up"@] == ActionView::IncMain(1i8),
        default_keymap(with_scratchpad, apps).contains_key("M-Down"@),
        default_keymap(with_scratchpad, apps)["M-Down"@] == ActionView::IncMain(-1i8),
        default_keymap(with_scratchpad, apps).contains_key("M-Right"@),
        default_keymap(with_scratchpad, apps)["M-Right"@] == ActionView::ExpandMain,
        default_keymap(with_scratchpad, apps).contains_key("M-Left"@),
        default_keymap(with_scratchpad, apps)["M-Left"@] == ActionView::ShrinkMain,
        default_keymap(with_scratchpad, apps).contains_key("M-Return"@),
        default_keymap(with_scratchpad, apps)["M-Return"@] == ActionView::Spawn(apps.terminal@),
        default_keymap(with_scratchpad, apps).contains_key("M-d"@),
        default_keymap(with_scratchpad, apps)["M-d"@] == ActionView::Spawn(apps.launcher@),
        default_keymap(with_scratchpad, apps).contains_key("M-t"@),
        default_keymap(with_scratchpad, apps)["M-t"@] == ActionView::Spawn(apps.locker@),
        default_keymap(with_scratchpad, apps).contains_key("M-x"@),
        default_keymap(with_scratchpad, apps)["M-x"@] == ActionView::LogoutMenu,
        default_keymap(with_scratchpad, apps).contains_key("M-S-s"@),
        default_keymap(with_scratchpad, apps)["M-S-s"@] == ActionView::LogState,
        default_keymap(with_scratchpad, apps).contains_key("M-S-q"@),
        default_keymap(with_scratchpad, apps)["M-S-q"@] == ActionView::Exit,
        default_keymap(with_scratchpad, apps).contains_key("M-S-r"@),
        default_keymap(with_scratchpad, apps)["M-S-r"@] == ActionView::Restart,
        default_keymap(with_scratchpad, apps).contains_key("XF86AudioRaiseVolume"@),
        default_keymap(with_scratchpad, apps)["XF86AudioRaiseVolume"@] == ActionView::Spawn("pactl set-sink-volume @DEFAULT_SINK@ +5%"@),
        default_keymap(with_scratchpad, apps).contains_key("XF86AudioLowerVolume"@),
        default_keymap(with_scratchpad, apps)["XF86AudioLowerVolume"@] == ActionView::Spawn("pactl set-sink-volume @DEFAULT_SINK@ -5%"@),
        default_keymap(with_scratchpad, apps).contains_key("XF86AudioMute"@),
        default_keymap(with_scratchpad, apps)["XF86AudioMute"@] == ActionView::Spawn("pactl set-sink-mute @DEFAULT_SINK@ toggle"@),
        with_scratchpad ==> default_keymap(with_scratchpad, apps).contains_key("M-s"@)
            && default_keymap(with_scratchpad, apps)["M-s"@] == ActionView::ToggleScratchpad,
        !with_scratchpad ==> !default_keymap(with_scratchpad, apps).contains_key("M-s"@),
        !with_scratchpad ==> default_keymap(with_scratchpad, apps).dom() == set![
            "M-j"@,
            "M-k"@,
            "M-S-j"@,
            "M-S-k"@,
            "M-q"@,
            "M-S-f"@,
            "M-Tab"@,
            "M-period"@,
            "M-comma"@,
            "M-m"@,
            "M-S-m"@,
            "M-Up"@,
            "M-Down"@,
            "M-Right"@,
            "M-Left"@,
            "M-Return"@,
            "M-d"@,
            "M-t"@,
            "M-x"@,
            "M-S-s"@,
            "M-S-q"@,
            "M-S-r"@,
            "XF86AudioRaiseVolume"@,
            "XF86AudioLowerVolume"@,
            "XF86AudioMute"@,
        ],
        with_scratchpad ==> default_keymap(with_scratchpad, apps).dom() == set![
            "M-j"@,
            "M-k"@,
            "M-S-j"@,
            "M-S-k"@,
            "M-q"@,
            "M-S-f"@,
            "M-Tab"@,
            "M-period"@,
            "M-comma"@,
            "M-m"@,
            "M-S-m"@,
            "M-Up"@,
            "M-Down"@,
            "M-Right"@,
            "M-Left"@,
            "M-Return"@,
            "M-d"@,
            "M-t"@,
            "M-x"@,
            "M-S-s"@,
            "M-S-q"@,
            "M-S-r"@,
            "XF86AudioRaiseVolume"@,
            "XF86AudioLowerVolume"@,
            "XF86AudioMute"@,
        ].insert("M-s"@),
{
    assert(default_keymap(false, apps).dom() =~= set![
            "M-j"@,
            "M-k"@,
            "M-S-j"@,
            "M-S-k"@,
            "M-q"@,
            "M-S-f"@,
            "M-Tab"@,
            "M-period"@,
            "M-comma"@,
            "M-m"@,
            "M-S-m"@,
            "M-Up"@,
            "M-Down"@,
            "M-Right"@,
            "M-Left"@,
            "M-Return"@,
            "M-d"@,
            "M-t"@,
            "M-x"@,
            "M-S-s"@,
            "M-S-q"@,
            "M-S-r"@,
            "XF86AudioRaiseVolume"@,
            "XF86AudioLowerVolume"@,
            "XF86AudioMute"@,
        ]);
    assert(default_keymap(true, apps).dom() =~= set![
            "M-j"@,
            "M-k"@,
            "M-S-j"@,
            "M-S-k"@,
            "M-q"@,
            "M-S-f"@,
            "M-Tab"@,
            "M-period"@,
            "M-comma"@,
            "M-m"@,
            "M-S-m"@,
            "M-Up"@,
            "M-Down"@,
            "M-Right"@,
            "M-Left"@,
            "M-Return"@,
            "M-d"@,
            "M-t"@,
            "M-x"@,
            "M-S-s"@,
            "M-S-q"@,
            "M-S-r"@,
            "XF86AudioRaiseVolume"@,
            "XF86AudioLowerVolume"@,
            "XF86AudioMute"@,
        ].insert("M-s"@));
    reveal_strlit("M-j");
    reveal_strlit("M-k");
    reveal_strlit("M-S-j");
    reveal_strlit("M-S-k");
    reveal_strlit("M-q");
    reveal_strlit("M-S-f");
    reveal_strlit("M-Tab");
    reveal_strlit("M-period");
    reveal_strlit("M-comma");
    reveal_strlit("M-m");
    reveal_strlit("M-S-m");
    reveal_strlit("M-Up");
    reveal_strlit("M-Down");
    reveal_strlit("M-Right");
    reveal_strlit("M-Left");
    reveal_strlit("M-Return");
    reveal_strlit("M-d");
    reveal_strlit("M-t");
    reveal_strlit("M-x");
    reveal_strlit("M-S-s");
    reveal_strlit("M-S-q");
    reveal_strlit("M-S-r");
    reveal_strlit("XF86AudioRaiseVolume");
    reveal_strlit("XF86AudioLowerVolume");
    reveal_strlit("XF86AudioMute");
    reveal_strlit("M-s");
    assert("M-j"@.len() == 3);
    assert("M-k"@.len() == 3);
    assert("M-S-j"@.len() == 5);
    assert("M-S-k"@.len() == 5);
    assert("M-q"@.len() == 3);
    assert("M-S-f"@.len() == 5);
    assert("M-Tab"@.len() == 5);
    assert("M-period"@.len() == 8);
    assert("M-comma"@.len() == 7);
    assert("M-m"@.len() == 3);
    assert("M-S-m"@.len() == 5);
    assert("M-Up"@.len() == 4);
    assert("M-Down"@.len() == 6);
    assert("M-Right"@.len() == 7);
    assert("M-Left"@.len() == 6);
    assert("M-Return"@.len() == 8);
    assert("M-d"@.len() == 3);
    assert("M-t"@.len() == 3);
    assert("M-x"@.len() == 3);
    assert("M-S-s"@.len() == 5);
    assert("M-S-q"@.len() == 5);
    assert("M-S-r"@.len() == 5);
    assert("XF86AudioRaiseVolume"@.len() == 20);
    assert("XF86AudioLowerVolume"@.len() == 20);
    assert("XF86AudioMute"@.len() == 13);
    assert("M-s"@.len() == 3);
    assert("M-j"@[2] != "M-k"@[2]);
    assert("M-j"@[2] != "M-q"@[2]);
    assert("M-j"@[2] != "M-m"@[2]);
    assert("M-j"@[2] != "M-d"@[2]);
    assert("M-j"@[2] != "M-t"@[2]);
    assert("M-j"@[2] != "M-x"@[2]);
    assert("M-j"@[2] != "M-s"@[2]);
    assert("M-k"@[2] != "M-q"@[2]);
    assert("M-k"@[2] != "M-m"@[2]);
    assert("M-k"@[2] != "M-d"@[2]);
    assert("M-k"@[2] != "M-t"@[2]);
    assert("M-k"@[2] != "M-x"@[2]);
    assert("M-k"@[2] != "M-s"@[2]);
    assert("M-S-j"@[4] != "M-S-k"@[4]);
    assert("M-S-j"@[4] != "M-S-f"@[4]);
    assert("M-S-j"@[2] != "M-Tab"@[2]);
    assert("M-S-j"@[4] != "M-S-m"@[4]);
    assert("M-S-j"@[4] != "M-S-s"@[4]);
    assert("M-S-j"@[4] != "M-S-q"@[4]);
    assert("M-S-j"@[4] != "M-S-r"@[4]);
    assert("M-S-k"@[4] != "M-S-f"@[4]);
    assert("M-S-k"@[2] != "M-Tab"@[2]);
    assert("M-S-k"@[4] != "M-S-m"@[4]);
    assert("M-S-k"@[4] != "M-S-s"@[4]);
    assert("M-S-k"@[4] != "M-S-q"@[4]);
    assert("M-S-k"@[4] != "M-S-r"@[4]);
    assert("M-q"@[2] != "M-m"@[2]);
    assert("M-q"@[2] != "M-d"@[2]);
    assert("M-q"@[2] != "M-t"@[2]);
    assert("M-q"@[2] != "M-x"@[2]);
    assert("M-q"@[2] != "M-s"@[2]);
    assert("M-S-f"@[2] != "M-Tab"@[2]);
    assert("M-S-f"@[4] != "M-S-m"@[4]);
    assert("M-S-f"@[4] != "M-S-s"@[4]);
    assert("M-S-f"@[4] != "M-S-q"@[4]);
    assert("M-S-f"@[4] != "M-S-r"@[4]);
    assert("M-Tab"@[2] != "M-S-m"@[2]);
    assert("M-Tab"@[2] != "M-S-s"@[2]);
    assert("M-Tab"@[2] != "M-S-q"@[2]);
    assert("M-Tab"@[2] != "M-S-r"@[2]);
    assert("M-period"@[2] != "M-Return"@[2]);
    assert("M-comma"@[2] != "M-Right"@[2]);
    assert("M-m"@[2] != "M-d"@[2]);
    assert("M-m"@[2] != "M-t"@[2]);
    assert("M-m"@[2] != "M-x"@[2]);
    assert("M-m"@[2] != "M-s"@[2]);
    assert("M-S-m"@[4] != "M-S-s"@[4]);
    assert("M-S-m"@[4] != "M-S-q"@[4]);
    assert("M-S-m"@[4] != "M-S-r"@[4]);
    assert("M-Down"@[2] != "M-Left"@[2]);
    assert("M-d"@[2] != "M-t"@[2]);
    assert("M-d"@[2] != "M-x"@[2]);
    assert("M-d"@[2] != "M-s"@[2]);
    assert("M-t"@[2] != "M-x"@[2]);
    assert("M-t"@[2] != "M-s"@[2]);
    assert("M-x"@[2] != "M-s"@[2]);
    assert("M-S-s"@[4] != "M-S-q"@[4]);
    assert("M-S-s"@[4] != "M-S-r"@[4]);
    assert("M-S-q"@[4] != "M-S-r"@[4]);
    assert("XF86AudioRaiseVolume"@[9] != "XF86AudioLowerVolume"@[9]);
}

/// Each action name of a `[[bind]]` entry binds its action: `swap_up` swaps
/// the focused window up, `spawn_terminal` runs the configured terminal, and
/// so on.
pub proof fn lemma_action_names(arg: Option<Seq<char>>, apps: Apps, free: bool)
    ensures
        named_action("toggle_scratchpad"@, arg, apps, free) == (if free {
            Some(ActionView::ToggleScratchpad)
        } else {
            None
        }),
        named_action("focus_down"@, arg, apps, free) == Some(ActionView::FocusDown),
        named_action("focus_up"@, arg, apps, free) == Some(ActionView::FocusUp),
        named_action("swap_down"@, arg, apps, free) == Some(ActionView::SwapDown),
        named_action("swap_up"@, arg, apps, free) == Some(ActionView::SwapUp),
        named_action("kill_focused"@, arg, apps, free) == Some(ActionView::KillFocused),
        named_action("toggle_fullscreen"@, arg, apps, free) == Some(ActionView::ToggleFullscreen),
        named_action("toggle_tag"@, arg, apps, free) == Some(ActionView::ToggleTag),
        named_action("next_screen"@, arg, apps, free) == Some(ActionView::NextScreen),
        named_action("previous_screen"@, arg, apps, free) == Some(ActionView::PreviousScreen),
        named_action("next_layout"@, arg, apps, free) == Some(ActionView::NextLayout),
        named_action("previous_layout"@, arg, apps, free) == Some(ActionView::PreviousLayout),
        named_action("expand_main"@, arg, apps, free) == Some(ActionView::ExpandMain),
        named_action("shrink_main"@, arg, apps, free) == Some(ActionView::ShrinkMain),
        named_action("inc_main"@, arg, apps, free) == Some(ActionView::IncMain(inc_main_amount(arg))),
        named_action("spawn_terminal"@, arg, apps, free) == Some(ActionView::Spawn(apps.terminal@)),
        named_action("spawn_launcher"@, arg, apps, free) == Some(ActionView::Spawn(apps.launcher@)),
        named_action("spawn_locker"@, arg, apps, free) == Some(ActionView::Spawn(apps.locker@)),
        named_action("spawn"@, arg, apps, free) == (match arg {
            Some(a) => Some(ActionView::Spawn(a)),
            None => None,
        }),
        named_action("logout_menu"@, arg, apps, free) == Some(ActionView::LogoutMenu),
        named_action("log_state"@, arg, apps, free) == Some(ActionView::LogState),
        named_action("exit"@, arg, apps, free) == Some(ActionView::Exit),
        named_action("restart"@, arg, apps, free) == Some(ActionView::Restart),
        inc_main_amount(None) == 1,
{
    reveal_strlit("toggle_scratchpad");
    reveal_strlit("focus_down");
    reveal_strlit("focus_up");
    reveal_strlit("swap_down");
    reveal_strlit("swap_up");
    reveal_strlit("kill_focused");
    reveal_strlit("toggle_fullscreen");
    reveal_strlit("toggle_tag");
    reveal_strlit("next_screen");
    reveal_strlit("previous_screen");
    reveal_strlit("next_layout");
    reveal_strlit("previous_layout");
    reveal_strlit("expand_main");
    reveal_strlit("shrink_main");
    reveal_strlit("inc_main");
    reveal_strlit("spawn_terminal");
    reveal_strlit("spawn_launcher");
    reveal_strlit("spawn_locker");
    reveal_strlit("spawn");
    reveal_strlit("logout_menu");
    reveal_strlit("log_state");
    reveal_strlit("exit");
    reveal_strlit("restart");
    assert("toggle_scratchpad"@.len() == 17);
    assert("focus_down"@.len() == 10);
    assert("focus_up"@.len() == 8);
    assert("swap_down"@.len() == 9);
    assert("swap_up"@.len() == 7);
    assert("kill_focused"@.len() == 12);
    assert("toggle_fullscreen"@.len() == 17);
    assert("toggle_tag"@.len() == 10);
    assert("next_screen"@.len() == 11);
    assert("previous_screen"@.len() == 15);
    assert("next_layout"@.len() == 11);
    assert("previous_layout"@.len() == 15);
    assert("expand_main"@.len() == 11);
    assert("shrink_main"@.len() == 11);
    assert("inc_main"@.len() == 8);
    assert("spawn_terminal"@.len() == 14);
    assert("spawn_launcher"@.len() == 14);
    assert("spawn_locker"@.len() == 12);
    assert("spawn"@.len() == 5);
    assert("logout_menu"@.len() == 11);
    assert("log_state"@.len() == 9);
    assert("exit"@.len() == 4);
    assert("restart"@.len() == 7);
    assert("toggle_scratchpad"@[7] != "toggle_fullscreen"@[7]);
    assert("focus_down"@[0] != "toggle_tag"@[0]);
    assert("focus_up"@[0] != "inc_main"@[0]);
    assert("swap_down"@[0] != "log_state"@[0]);
    assert("swap_up"@[0] != "restart"@[0]);
    assert("kill_focused"@[0] != "spawn_locker"@[0]);
    assert("next_screen"@[5] != "next_layout"@[5]);
    assert("next_screen"@[0] != "expand_main"@[0]);
    assert("next_screen"@[0] != "shrink_main"@[0]);
    assert("next_screen"@[0] != "logout_menu"@[0]);
    assert("previous_screen"@[9] != "previous_layout"@[9]);
    assert("next_layout"@[0] != "expand_main"@[0]);
    assert("next_layout"@[0] != "shrink_main"@[0]);
    assert("next_layout"@[0] != "logout_menu"@[0]);
    assert("expand_main"@[0] != "shrink_main"@[0]);
    assert("expand_main"@[0] != "logout_menu"@[0]);
    assert("shrink_main"@[0] != "logout_menu"@[0]);
    assert("spawn_terminal"@[6] != "spawn_launcher"@[6]);
}

/// The action names mirror the built-in keymap: the name of each default
/// key's action binds exactly what that key does by default.
pub proof fn lemma_action_names_mirror_defaults(apps: Apps)
    ensures
        named_action("focus_down"@, None, apps, true) == Some(default_keymap(true, apps)["M-j"@]),
        named_action("focus_up"@, None, apps, true) == Some(default_keymap(true, apps)["M-k"@]),
        named_action("swap_down"@, None, apps, true) == Some(default_keymap(true, apps)["M-S-j"@]),
        named_action("swap_up"@, None, apps, true) == Some(default_keymap(true, apps)["M-S-k"@]),
        named_action("kill_focused"@, None, apps, true) == Some(default_keymap(true, apps)["M-q"@]),
        named_action("toggle_fullscreen"@, None, apps, true) == Some(default_keymap(true, apps)["M-S-f"@]),
        named_action("toggle_tag"@, None, apps, true) == Some(default_keymap(true, apps)["M-Tab"@]),
        named_action("next_screen"@, None, apps, true) == Some(default_keymap(true, apps)["M-period"@]),
        named_action("previous_screen"@, None, apps, true) == Some(default_keymap(true, apps)["M-comma"@]),
        named_action("next_layout"@, None, apps, true) == Some(default_keymap(true, apps)["M-m"@]),
        named_action("previous_layout"@, None, apps, true) == Some(default_keymap(true, apps)["M-S-m"@]),
        named_action("expand_main"@, None, apps, true) == Some(default_keymap(true, apps)["M-Right"@]),
        named_action("shrink_main"@, None, apps, true) == Some(default_keymap(true, apps)["M-Left"@]),
        named_action("spawn_terminal"@, None, apps, true) == Some(default_keymap(true, apps)["M-Return"@]),
        named_action("spawn_launcher"@, None, apps, true) == Some(default_keymap(true, apps)["M-d"@]),
        named_action("spawn_locker"@, None, apps, true) == Some(default_keymap(true, apps)["M-t"@]),
        named_action("logout_menu"@, None, apps, true) == Some(default_keymap(true, apps)["M-x"@]),
        named_action("log_state"@, None, apps, true) == Some(default_keymap(true, apps)["M-S-s"@]),
        named_action("exit"@, None, apps, true) == Some(default_keymap(true, apps)["M-S-q"@]),
        named_action("restart"@, None, apps, true) == Some(default_keymap(true, apps)["M-S-r"@]),
        named_action("inc_main"@, None, apps, true) == Some(default_keymap(true, apps)["M-Up"@]),
        named_action("toggle_scratchpad"@, None, apps, true) == Some(default_keymap(true, apps)["M-s"@]),
{
    lemma_default_keymap_keys(true, apps);
    lemma_action_names(None, apps, true);
}

/// Whether the `[[bind]]` entry at `j` is skipped when the keymap is built:
/// its action is unknown, `spawn` lacks an argument, or it names the
/// scratchpad toggle after the toggle was taken.
pub open spec fn bind_skipped(apps: Apps, binds: Seq<BindSpec>, j: int) -> bool {
    let free = overlay_binds(Map::empty(), binds.take(j), apps, claims_scratchpad(binds)).1;
    named_action(binds[j].action@, bind_arg(binds[j]), apps, free) is None
}

/// The positions, in increasing order, of the `[[bind]]` entries that
/// building the keymap skips.
pub fn skipped_binds(apps: &Apps, binds: &[BindSpec]) -> (r: Vec<usize>)
    ensures
        forall|i: int|
            0 <= i < r@.len() ==> r@[i] < binds@.len() && bind_skipped(*apps, binds@, r@[i] as int),
        forall|j: int|
            0 <= j < binds@.len() && bind_skipped(*apps, binds@, j) ==> r@.contains(j as usize),
        forall|i: int, k: int| 0 <= i < k < r@.len() ==> r@[i] < r@[k],
{
    let moves = any_claims_scratchpad(binds);
    let mut free = moves;
    let mut r: Vec<usize> = Vec::new();
    let mut j: usize = 0;
    assert(binds@.take(0) =~= Seq::<BindSpec>::empty());
    while j < binds.len()
        invariant
            j <= binds.len(),
            moves == claims_scratchpad(binds@),
            free == overlay_binds(Map::empty(), binds@.take(j as int), *apps, moves).1,
            forall|i: int|
                0 <= i < r@.len() ==> r@[i] < j && bind_skipped(*apps, binds@, r@[i] as int),
            forall|l: int| 0 <= l < j && bind_skipped(*apps, binds@, l) ==> r@.contains(l as usize),
            forall|i: int, k: int| 0 <= i < k < r@.len() ==> r@[i] < r@[k],
        decreases binds.len() - j,
    {
        let spec = &binds[j];
        assert(binds@.take(j + 1).drop_last() =~= binds@.take(j as int));
        assert(binds@.take(j + 1).last() == *spec);
        let arg: Option<&str> = match &spec.arg {
            Some(a) => Some(a.as_str()),
            None => None,
        };
        assert(arg_view(arg) == bind_arg(*spec));
        let ghost before = r@;
        match action_for(spec.action.as_str(), arg, apps, &mut free) {
            Some(_) => {},
            None => {
                r.push(j);
                assert forall|l: int|
                    0 <= l < j + 1 && bind_skipped(*apps, binds@, l) implies r@.contains(
                    l as usize,
                ) by {
                    if l < j {
                        let k = choose|k: int| 0 <= k < before.len() && before[k] == l as usize;
                        assert(r@[k] == l as usize);
                    } else {
                        assert(r@[r@.len() - 1] == j);
                    }
                }
            },
        }
        j = j + 1;
    }
    r
}

/// The workspace keys are all different from each other.
proof fn lemma_workspace_keys_distinct(i: int, j: int)
    requires
        0 <= i < 9,
        0 <= j < 9,
    ensures
        focus_key(i) != move_key(j),
        i != j ==> focus_key(i) != focus_key(j),
        i != j ==> move_key(i) != move_key(j),
{
    reveal_strlit("M-");
    reveal_strlit("M-S-");
    reveal_strlit("1");
    reveal_strlit("2");
    reveal_strlit("3");
    reveal_strlit("4");
    reveal_strlit("5");
    reveal_strlit("6");
    reveal_strlit("7");
    reveal_strlit("8");
    reveal_strlit("9");
    assert(focus_key(i).len() == 3);
    assert(move_key(j).len() == 5);
    if i != j {
        assert(focus_key(i)[2] != focus_key(j)[2]);
        assert(move_key(i)[4] != move_key(j)[4]);
    }
}

/// Whether `k` is one of the workspace keys.
pub open spec fn is_workspace_key(k: Seq<char>) -> bool {
    exists|i: int| 0 <= i < 9 && (k == focus_key(i) || k == move_key(i))
}

/// Adding the workspace bindings leaves every other key as it was, and binds
/// each workspace key to its workspace.
proof fn lemma_with_workspace_keys(m: Map<Seq<char>, ActionView>, n: nat, k: Seq<char>)
    requires
        n <= 9,
    ensures
        (forall|i: int| 0 <= i < n ==> k != focus_key(i) && k != move_key(i)) ==> (with_workspace_keys(
            m,
            n,
        ).contains_key(k) == m.contains_key(k) && (m.contains_key(k) ==> with_workspace_keys(m, n)[k]
            == m[k])),
        forall|i: int|
            0 <= i < n ==> {
                &&& with_workspace_keys(m, n).contains_key(focus_key(i))
                &&& with_workspace_keys(m, n)[focus_key(i)] == ActionView::FocusTag(WORKSPACES[i]@)
                &&& with_workspace_keys(m, n).contains_key(move_key(i))
                &&& with_workspace_keys(m, n)[move_key(i)] == ActionView::MoveFocusedToTag(
                    WORKSPACES[i]@,
                )
            },
    decreases n,
{
    if n > 0 {
        lemma_with_workspace_keys(m, (n - 1) as nat, k);
        let last = n - 1;
        assert forall|i: int| 0 <= i < n - 1 implies {
            &&& focus_key(i) != focus_key(last)
            &&& focus_key(i) != move_key(last)
            &&& move_key(i) != focus_key(last)
            &&& move_key(i) != move_key(last)
        } by {
            lemma_workspace_keys_distinct(i, last);
            lemma_workspace_keys_distinct(last, i);
        }
        lemma_workspace_keys_distinct(last, last);
        assert forall|i: int| 0 <= i < n - 1 implies {
            &&& with_workspace_keys(m, (n - 1) as nat).contains_key(focus_key(i))
            &&& with_workspace_keys(m, (n - 1) as nat)[focus_key(i)] == ActionView::FocusTag(
                WORKSPACES[i]@,
            )
        } by {
            lemma_with_workspace_keys(m, (n - 1) as nat, focus_key(i));
        }
        assert forall|i: int| 0 <= i < n - 1 implies {
            &&& with_workspace_keys(m, (n - 1) as nat).contains_key(move_key(i))
            &&& with_workspace_keys(m, (n - 1) as nat)[move_key(i)]
                == ActionView::MoveFocusedToTag(WORKSPACES[i]@)
        } by {
            lemma_with_workspace_keys(m, (n - 1) as nat, move_key(i));
        }
    }
}

/// The per-workspace bindings are always there: whatever `config.toml`
/// binds, `M-<tag>` focuses workspace `<tag>` and `M-S-<tag>` moves the
/// focused window to it, for every workspace.
pub proof fn lemma_workspace_bindings_always_present(apps: Apps, binds: Seq<BindSpec>, i: int)
    requires
        0 <= i < 9,
    ensures
        keymap(apps, binds).contains_key(focus_key(i)),
        keymap(apps, binds)[focus_key(i)] == ActionView::FocusTag(WORKSPACES[i]@),
        keymap(apps, binds).contains_key(move_key(i)),
        keymap(apps, binds)[move_key(i)] == ActionView::MoveFocusedToTag(WORKSPACES[i]@),
{
    let moves = claims_scratchpad(binds);
    let overlaid = overlay_binds(default_keymap(!moves, apps), binds, apps, moves).0;
    lemma_with_workspace_keys(overlaid, 9, focus_key(i));
}

/// Without any `[[bind]]` entry the keymap is the built-in one, scratchpad
/// toggle included, with the workspace bindings on top.
pub proof fn lemma_no_binds_gives_defaults(apps: Apps)
    ensures
        keymap(apps, seq![]) == with_workspace_keys(default_keymap(true, apps), 9),
{
}

/// For a name other than `toggle_scratchpad`, what the name binds does not
/// depend on whether the scratchpad toggle is still free.
proof fn lemma_named_action_ignores_scratchpad(
    name: Seq<char>,
    arg: Option<Seq<char>>,
    apps: Apps,
    f1: bool,
    f2: bool,
)
    requires
        name != "toggle_scratchpad"@,
    ensures
        named_action(name, arg, apps, f1) == named_action(name, arg, apps, f2),
{
}

/// An entry whose action is not recognized: an unknown name, or `spawn`
/// without an argument.
pub open spec fn ignored_bind(b: BindSpec, apps: Apps) -> bool {
    b.action@ != "toggle_scratchpad"@ && named_action(b.action@, bind_arg(b), apps, true) is None
}

/// Overlaying entries that name `k` only with unrecognized actions leaves
/// `k` as it was.
proof fn lemma_overlay_untouched(
    base: Map<Seq<char>, ActionView>,
    binds: Seq<BindSpec>,
    apps: Apps,
    free: bool,
    k: Seq<char>,
)
    requires
        forall|j: int| 0 <= j < binds.len() && binds[j].key@ == k ==> ignored_bind(binds[j], apps),
    ensures
        overlay_binds(base, binds, apps, free).0.contains_key(k) == base.contains_key(k),
        base.contains_key(k) ==> overlay_binds(base, binds, apps, free).0[k] == base[k],
    decreases binds.len(),
{
    if binds.len() > 0 {
        lemma_overlay_untouched(base, binds.drop_last(), apps, free, k);
        let prev = overlay_binds(base, binds.drop_last(), apps, free);
        if binds.last().key@ == k {
            assert(ignored_bind(binds[binds.len() - 1], apps));
            lemma_named_action_ignores_scratchpad(
                binds.last().action@,
                bind_arg(binds.last()),
                apps,
                true,
                prev.1,
            );
        }
    }
}

/// A key that no `[[bind]]` entry names with a recognized action, and that
/// is no workspace key, keeps its built-in binding (or stays unbound):
/// overlaying replaces only the keys that the entries bind, and an entry
/// with an unknown action is skipped.
pub proof fn lemma_unbound_keys_keep_defaults(apps: Apps, binds: Seq<BindSpec>, k: Seq<char>)
    requires
        forall|j: int| 0 <= j < binds.len() && binds[j].key@ == k ==> ignored_bind(binds[j], apps),
        !is_workspace_key(k),
    ensures
        keymap(apps, binds).contains_key(k) == default_keymap(!claims_scratchpad(binds), apps).contains_key(
            k,
        ),
        default_keymap(!claims_scratchpad(binds), apps).contains_key(k) ==> keymap(apps, binds)[k]
            == default_keymap(!claims_scratchpad(binds), apps)[k],
{
    let moves = claims_scratchpad(binds);
    let base = default_keymap(!moves, apps);
    lemma_overlay_untouched(base, binds, apps, moves, k);
    let overlaid = overlay_binds(base, binds, apps, moves).0;
    assert forall|i: int| 0 <= i < 9 implies k != focus_key(i) && k != move_key(i) by {
        if k == focus_key(i) || k == move_key(i) {
            assert(is_workspace_key(k));
        }
    }
    lemma_with_workspace_keys(overlaid, 9, k);
}

/// After the entry at `j`, which binds `k` to `a`, later entries that do not
/// name `k` leave that binding in place.
proof fn lemma_overlay_last_wins(
    base: Map<Seq<char>, ActionView>,
    binds: Seq<BindSpec>,
    apps: Apps,
    free: bool,
    j: int,
    n: int,
    a: ActionView,
)
    requires
        0 <= j < n <= binds.len(),
        forall|l: int| j < l < binds.len() ==> binds[l].key@ != binds[j].key@,
        binds[j].action@ != "toggle_scratchpad"@,
        named_action(binds[j].action@, bind_arg(binds[j]), apps, true) == Some(a),
    ensures
        overlay_binds(base, binds.take(n), apps, free).0.contains_key(binds[j].key@),
        overlay_binds(base, binds.take(n), apps, free).0[binds[j].key@] == a,
    decreases n,
{
    let t = binds.take(n);
    assert(t.drop_last() =~= binds.take(n - 1));
    assert(t.last() == binds[n - 1]);
    if n - 1 == j {
        let prev = overlay_binds(base, binds.take(j), apps, free);
        lemma_named_action_ignores_scratchpad(
            binds[j].action@,
            bind_arg(binds[j]),
            apps,
            true,
            prev.1,
        );
    } else {
        lemma_overlay_last_wins(base, binds, apps, free, j, n - 1, a);
    }
}

/// A `[[bind]]` entry whose action is recognized (other than the scratchpad
/// toggle, which can be taken only once) decides what its key does, unless a
/// later entry names the same key or the key is a workspace key.
pub proof fn lemma_bind_replaces_key(apps: Apps, binds: Seq<BindSpec>, j: int, a: ActionView)
    requires
        0 <= j < binds.len(),
        forall|l: int| j < l < binds.len() ==> binds[l].key@ != binds[j].key@,
        binds[j].action@ != "toggle_scratchpad"@,
        named_action(binds[j].action@, bind_arg(binds[j]), apps, true) == Some(a),
        !is_workspace_key(binds[j].key@),
    ensures
        keymap(apps, binds).contains_key(binds[j].key@),
        keymap(apps, binds)[binds[j].key@] == a,
{
    let k = binds[j].key@;
    let moves = claims_scratchpad(binds);
    let base = default_keymap(!moves, apps);
    lemma_overlay_last_wins(base, binds, apps, moves, j, binds.len() as int, a);
    assert(binds.take(binds.len() as int) =~= binds);
    let overlaid = overlay_binds(base, binds, apps, moves).0;
    assert forall|i: int| 0 <= i < 9 implies k != focus_key(i) && k != move_key(i) by {
        if k == focus_key(i) || k == move_key(i) {
            assert(is_workspace_key(k));
        }
    }
    lemma_with_workspace_keys(overlaid, 9, k);
}


/// No two keys of `m` toggle the scratchpad.
pub open spec fn scratchpad_bound_at_most_once(m: Map<Seq<char>, ActionView>) -> bool {
    forall|k1: Seq<char>, k2: Seq<char>|
        #![trigger m[k1], m[k2]]
        m.contains_key(k1) && m.contains_key(k2) && m[k1] == ActionView::ToggleScratchpad
            && m[k2] == ActionView::ToggleScratchpad ==> k1 == k2
}

/// No key of `m` toggles the scratchpad.
pub open spec fn scratchpad_unbound(m: Map<Seq<char>, ActionView>) -> bool {
    forall|k: Seq<char>| m.contains_key(k) ==> m[k] != ActionView::ToggleScratchpad
}

/// The built-in keymap binds the scratchpad toggle to `M-s` only, and not at
/// all without it.
proof fn lemma_default_keymap_scratchpad(apps: Apps)
    ensures
        scratchpad_unbound(default_keymap(false, apps)),
        scratchpad_bound_at_most_once(default_keymap(true, apps)),
{
    let m = default_keymap(false, apps);
    assert forall|k: Seq<char>| m.contains_key(k) implies m[k] != ActionView::ToggleScratchpad by {
    }
    let t = default_keymap(true, apps);
    assert forall|k1: Seq<char>, k2: Seq<char>|
        t.contains_key(k1) && t.contains_key(k2) && t[k1] == ActionView::ToggleScratchpad
            && t[k2] == ActionView::ToggleScratchpad implies k1 == k2 by {
        if k1 != "M-s"@ {
            assert(m.contains_key(k1) && m[k1] == t[k1]);
        }
        if k2 != "M-s"@ {
            assert(m.contains_key(k2) && m[k2] == t[k2]);
        }
    }
}

/// While the toggle is free no key holds it, and at no time do two keys.
proof fn lemma_overlay_scratchpad(
    base: Map<Seq<char>, ActionView>,
    binds: Seq<BindSpec>,
    apps: Apps,
    free: bool,
)
    requires
        scratchpad_bound_at_most_once(base),
        free ==> scratchpad_unbound(base),
    ensures
        scratchpad_bound_at_most_once(overlay_binds(base, binds, apps, free).0),
        overlay_binds(base, binds, apps, free).1 ==> scratchpad_unbound(
            overlay_binds(base, binds, apps, free).0,
        ),
    decreases binds.len(),
{
    if binds.len() > 0 {
        lemma_overlay_scratchpad(base, binds.drop_last(), apps, free);
        let prev = overlay_binds(base, binds.drop_last(), apps, free);
        let b = binds.last();
        let m = prev.0;
        match named_action(b.action@, bind_arg(b), apps, prev.1) {
            Some(a) => {
                let m2 = m.insert(b.key@, a);
                if a == ActionView::ToggleScratchpad {
                    assert(b.action@ == "toggle_scratchpad"@ && prev.1);
                    assert forall|k1: Seq<char>, k2: Seq<char>|
                        m2.contains_key(k1) && m2.contains_key(k2) && m2[k1]
                            == ActionView::ToggleScratchpad && m2[k2]
                            == ActionView::ToggleScratchpad implies k1 == k2 by {
                        if k1 != b.key@ {
                            assert(m.contains_key(k1) && m[k1] == m2[k1]);
                        }
                        if k2 != b.key@ {
                            assert(m.contains_key(k2) && m[k2] == m2[k2]);
                        }
                    }
                } else {
                    assert forall|k1: Seq<char>, k2: Seq<char>|
                        m2.contains_key(k1) && m2.contains_key(k2) && m2[k1]
                            == ActionView::ToggleScratchpad && m2[k2]
                            == ActionView::ToggleScratchpad implies k1 == k2 by {
                        assert(m[k1] == m2[k1] && m[k2] == m2[k2]);
                    }
                    assert forall|k: Seq<char>|
                        bind_step(prev, b, apps).1 && m2.contains_key(k) implies m2[k]
                        != ActionView::ToggleScratchpad by {
                        if k != b.key@ {
                            assert(m[k] == m2[k]);
                        }
                    }
                }
            },
            None => {},
        }
    }
}

/// Adding the workspace bindings binds nothing new to the scratchpad toggle.
proof fn lemma_workspace_keys_scratchpad(m: Map<Seq<char>, ActionView>, n: nat)
    requires
        scratchpad_bound_at_most_once(m),
    ensures
        scratchpad_bound_at_most_once(with_workspace_keys(m, n)),
    decreases n,
{
    if n > 0 {
        lemma_workspace_keys_scratchpad(m, (n - 1) as nat);
        let p = with_workspace_keys(m, (n - 1) as nat);
        let w = with_workspace_keys(m, n);
        assert forall|k1: Seq<char>, k2: Seq<char>|
            w.contains_key(k1) && w.contains_key(k2) && w[k1] == ActionView::ToggleScratchpad
                && w[k2] == ActionView::ToggleScratchpad implies k1 == k2 by {
            assert(p.contains_key(k1) && p[k1] == w[k1]);
            assert(p.contains_key(k2) && p[k2] == w[k2]);
        }
    }
}

/// The scratchpad toggle is bound to one key at most: `M-s` by default, or
/// the key of the first `[[bind]]` entry that names it.
pub proof fn lemma_scratchpad_bound_once(apps: Apps, binds: Seq<BindSpec>)
    ensures
        scratchpad_bound_at_most_once(keymap(apps, binds)),
{
    let moves = claims_scratchpad(binds);
    lemma_default_keymap_scratchpad(apps);
    let base = default_keymap(!moves, apps);
    assert(scratchpad_bound_at_most_once(base));
    lemma_overlay_scratchpad(base, binds, apps, moves);
    lemma_workspace_keys_scratchpad(overlay_binds(base, binds, apps, moves).0, 9);
}


/// The entries of the session menu.
pub const SUSPEND_CHOICE: &'static str = "󰒲  suspend";

pub const LOGOUT_CHOICE: &'static str = "󰍃  logout";

pub const REBOOT_CHOICE: &'static str = "󱞳  reboot";

pub const SHUTDOWN_CHOICE: &'static str = "󰤆  shutdown";

/// The session menu's entries, in the order they are offered.
pub open spec fn logout_menu_entries() -> Seq<Seq<char>> {
    seq![SUSPEND_CHOICE@, LOGOUT_CHOICE@, REBOOT_CHOICE@, SHUTDOWN_CHOICE@]
}

/// The entries the session menu offers.
pub fn logout_choices() -> (r: Vec<&'static str>)
    ensures
        r@.len() == 4,
        forall|i: int| 0 <= i < 4 ==> #[trigger] r@[i]@ == logout_menu_entries()[i],
{
    let r = vec![SUSPEND_CHOICE, LOGOUT_CHOICE, REBOOT_CHOICE, SHUTDOWN_CHOICE];
    assert forall|i: int| 0 <= i < 4 implies #[trigger] r@[i]@ == logout_menu_entries()[i] by {}
    r
}

/// The command that a session menu entry runs, if it is one of the entries.
pub open spec fn logout_command_spec(choice: Seq<char>) -> Option<Seq<char>> {
    if choice == SUSPEND_CHOICE@ {
        Some("loginctl suspend"@)
    } else if choice == LOGOUT_CHOICE@ {
        Some("kill -9 -1"@)
    } else if choice == SHUTDOWN_CHOICE@ {
        Some("loginctl poweroff"@)
    } else if choice == REBOOT_CHOICE@ {
        Some("loginctl reboot"@)
    } else {
        None
    }
}

/// The command to run for the session menu entry the user picked.
pub fn logout_command(choice: &str) -> (r: Option<&'static str>)
    ensures
        match r {
            Some(c) => logout_command_spec(choice@) == Some(c@),
            None => logout_command_spec(choice@) is None,
        },
{
    if crate::text::str_eq(choice, SUSPEND_CHOICE) {
        Some("loginctl suspend")
    } else if crate::text::str_eq(choice, LOGOUT_CHOICE) {
        Some("kill -9 -1")
    } else if crate::text::str_eq(choice, SHUTDOWN_CHOICE) {
        Some("loginctl poweroff")
    } else if crate::text::str_eq(choice, REBOOT_CHOICE) {
        Some("loginctl reboot")
    } else {
        None
    }
}

/// Every entry the session menu offers runs its own command: suspend,
/// logout, reboot and shut down, in that order.
pub proof fn lemma_logout_menu_complete()
    ensures
        logout_command_spec(logout_menu_entries()[0]) == Some("loginctl suspend"@),
        logout_command_spec(logout_menu_entries()[1]) == Some("kill -9 -1"@),
        logout_command_spec(logout_menu_entries()[2]) == Some("loginctl reboot"@),
        logout_command_spec(logout_menu_entries()[3]) == Some("loginctl poweroff"@),
{
    reveal_strlit("󰒲  suspend");
    reveal_strlit("󰍃  logout");
    reveal_strlit("󱞳  reboot");
    reveal_strlit("󰤆  shutdown");
    assert(SUSPEND_CHOICE@[0] != LOGOUT_CHOICE@[0]);
    assert(SUSPEND_CHOICE@[0] != REBOOT_CHOICE@[0]);
    assert(SUSPEND_CHOICE@[0] != SHUTDOWN_CHOICE@[0]);
    assert(LOGOUT_CHOICE@[0] != REBOOT_CHOICE@[0]);
    assert(LOGOUT_CHOICE@[0] != SHUTDOWN_CHOICE@[0]);
    assert(SHUTDOWN_CHOICE@[0] != REBOOT_CHOICE@[0]);
}

} // verus!
