//! GNOME system controls: session, power and settings-panel shortcuts.
use vstd::prelude::*;
use crate::plugins::{
    action_v, item_v, items_view, lemma_filter_map_step, lemma_take_all, lower_contains,
    one_action, ResultItem, ResultItemView,
};
use crate::settings::AppSettings;
use crate::text::{
    contains, has_prefix, has_substring, lit, lower_chars, same_chars, starts_with, str_lower,
    to_chars, trim, trim_str,
};

verus! {

struct GnomeAction {
    id: &'static str,
    title: &'static str,
    keywords: Vec<&'static str>,
    subtitle: &'static str,
    icon: &'static str,
    command: &'static str,
}

pub struct GnomeActionView {
    pub id: Seq<char>,
    pub title: Seq<char>,
    pub keywords: Seq<Seq<char>>,
    pub subtitle: Seq<char>,
    pub icon: Seq<char>,
    pub command: Seq<char>,
}

pub open spec fn gnome_v(
    id: Seq<char>,
    title: Seq<char>,
    keywords: Seq<Seq<char>>,
    subtitle: Seq<char>,
    icon: Seq<char>,
    command: Seq<char>,
) -> GnomeActionView {
    GnomeActionView { id, title, keywords, subtitle, icon, command }
}

impl View for GnomeAction {
    type V = GnomeActionView;

    closed spec fn view(&self) -> GnomeActionView {
        gnome_v(
            self.id@,
            self.title@,
            self.keywords@.map_values(|k: &str| k@),
            self.subtitle@,
            self.icon@,
            self.command@,
        )
    }
}

/// The system actions offered.
pub open spec fn gnome_table() -> Seq<GnomeActionView> {
    seq![
        gnome_v("gnome-lock-screen"@, "Lock Screen"@, seq!["lock"@, "screen"@, "saver"@, "suspend"@], "Lock the current desktop session"@, "system-lock-screen-symbolic"@, "dbus-send --type=method_call --dest=org.gnome.ScreenSaver /org/gnome/ScreenSaver org.gnome.ScreenSaver.Lock"@),
        gnome_v("gnome-logout"@, "Log Out"@, seq!["logout"@, "log out"@, "exit"@, "quit"@], "Log out of the current desktop session"@, "system-log-out-symbolic"@, "gnome-session-quit --logout --no-prompt"@),
        gnome_v("gnome-suspend"@, "Suspend / Sleep"@, seq!["suspend"@, "sleep"@, "hibernate"@], "Put the system to sleep"@, "weather-clear-night-symbolic"@, "systemctl suspend"@),
        gnome_v("gnome-reboot"@, "Reboot / Restart"@, seq!["reboot"@, "restart"@], "Restart the computer"@, "system-reboot-symbolic"@, "systemctl reboot"@),
        gnome_v("gnome-shutdown"@, "Shutdown / Power Off"@, seq!["shutdown"@, "poweroff"@, "power off"@, "halt"@, "turn off"@], "Power off the computer"@, "system-shutdown-symbolic"@, "systemctl poweroff"@),
        gnome_v("gnome-settings"@, "GNOME Settings"@, seq!["settings"@, "control center"@, "preferences"@, "gnome settings"@], "Open system settings configuration window"@, "preferences-system-symbolic"@, "gnome-control-center"@),
        gnome_v("gnome-settings-wifi"@, "Settings: Wi-Fi"@, seq!["wifi"@, "wi-fi"@, "wireless"@, "internet"@, "network"@, "lan"@], "Configure wireless network connections"@, "network-wireless-symbolic"@, "gnome-control-center wifi"@),
        gnome_v("gnome-settings-bluetooth"@, "Settings: Bluetooth"@, seq!["bluetooth"@, "blue"@, "wireless"@, "pair"@, "device"@, "headphones"@], "Configure Bluetooth devices and pairing"@, "bluetooth-symbolic"@, "gnome-control-center bluetooth"@),
        gnome_v("gnome-settings-display"@, "Settings: Displays"@, seq!["display"@, "monitor"@, "screen"@, "resolution"@, "projector"@, "scale"@], "Configure monitors, resolution, and scaling"@, "video-display-symbolic"@, "gnome-control-center display"@),
        gnome_v("gnome-settings-sound"@, "Settings: Sound"@, seq!["sound"@, "audio"@, "volume"@, "speaker"@, "microphone"@, "headphones"@], "Configure system sound volume and audio devices"@, "audio-volume-high-symbolic"@, "gnome-control-center sound"@),
        gnome_v("gnome-settings-power"@, "Settings: Power & Battery"@, seq!["power"@, "battery"@, "energy"@, "charging"@, "suspend"@, "sleep"@, "screen off"@], "Configure power savings and screen timeout settings"@, "battery-symbolic"@, "gnome-control-center power"@),
        gnome_v("gnome-settings-background"@, "Settings: Background & Wallpaper"@, seq!["background"@, "wallpaper"@, "desktop"@, "theme"@, "style"@, "appearance"@], "Change desktop wallpaper and system theme settings"@, "preferences-desktop-wallpaper-symbolic"@, "gnome-control-center background"@),
        gnome_v("gnome-settings-keyboard"@, "Settings: Keyboard Shortcuts"@, seq!["keyboard"@, "shortcuts"@, "hotkeys"@, "input"@, "layout"@], "Configure keyboard layouts and system shortcuts"@, "input-keyboard-symbolic"@, "gnome-control-center keyboard"@),
        gnome_v("gnome-settings-mouse"@, "Settings: Mouse & Touchpad"@, seq!["mouse"@, "touchpad"@, "trackpad"@, "pointer"@, "click"@, "scroll"@], "Configure mouse speed and touchpad gestures"@, "input-mouse-symbolic"@, "gnome-control-center mouse"@),
        gnome_v("gnome-settings-printers"@, "Settings: Printers"@, seq!["printer"@, "print"@, "scanner"@, "devices"@], "Configure connected printers and print queues"@, "printer-symbolic"@, "gnome-control-center printers"@),
        gnome_v("gnome-settings-info"@, "Settings: About System Info"@, seq!["about"@, "system info"@, "specifications"@, "info"@, "version"@, "hardware"@], "View OS version, CPU, RAM, and hardware details"@, "dialog-information-symbolic"@, "gnome-control-center info-overview"@),
        gnome_v("gnome-settings-datetime"@, "Settings: Date & Time"@, seq!["date"@, "time"@, "clock"@, "timezone"@, "calendar"@, "year"@], "Configure system date, time, and timezone clock settings"@, "preferences-system-time-symbolic"@, "gnome-control-center datetime"@),
        gnome_v("gnome-empty-trash"@, "Empty Trash"@, seq!["empty trash"@, "trash"@, "clear trash"@, "delete trash"@], "Permanently delete all items in trash"@, "user-trash-symbolic"@, "rm -rf ~/.local/share/Trash/files/* ~/.local/share/Trash/info/*"@),
    ]
}

pub struct GnomeSysPlugin {
    actions: Vec<GnomeAction>,
}

impl View for GnomeSysPlugin {
    type V = Seq<GnomeActionView>;

    closed spec fn view(&self) -> Seq<GnomeActionView> {
        self.actions@.map_values(|a: GnomeAction| a@)
    }
}

/// Some keyword contains the (lower-cased) query.
pub open spec fn keyword_hit(keywords: Seq<Seq<char>>, q: Seq<char>) -> bool {
    exists|j: int| 0 <= j < keywords.len() && contains(#[trigger] keywords[j], q)
}

/// Exact title match ranks first, then a title prefix, then any other match.
pub open spec fn gnome_score(title_lower: Seq<char>, q: Seq<char>) -> i32 {
    if title_lower == q {
        95
    } else if starts_with(title_lower, q) {
        85
    } else {
        75
    }
}

pub open spec fn gnome_item(a: GnomeActionView, q: Seq<char>) -> ResultItemView {
    item_v(
        a.id,
        a.title,
        Some(a.subtitle),
        Some(a.icon),
        "GNOME Controls"@,
        gnome_score(str_lower(a.title), q),
        seq![action_v(a.title, "run-command"@, a.command)],
    )
}

/// Picks the actions whose lower-cased title or some keyword contains `q`
/// (the lower-cased query).
pub open spec fn gnome_pick(q: Seq<char>) -> spec_fn(GnomeActionView) -> Option<ResultItemView> {
    |a: GnomeActionView|
        if contains(str_lower(a.title), q) || keyword_hit(a.keywords, q) {
            Some(gnome_item(a, q))
        } else {
            None
        }
}

/// Results for a query against the given actions: none for a blank query.
pub open spec fn gnome_results(actions: Seq<GnomeActionView>, query: Seq<char>) -> Seq<ResultItemView> {
    if trim(query).len() == 0 {
        Seq::empty()
    } else {
        actions.filter_map(gnome_pick(str_lower(trim(query))))
    }
}

fn keywords_hit(keywords: &Vec<&'static str>, q: &Vec<char>) -> (b: bool)
    ensures
        b == keyword_hit(keywords@.map_values(|k: &str| k@), q@),
{
    let ghost ks = keywords@.map_values(|k: &str| k@);
    let mut j: usize = 0;
    while j < keywords.len()
        invariant
            j <= keywords.len(),
            ks == keywords@.map_values(|k: &str| k@),
            forall|m: int| 0 <= m < j ==> !contains(#[trigger] ks[m], q@),
        decreases keywords.len() - j,
    {
        if has_substring(&to_chars(keywords[j]), q) {
            assert(contains(ks[j as int], q@));
            return true;
        }
        j = j + 1;
    }
    false
}

impl GnomeSysPlugin {
    pub fn new() -> (p: Self)
        ensures
            p@ == gnome_table(),
    {
        let actions = vec![
            GnomeAction {
                id: "gnome-lock-screen",
                title: "Lock Screen",
                keywords: vec!["lock", "screen", "saver", "suspend"],
                subtitle: "Lock the current desktop session",
                icon: "system-lock-screen-symbolic",
                command: "dbus-send --type=method_call --dest=org.gnome.ScreenSaver /org/gnome/ScreenSaver org.gnome.ScreenSaver.Lock",
            },
            GnomeAction {
                id: "gnome-logout",
                title: "Log Out",
                keywords: vec!["logout", "log out", "exit", "quit"],
                subtitle: "Log out of the current desktop session",
                icon: "system-log-out-symbolic",
                command: "gnome-session-quit --logout --no-prompt",
            },
            GnomeAction {
                id: "gnome-suspend",
                title: "Suspend / Sleep",
                keywords: vec!["suspend", "sleep", "hibernate"],
                subtitle: "Put the system to sleep",
                icon: "weather-clear-night-symbolic",
                command: "systemctl suspend",
            },
            GnomeAction {
                id: "gnome-reboot",
                title: "Reboot / Restart",
                keywords: vec!["reboot", "restart"],
                subtitle: "Restart the computer",
                icon: "system-reboot-symbolic",
                command: "systemctl reboot",
            },
            GnomeAction {
                id: "gnome-shutdown",
                title: "Shutdown / Power Off",
                keywords: vec!["shutdown", "poweroff", "power off", "halt", "turn off"],
                subtitle: "Power off the computer",
                icon: "system-shutdown-symbolic",
                command: "systemctl poweroff",
            },
            GnomeAction {
                id: "gnome-settings",
                title: "GNOME Settings",
                keywords: vec!["settings", "control center", "preferences", "gnome settings"],
                subtitle: "Open system settings configuration window",
                icon: "preferences-system-symbolic",
                command: "gnome-control-center",
            },
            GnomeAction {
                id: "gnome-settings-wifi",
                title: "Settings: Wi-Fi",
                keywords: vec!["wifi", "wi-fi", "wireless", "internet", "network", "lan"],
                subtitle: "Configure wireless network connections",
                icon: "network-wireless-symbolic",
                command: "gnome-control-center wifi",
            },
            GnomeAction {
                id: "gnome-settings-bluetooth",
                title: "Settings: Bluetooth",
                keywords: vec!["bluetooth", "blue", "wireless", "pair", "device", "headphones"],
                subtitle: "Configure Bluetooth devices and pairing",
                icon: "bluetooth-symbolic",
                command: "gnome-control-center bluetooth",
            },
            GnomeAction {
                id: "gnome-settings-display",
                title: "Settings: Displays",
                keywords: vec!["display", "monitor", "screen", "resolution", "projector", "scale"],
                subtitle: "Configure monitors, resolution, and scaling",
                icon: "video-display-symbolic",
                command: "gnome-control-center display",
            },
            GnomeAction {
                id: "gnome-settings-sound",
                title: "Settings: Sound",
                keywords: vec!["sound", "audio", "volume", "speaker", "microphone", "headphones"],
                subtitle: "Configure system sound volume and audio devices",
                icon: "audio-volume-high-symbolic",
                command: "gnome-control-center sound",
            },
            GnomeAction {
                id: "gnome-settings-power",
                title: "Settings: Power & Battery",
                keywords: vec!["power", "battery", "energy", "charging", "suspend", "sleep", "screen off"],
                subtitle: "Configure power savings and screen timeout settings",
                icon: "battery-symbolic",
                command: "gnome-control-center power",
            },
            GnomeAction {
                id: "gnome-settings-background",
                title: "Settings: Background & Wallpaper",
                keywords: vec!["background", "wallpaper", "desktop", "theme", "style", "appearance"],
                subtitle: "Change desktop wallpaper and system theme settings",
                icon: "preferences-desktop-wallpaper-symbolic",
                command: "gnome-control-center background",
            },
            GnomeAction {
                id: "gnome-settings-keyboard",
                title: "Settings: Keyboard Shortcuts",
                keywords: vec!["keyboard", "shortcuts", "hotkeys", "input", "layout"],
                subtitle: "Configure keyboard layouts and system shortcuts",
                icon: "input-keyboard-symbolic",
                command: "gnome-control-center keyboard",
            },
            GnomeAction {
                id: "gnome-settings-mouse",
                title: "Settings: Mouse & Touchpad",
                keywords: vec!["mouse", "touchpad", "trackpad", "pointer", "click", "scroll"],
                subtitle: "Configure mouse speed and touchpad gestures",
                icon: "input-mouse-symbolic",
                command: "gnome-control-center mouse",
            },
            GnomeAction {
                id: "gnome-settings-printers",
                title: "Settings: Printers",
                keywords: vec!["printer", "print", "scanner", "devices"],
                subtitle: "Configure connected printers and print queues",
                icon: "printer-symbolic",
                command: "gnome-control-center printers",
            },
            GnomeAction {
                id: "gnome-settings-info",
                title: "Settings: About System Info",
                keywords: vec!["about", "system info", "specifications", "info", "version", "hardware"],
                subtitle: "View OS version, CPU, RAM, and hardware details",
                icon: "dialog-information-symbolic",
                command: "gnome-control-center info-overview",
            },
            GnomeAction {
                id: "gnome-settings-datetime",
                title: "Settings: Date & Time",
                keywords: vec!["date", "time", "clock", "timezone", "calendar", "year"],
                subtitle: "Configure system date, time, and timezone clock settings",
                icon: "preferences-system-time-symbolic",
                command: "gnome-control-center datetime",
            },
            GnomeAction {
                id: "gnome-empty-trash",
                title: "Empty Trash",
                keywords: vec!["empty trash", "trash", "clear trash", "delete trash"],
                subtitle: "Permanently delete all items in trash",
                icon: "user-trash-symbolic",
                command: "rm -rf ~/.local/share/Trash/files/* ~/.local/share/Trash/info/*",
            },
        ];
        let p = GnomeSysPlugin { actions };
        assert(p.actions@[0].keywords@.map_values(|k: &str| k@) =~= seq!["lock"@, "screen"@, "saver"@, "suspend"@]);
        assert(p.actions@[1].keywords@.map_values(|k: &str| k@) =~= seq!["logout"@, "log out"@, "exit"@, "quit"@]);
        assert(p.actions@[2].keywords@.map_values(|k: &str| k@) =~= seq!["suspend"@, "sleep"@, "hibernate"@]);
        assert(p.actions@[3].keywords@.map_values(|k: &str| k@) =~= seq!["reboot"@, "restart"@]);
        assert(p.actions@[4].keywords@.map_values(|k: &str| k@) =~= seq!["shutdown"@, "poweroff"@, "power off"@, "halt"@, "turn off"@]);
        assert(p.actions@[5].keywords@.map_values(|k: &str| k@) =~= seq!["settings"@, "control center"@, "preferences"@, "gnome settings"@]);
        assert(p.actions@[6].keywords@.map_values(|k: &str| k@) =~= seq!["wifi"@, "wi-fi"@, "wireless"@, "internet"@, "network"@, "lan"@]);
        assert(p.actions@[7].keywords@.map_values(|k: &str| k@) =~= seq!["bluetooth"@, "blue"@, "wireless"@, "pair"@, "device"@, "headphones"@]);
        assert(p.actions@[8].keywords@.map_values(|k: &str| k@) =~= seq!["display"@, "monitor"@, "screen"@, "resolution"@, "projector"@, "scale"@]);
        assert(p.actions@[9].keywords@.map_values(|k: &str| k@) =~= seq!["sound"@, "audio"@, "volume"@, "speaker"@, "microphone"@, "headphones"@]);
        assert(p.actions@[10].keywords@.map_values(|k: &str| k@) =~= seq!["power"@, "battery"@, "energy"@, "charging"@, "suspend"@, "sleep"@, "screen off"@]);
        assert(p.actions@[11].keywords@.map_values(|k: &str| k@) =~= seq!["background"@, "wallpaper"@, "desktop"@, "theme"@, "style"@, "appearance"@]);
        assert(p.actions@[12].keywords@.map_values(|k: &str| k@) =~= seq!["keyboard"@, "shortcuts"@, "hotkeys"@, "input"@, "layout"@]);
        assert(p.actions@[13].keywords@.map_values(|k: &str| k@) =~= seq!["mouse"@, "touchpad"@, "trackpad"@, "pointer"@, "click"@, "scroll"@]);
        assert(p.actions@[14].keywords@.map_values(|k: &str| k@) =~= seq!["printer"@, "print"@, "scanner"@, "devices"@]);
        assert(p.actions@[15].keywords@.map_values(|k: &str| k@) =~= seq!["about"@, "system info"@, "specifications"@, "info"@, "version"@, "hardware"@]);
        assert(p.actions@[16].keywords@.map_values(|k: &str| k@) =~= seq!["date"@, "time"@, "clock"@, "timezone"@, "calendar"@, "year"@]);
        assert(p.actions@[17].keywords@.map_values(|k: &str| k@) =~= seq!["empty trash"@, "trash"@, "clear trash"@, "delete trash"@]);
        assert(p@ =~= gnome_table());
        p
    }

    pub fn id(&self) -> (r: &'static str)
        ensures
            r@ == "gnome"@,
    {
        "gnome"
    }

    pub fn name(&self) -> (r: &'static str)
        ensures
            r@ == "GNOME System Controls"@,
    {
        "GNOME System Controls"
    }

    /// This provider answers every query: it has no mode keyword.
    pub fn mode_keyword(&self) -> (r: Option<&'static str>)
        ensures
            r is None,
    {
        None
    }

    /// This provider is not limited to a mode.
    pub fn is_mode_only(&self) -> (r: bool)
        ensures
            !r,
    {
        false
    }

    pub fn query(&self, query_text: &str, _settings: &AppSettings) -> (r: Vec<ResultItem>)
        ensures
            items_view(r@) == gnome_results(self@, query_text@),
    {
        let trimmed = trim_str(query_text);
        if trimmed.len() == 0 {
            return Vec::new();
        }
        let q = lower_chars(&trimmed);
        let mut results: Vec<ResultItem> = Vec::new();
        let mut i: usize = 0;
        while i < self.actions.len()
            invariant
                i <= self.actions.len(),
                trim(query_text@).len() > 0,
                q@ == str_lower(trim(query_text@)),
                items_view(results@) == self@.take(i as int).filter_map(gnome_pick(q@)),
            decreases self.actions.len() - i,
        {
            let a = &self.actions[i];
            let ghost before = items_view(results@);
            let title_lower = lower_chars(&to_chars(a.title));
            let matches_title = has_substring(&title_lower, &q);
            let matches_keyword = keywords_hit(&a.keywords, &q);
            if matches_title || matches_keyword {
                let score = if same_chars(&title_lower, &q) {
                    95
                } else if has_prefix(&title_lower, &q) {
                    85
                } else {
                    75
                };
                results.push(
                    ResultItem {
                        id: lit(a.id),
                        title: lit(a.title),
                        subtitle: Some(lit(a.subtitle)),
                        icon: Some(lit(a.icon)),
                        category: lit("GNOME Controls"),
                        score,
                        actions: one_action(lit(a.title), lit("run-command"), lit(a.command)),
                    },
                );
            }
            proof {
                lemma_filter_map_step(self@, i as int, gnome_pick(q@));
                assert(self@[i as int] == a@);
                if gnome_pick(q@)(self@[i as int]) is Some {
                    assert(items_view(results@) =~= before.push(gnome_item(a@, q@)));
                } else {
                    assert(items_view(results@) =~= before);
                }
            }
            i = i + 1;
        }
        proof {
            lemma_take_all(self@);
        }
        results
    }
}

} // verus!
