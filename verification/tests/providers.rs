use spear::math::{parse_math, BinOp, Expr, Func};
use spear::plugin_manager::{
    ExternalAction, ExternalItem, ExternalManifest, ExternalPlugin, PluginManager, QueryRoute,
};
use spear::plugins::calc::CalculatorPlugin;
use spear::plugins::clipboard::ClipboardPlugin;
use spear::plugins::colors::ColorPalettePlugin;
use spear::plugins::emojis::EmojiPlugin;
use spear::plugins::file_manager::{DirEntryInfo, FileManagerPlugin, ListPlan};
use spear::plugins::files::{
    should_skip_dir, FileMatch, FilesPlugin, Visit, HOME_DEPTH, MAX_VISITED, ROOT_DEPTH,
};
use spear::plugins::gnome_sys::GnomeSysPlugin;
use spear::plugins::packages::PackageSearchPlugin;
use spear::plugins::recent::{location_of, RecentFilesPlugin, RecentInfo};
use spear::plugins::run_cmd::RunCommandPlugin;
use spear::plugins::web::{url_encode, WebSearchPlugin};
use spear::plugins::window_mgmt::WindowManagementPlugin;
use spear::plugins::window_switcher::WindowSwitcherPlugin;
use spear::plugins::youtube::YouTubeSearchPlugin;
use spear::plugins::ResultItem;
use spear::settings::{
    color_scheme_for, default_cmd_prefix, default_file_roots, default_layout_mode, default_true,
    default_web_name, default_web_url, default_yt_url, join_path, theme_display_name, AppSettings,
    ColorScheme,
};
use spear::text::{decimal_string, lower_chars, to_chars, trim_str};

fn settings() -> AppSettings {
    AppSettings::default()
}

fn titles(items: &[ResultItem]) -> Vec<String> {
    items.iter().map(|r| r.title.clone()).collect()
}

fn s(v: Vec<char>) -> String {
    v.into_iter().collect()
}

// ---------------------------------------------------------------- text

#[test]
fn trim_removes_unicode_whitespace_at_both_ends() {
    assert_eq!(s(trim_str("\u{3000} \t hello world \n\u{a0}")), "hello world");
    assert_eq!(s(trim_str("   ")), "");
}

#[test]
fn lowercase_changes_case() {
    assert_eq!(s(lower_chars(&to_chars("HeLLo ÄÖ"))), "hello äö");
}

#[test]
fn decimal_rendering() {
    assert_eq!(decimal_string(0), "0");
    assert_eq!(decimal_string(7), "7");
    assert_eq!(decimal_string(1234), "1234");
}

// ---------------------------------------------------------------- calculator grammar

#[test]
fn parse_precedence_and_associativity() {
    let e = parse_math("1 + 2 * 3").unwrap();
    assert_eq!(
        e,
        Expr::Binary(
            BinOp::Add,
            Box::new(Expr::Number { start: 0, end: 1 }),
            Box::new(Expr::Binary(
                BinOp::Mul,
                Box::new(Expr::Number { start: 4, end: 5 }),
                Box::new(Expr::Number { start: 8, end: 9 }),
            )),
        )
    );
    let e = parse_math("8-2-1").unwrap();
    assert_eq!(
        e,
        Expr::Binary(
            BinOp::Sub,
            Box::new(Expr::Binary(
                BinOp::Sub,
                Box::new(Expr::Number { start: 0, end: 1 }),
                Box::new(Expr::Number { start: 2, end: 3 }),
            )),
            Box::new(Expr::Number { start: 4, end: 5 }),
        )
    );
}

#[test]
fn parse_power_is_right_associative_and_sign_applies_after_power() {
    let e = parse_math("-2^3^2").unwrap();
    assert_eq!(
        e,
        Expr::Neg(Box::new(Expr::Pow(
            Box::new(Expr::Number { start: 1, end: 2 }),
            Box::new(Expr::Pow(
                Box::new(Expr::Number { start: 3, end: 4 }),
                Box::new(Expr::Number { start: 5, end: 6 }),
            )),
        )))
    );
}

#[test]
fn parse_functions_and_constants_ignore_case() {
    assert_eq!(
        parse_math("SQRT(16)").unwrap(),
        Expr::Call(Func::Sqrt, Box::new(Expr::Number { start: 5, end: 7 }))
    );
    assert_eq!(parse_math(" Pi ").unwrap(), Expr::Pi);
    assert_eq!(parse_math("e").unwrap(), Expr::E);
    assert_eq!(
        parse_math("abs ( -1 )").unwrap(),
        Expr::Call(Func::Abs, Box::new(Expr::Neg(Box::new(Expr::Number { start: 7, end: 8 }))))
    );
}

#[test]
fn parse_rejects_malformed_input() {
    assert_eq!(parse_math("1 +"), None);
    assert_eq!(parse_math("(1 + 2"), None);
    assert_eq!(parse_math("2 3"), None);
    assert_eq!(parse_math("."), None);
    assert_eq!(parse_math("foo(1)"), None);
    assert_eq!(parse_math("sqrt 4"), None);
    assert_eq!(parse_math(""), None);
    assert_eq!(parse_math("1.2.3"), None);
}

#[test]
fn parse_numbers_with_one_dot() {
    assert_eq!(parse_math(".5").unwrap(), Expr::Number { start: 0, end: 2 });
    assert_eq!(parse_math("5.").unwrap(), Expr::Number { start: 0, end: 2 });
    assert_eq!(
        parse_math("7 % 4").unwrap(),
        Expr::Binary(
            BinOp::Rem,
            Box::new(Expr::Number { start: 0, end: 1 }),
            Box::new(Expr::Number { start: 4, end: 5 }),
        )
    );
}

// ---------------------------------------------------------------- calculator provider

#[test]
fn calc_parse_query_needs_digits_or_math_name() {
    let c = CalculatorPlugin::new();
    assert!(c.parse_query("hello").is_none());
    assert!(c.parse_query("   ").is_none());
    let (t, e) = c.parse_query("  2+2 ").unwrap();
    assert_eq!(t, "2+2");
    assert_eq!(
        e,
        Expr::Binary(
            BinOp::Add,
            Box::new(Expr::Number { start: 0, end: 1 }),
            Box::new(Expr::Number { start: 2, end: 3 }),
        )
    );
    assert!(c.parse_query("pi").is_some());
    assert!(c.parse_query("Sin(0)").is_some());
    assert!(c.parse_query("2 +").is_none());
}

#[test]
fn always_on_providers_have_no_mode() {
    let c = CalculatorPlugin::new();
    assert_eq!(c.id(), "calc");
    assert_eq!(c.mode_keyword(), None);
    assert!(!c.is_mode_only());
    assert_eq!(WebSearchPlugin::new().mode_keyword(), None);
    assert!(!FilesPlugin::new().is_mode_only());
    assert_eq!(FileManagerPlugin::new().mode_keyword(), None);
}

#[test]
fn calc_result_item_and_zero_stripping() {
    let c = CalculatorPlugin::new();
    assert_eq!(CalculatorPlugin::strip_trailing_zeros("2.500000"), "2.5");
    assert_eq!(CalculatorPlugin::strip_trailing_zeros("3.000000"), "3");
    assert_eq!(CalculatorPlugin::strip_trailing_zeros("100"), "1");
    let r = c.result_items("1+1", "2");
    assert_eq!(r.len(), 1);
    assert_eq!(r[0].id, "calc-2");
    assert_eq!(r[0].title, "2");
    assert_eq!(r[0].subtitle.as_deref(), Some("Result for: 1+1"));
    assert_eq!(r[0].score, 110);
    assert_eq!(r[0].actions[0].action_type, "copy-to-clipboard");
    assert_eq!(r[0].actions[0].value, "2");
}

#[test]
fn calc_whitespace_law_example() {
    let c = CalculatorPlugin::new();
    let a = c.parse_query(" 3*4 ").map(|x| x.0);
    let b = c.parse_query("3*4").map(|x| x.0);
    assert_eq!(a, b);
}

// ---------------------------------------------------------------- web and youtube

#[test]
fn url_encoding() {
    assert_eq!(url_encode("hello world"), "hello+world");
    assert_eq!(url_encode("a&b=c"), "a%26b%3Dc");
    assert_eq!(url_encode("AZaz09-_.~"), "AZaz09-_.~");
    assert_eq!(url_encode("é"), "%C3%A9");
    assert_eq!(url_encode(""), "");
    assert_eq!(spear::plugins::youtube::url_encode("c++"), "c%2B%2B");
}

#[test]
fn url_encoding_concat_law_example() {
    let a = "rust lang";
    let b = "ü?";
    assert_eq!(url_encode(&format!("{}{}", a, b)), format!("{}{}", url_encode(a), url_encode(b)));
}

fn decode_query(e: &str) -> Vec<u8> {
    let c: Vec<char> = e.chars().collect();
    let mut out = Vec::new();
    let mut i = 0;
    while i < c.len() {
        if c[i] == '+' {
            out.push(b' ');
            i += 1;
        } else if c[i] == '%' && i + 2 < c.len() {
            let h: String = c[i + 1..i + 3].iter().collect();
            out.push(u8::from_str_radix(&h, 16).unwrap());
            i += 3;
        } else {
            out.push(c[i] as u8);
            i += 1;
        }
    }
    out
}

#[test]
fn url_encoding_decodes_back() {
    for s in ["a b&c#d=e/f\u{1F600}", "100% sure", "+-_.~", "", "naïve ©"] {
        let e = url_encode(s);
        assert_eq!(decode_query(&e), s.as_bytes());
        let c: Vec<char> = e.chars().collect();
        for (i, ch) in c.iter().enumerate() {
            if *ch == '%' {
                assert!(i + 2 < c.len());
                assert!(c[i + 1].is_ascii_hexdigit() && !c[i + 1].is_ascii_lowercase());
                assert!(c[i + 2].is_ascii_hexdigit() && !c[i + 2].is_ascii_lowercase());
            }
        }
    }
}

#[test]
fn url_encoding_is_safe() {
    let e = url_encode("a b&c#d=e/f\u{1F600}");
    assert!(e
        .chars()
        .all(|c| c.is_ascii_alphanumeric() || "-_.~+%".contains(c)));
}

#[test]
fn web_search_results() {
    let w = WebSearchPlugin::new();
    let r = w.query("  rust lang ", &settings());
    assert_eq!(r.len(), 3);
    assert_eq!(r[0].id, "web-custom");
    assert_eq!(r[0].title, "Search Web for 'rust lang'");
    assert_eq!(r[0].actions[0].value, "https://google.com/search?q=rust+lang");
    assert_eq!(r[1].actions[0].value, "https://github.com/search?q=rust+lang");
    assert_eq!(r[2].actions[0].value, "https://duckduckgo.com/?q=rust+lang");
    assert_eq!((r[0].score, r[1].score, r[2].score), (50, 45, 40));
    assert!(w.query("   ", &settings()).is_empty());
    let mut st = settings();
    st.web_custom_url = String::new();
    assert_eq!(w.query("x", &st)[0].actions[0].value, "https://google.com/search?q=x");
    st.web_custom_url = "https://bing.com/?q=".to_string();
    assert_eq!(w.query("x", &st)[0].actions[0].value, "https://bing.com/?q=x");
}

#[test]
fn web_whitespace_law_example() {
    let w = WebSearchPlugin::new();
    let a = w.query(" cats ", &settings());
    let b = w.query("cats", &settings());
    assert_eq!(titles(&a), titles(&b));
}

#[test]
fn youtube_search_result() {
    let y = YouTubeSearchPlugin::new();
    let r = y.query("lofi beats", &settings());
    assert_eq!(r.len(), 1);
    assert_eq!(r[0].id, "youtube-search");
    assert_eq!(r[0].score, 35);
    assert_eq!(
        r[0].actions[0].value,
        "https://youtube.com/results?search_query=lofi+beats"
    );
    let mut st = settings();
    st.youtube_url = String::new();
    assert_eq!(
        y.query("a", &st)[0].actions[0].value,
        "https://youtube.com/results?search_query=a"
    );
    assert!(y.query("", &settings()).is_empty());
}

// ---------------------------------------------------------------- run command

#[test]
fn run_command_results() {
    let p = RunCommandPlugin::new();
    assert!(p.query("ls", &settings()).is_empty());
    let r = p.query("  >  ls -la ", &settings());
    assert_eq!(r.len(), 1);
    assert_eq!(r[0].id, "run-command-ls -la");
    assert_eq!(r[0].title, "Run: ls -la");
    assert_eq!(r[0].actions[0].label, "Run 'ls -la'");
    assert_eq!(r[0].actions[0].value, "ls -la");
    let r = p.query(">", &settings());
    assert_eq!(r[0].id, "run-command-empty");
    assert_eq!(
        r[0].subtitle.as_deref(),
        Some("Type a command after '>' to execute (e.g. > gnome-terminal)")
    );
    assert!(r[0].actions.is_empty());
    let mut st = settings();
    st.command_prefix = "$".to_string();
    assert_eq!(p.query("$ top", &st)[0].title, "Run: top");
    st.command_prefix = String::new();
    assert_eq!(p.query(">top", &st)[0].title, "Run: top");
}

// ---------------------------------------------------------------- palette, emoji, windows

#[test]
fn color_results() {
    let c = ColorPalettePlugin::new();
    let r = c.query("#abc", &settings());
    assert_eq!(r[0].id, "color-hex-#abc");
    assert_eq!(r[0].title, "Color: #abc");
    let r = c.query("blue", &settings());
    assert_eq!(titles(&r), vec!["Blue", "Spear Blue", "Adwaita Blue"]);
    assert_eq!(r[0].actions[0].label, "Copy #0000FF");
    let r = c.query("#ff0000", &settings());
    assert_eq!(r[0].title, "Color: #ff0000");
    assert_eq!(r[1].title, "Red");
    assert_eq!(c.get_predefined_colors().len(), 13);
    assert_eq!(c.query("", &settings()).len(), 13);
}

#[test]
fn emoji_results() {
    let e = EmojiPlugin::new();
    let r = e.query("LOVE", &settings());
    assert_eq!(titles(&r), vec!["😍 Smiling Face with Heart-Eyes", "❤️ Heart"]);
    assert_eq!(r[0].actions[0].value, "😍");
    assert!(r[0].icon.is_none());
    assert_eq!(e.get_emojis().len(), 10);
}

#[test]
fn window_management_results() {
    let w = WindowManagementPlugin::new();
    let r = w.query("center", &settings());
    assert_eq!(r.len(), 1);
    assert_eq!(r[0].id, "win-center-window");
    assert_eq!(r[0].subtitle.as_deref(), Some("Move window to center "));
    let r = w.query("tile left", &settings());
    assert_eq!(r[0].subtitle.as_deref(), Some("Split window to the left half (Super+Left)"));
    assert_eq!(r[0].actions[0].value, "echo 'Tiling action Tile Left triggered'");
    assert_eq!(w.query("", &settings()).len(), 6);
}

#[test]
fn window_list_parsing_and_results() {
    let w = WindowSwitcherPlugin::new();
    let out = "0x01 0 host Terminal\n0x02 0 host Spear Launcher\n0x03 0 host   \nbroken line\n0x04  0 host Firefox Browser\r\n";
    let list = w.parse_window_list(out);
    assert_eq!(
        list,
        vec![
            ("0x01".to_string(), "Terminal".to_string()),
            ("0x04".to_string(), "host Firefox Browser".to_string()),
        ]
    );
    let r = w.results(list, "FIRE");
    assert_eq!(r.len(), 1);
    assert_eq!(r[0].id, "window-0x04");
    assert_eq!(r[0].actions[0].value, "wmctrl -i -a 0x04");
    assert_eq!(r[0].actions[1].value, "wmctrl -i -c 0x04");
}

// ---------------------------------------------------------------- gnome

#[test]
fn gnome_results() {
    let g = GnomeSysPlugin::new();
    let r = g.query("lock screen", &settings());
    assert_eq!(r[0].id, "gnome-lock-screen");
    assert_eq!(r[0].score, 95);
    let r = g.query("  Reboot ", &settings());
    assert_eq!(r[0].title, "Reboot / Restart");
    assert_eq!(r[0].score, 85);
    assert_eq!(r[0].actions[0].value, "systemctl reboot");
    let r = g.query("wifi", &settings());
    assert_eq!(r[0].score, 75);
    assert_eq!(r[0].id, "gnome-settings-wifi");
    assert!(g.query("  ", &settings()).is_empty());
    let headphones = g.query("headphones", &settings());
    assert_eq!(headphones.len(), 2);
}

// ---------------------------------------------------------------- clipboard

#[test]
fn clipboard_results() {
    let c = ClipboardPlugin::new();
    let r = c.query("", &settings());
    assert_eq!(r.len(), 3);
    assert_eq!(r[0].id, "clip-0");
    let r = c.query("AWESOME", &settings());
    assert_eq!(r.len(), 1);
    assert_eq!(r[0].id, "clip-2");
    assert_eq!(r[0].title, "Spear Launcher is awesome!");
    assert_eq!(r[0].actions[1].action_type, "run-command");
}

// ---------------------------------------------------------------- packages

#[test]
fn package_output_parsing() {
    let p = PackageSearchPlugin::new();
    assert!(!p.accepts("ab"));
    assert!(p.accepts("abc"));
    let apt = p.apt_results("vim - Vi IMproved\nnot a package line\nvim-gtk3 - GUI - version\n");
    assert_eq!(titles(&apt), vec!["vim", "vim-gtk3"]);
    assert_eq!(apt[1].subtitle.as_deref(), Some("[APT] GUI - version"));
    assert_eq!(apt[0].actions[0].value, "kgx -e 'sudo apt install vim'");
    let fp = p.flatpak_results("Name\tApplication ID\tDescription\nGIMP\torg.gimp.GIMP\tImage editor\nbad\n");
    assert_eq!(titles(&fp), vec!["GIMP"]);
    assert_eq!(fp[0].id, "flatpak-org.gimp.GIMP");
    assert_eq!(fp[0].actions[0].value, "flatpak install -y org.gimp.GIMP");
    let all = p.combine(apt, fp);
    assert_eq!(titles(&all), vec!["GIMP", "vim", "vim-gtk3"]);
}

#[test]
fn apt_output_keeps_first_ten_lines() {
    let p = PackageSearchPlugin::new();
    let out: String = (0..15).map(|i| format!("p{} - d\n", i)).collect();
    assert_eq!(p.apt_results(&out).len(), 10);
}

// ---------------------------------------------------------------- files

fn fm(path: &str, name: &str, is_dir: bool, ext: Option<&str>, parent: &str) -> FileMatch {
    FileMatch {
        path: path.to_string(),
        file_name: name.to_string(),
        is_dir,
        extension: ext.map(|e| e.to_string()),
        parent: parent.to_string(),
    }
}

#[test]
fn files_matches_in_path_order_without_repeats() {
    let found = vec![
        fm("/b/x", "x", false, None, "/b"),
        fm("/a.b", "a.b", false, Some("b"), "/"),
        fm("/a/y", "y", true, None, "/a"),
        fm("/b/x", "x", true, None, "/b"),
        fm("/a//y", "y", false, None, "/a"),
        fm("/a/b", "b", false, None, "/a"),
    ];
    let r = FilesPlugin::unique_matches(found);
    let paths: Vec<&str> = r.iter().map(|m| m.path.as_str()).collect();
    assert_eq!(paths, vec!["/a/b", "/a/y", "/a.b", "/b/x"]);
    // The first of equal paths stays.
    assert!(r[1].is_dir);
    assert!(!r[3].is_dir);
    assert!(FilesPlugin::unique_matches(vec![]).is_empty());
}

#[test]
fn files_fallback_roots_and_limits() {
    assert_eq!(
        FilesPlugin::fallback_roots("/home/u"),
        vec!["/home/u/Documents", "/home/u/Downloads", "/home/u/Desktop"]
    );
    assert_eq!(FilesPlugin::fallback_roots("/")[0], "/Documents");
    assert_eq!((MAX_VISITED, ROOT_DEPTH, HOME_DEPTH), (3000, 3, 1));
}

#[test]
fn visit_past_the_budget_stops() {
    let q: Vec<char> = "x".chars().collect();
    let mut visited = 3000usize;
    assert_eq!(FilesPlugin::visit(&mut visited, 3000, Some("x"), false, &q), Visit::Stop);
    assert_eq!(visited, 3001);
    let mut visited = 10usize;
    assert_eq!(
        FilesPlugin::visit(&mut visited, 3000, Some("AxB"), true, &q),
        Visit::Next { matched: true, descend: true }
    );
    assert_eq!(
        FilesPlugin::visit(&mut visited, 3000, Some("node_modules"), true, &q),
        Visit::Next { matched: false, descend: false }
    );
    assert_eq!(visited, 12);
}

#[test]
fn files_skip_and_roots() {
    assert!(should_skip_dir(".cache"));
    assert!(should_skip_dir("node_modules"));
    assert!(should_skip_dir("target"));
    assert!(!should_skip_dir("src"));
    let f = FilesPlugin::new();
    assert_eq!(
        f.search_roots("~/Documents, , /tmp ,~", "/home/u"),
        vec!["/home/u/Documents", "/tmp", "/home/u"]
    );
}

#[test]
fn files_results_ranked() {
    let f = FilesPlugin::new();
    let found = vec![
        fm("/h/a/notes-old.txt", "notes-old.txt", false, Some("txt"), "/h/a"),
        fm("/h/notes", "notes", true, None, "/h"),
        fm("/h/b/my notes.PDF", "my notes.PDF", false, Some("PDF"), "/h/b"),
    ];
    let r = f.results(" Notes ", found);
    assert_eq!(titles(&r), vec!["notes", "notes-old.txt", "my notes.PDF"]);
    assert_eq!((r[0].score, r[1].score, r[2].score), (80, 70, 50));
    assert_eq!(r[0].icon.as_deref(), Some("folder-symbolic"));
    assert_eq!(r[1].icon.as_deref(), Some("text-x-generic-symbolic"));
    assert_eq!(r[2].icon.as_deref(), Some("document-send-symbolic"));
    assert_eq!(r[2].actions[1].value, "file:///h/b");
    assert!(f.results("  ", vec![]).is_empty());
}

#[test]
fn files_results_at_most_twenty() {
    let f = FilesPlugin::new();
    let found: Vec<FileMatch> = (0..30)
        .map(|i| fm(&format!("/h/x{}", i), &format!("x{}", i), false, None, "/h"))
        .collect();
    assert_eq!(f.results("x", found).len(), 20);
}

// ---------------------------------------------------------------- file manager

fn entry(name: &str, is_dir: bool, ext: Option<&str>) -> DirEntryInfo {
    DirEntryInfo {
        file_name: name.to_string(),
        path: format!("/home/u/{}", name),
        is_dir,
        extension: ext.map(|e| e.to_string()),
    }
}

#[test]
fn file_manager_plan() {
    assert_eq!(FileManagerPlugin::plan(true, true), ListPlan::Target);
    assert_eq!(FileManagerPlugin::plan(true, false), ListPlan::Target);
    assert_eq!(FileManagerPlugin::plan(false, true), ListPlan::Parent);
    assert_eq!(FileManagerPlugin::plan(false, false), ListPlan::Nothing);
}

#[test]
fn file_manager_targets() {
    let p = FileManagerPlugin::new();
    assert_eq!(p.target("ff", "/home/u").as_deref(), Some("/home/u"));
    assert_eq!(p.target("  ff ~/Music ", "/home/u").as_deref(), Some("/home/u/Music"));
    assert_eq!(p.target("ff /etc", "/home/u").as_deref(), Some("/etc"));
    assert_eq!(p.target("ff Downloads", "/home/u").as_deref(), Some("/home/u/Downloads"));
    assert_eq!(p.target("ffx", "/home/u"), None);
    assert_eq!(p.target("files", "/home/u"), None);
}

#[test]
fn file_manager_listing() {
    let p = FileManagerPlugin::new();
    let entries = vec![
        entry("zeta.txt", false, Some("txt")),
        entry("Alpha", true, None),
        entry(".hidden", false, None),
        entry("beta.mp3", false, Some("MP3")),
        entry("music", true, None),
    ];
    let r = p.listing("/home/u", Some("/home"), entries, None);
    assert_eq!(titles(&r), vec!["..", "Alpha", "music", "beta.mp3", "zeta.txt"]);
    assert_eq!(r[0].actions[0].value, "ff /home/");
    assert_eq!(r[1].actions[0].value, "ff /home/u/Alpha/");
    assert_eq!(r[3].icon.as_deref(), Some("audio-x-generic-symbolic"));
    assert_eq!(r[4].actions[1].value, "file:///home/u");
}

#[test]
fn file_manager_listing_with_filter() {
    let p = FileManagerPlugin::new();
    let entries = vec![
        entry("Documents", true, None),
        entry("dotfile", false, None),
        entry(".dot", false, None),
        entry("Music", true, None),
    ];
    let r = p.listing("/home/u", None, entries, Some("Do"));
    assert_eq!(titles(&r), vec!["Documents", "dotfile"]);
    let entries = vec![entry(".dot", false, None), entry("dotfile", false, None)];
    let r = p.listing("/home/u", None, entries, Some(".d"));
    assert_eq!(titles(&r), vec![".dot"]);
}

// ---------------------------------------------------------------- recent files

#[test]
fn recent_results() {
    let p = RecentFilesPlugin::new();
    let items = vec![
        RecentInfo {
            display_name: "report.pdf".to_string(),
            uri: "file:///home/u/My%20Docs/report.pdf".to_string(),
            mime_type: "application/pdf".to_string(),
        },
        RecentInfo {
            display_name: "Report".to_string(),
            uri: "file:///home/u/Report".to_string(),
            mime_type: "inode/directory".to_string(),
        },
        RecentInfo {
            display_name: "old report.zip".to_string(),
            uri: "file:///tmp/old%20report.zip".to_string(),
            mime_type: "application/zip".to_string(),
        },
        RecentInfo {
            display_name: "photo.png".to_string(),
            uri: "file:///p.png".to_string(),
            mime_type: "image/png".to_string(),
        },
    ];
    let r = p.results("report", items);
    assert_eq!(titles(&r), vec!["Report", "report.pdf", "old report.zip"]);
    assert_eq!((r[0].score, r[1].score, r[2].score), (75, 65, 45));
    assert_eq!(r[0].icon.as_deref(), Some("folder-symbolic"));
    assert_eq!(r[1].icon.as_deref(), Some("x-office-document-symbolic"));
    assert_eq!(r[2].icon.as_deref(), Some("package-x-generic-symbolic"));
    assert_eq!(r[1].subtitle.as_deref(), Some("/home/u/My Docs/report.pdf"));
    assert_eq!(location_of("file://a%20b%20c"), "a b c");
    assert!(p.results(" ", vec![]).is_empty());
}

// ---------------------------------------------------------------- plugin manager

fn ext_plugin(id: &str, keyword: Option<&str>, command: &[&str]) -> ExternalPlugin {
    ExternalPlugin::from_manifest(
        id.to_string(),
        ExternalManifest {
            name: format!("{} plugin", id),
            description: None,
            keyword: keyword.map(|k| k.to_string()),
            command: command.iter().map(|c| c.to_string()).collect(),
            icon: Some("icon-x".to_string()),
        },
        format!("/plugins/{}", id),
    )
}

#[test]
fn plugin_from_declaration() {
    let p = ext_plugin("hello", Some("  hi "), &["python3", "main.py"]);
    assert_eq!(p.keyword.as_deref(), Some("hi"));
    assert_eq!(p.description, "");
    assert_eq!(p.name, "hello plugin");
}

#[test]
fn routing() {
    let mut m = PluginManager::new("/home/u");
    assert_eq!(m.plugins_dir, "/home/u/.config/spear/plugins");
    m.external_plugins = vec![
        ext_plugin("a", None, &["a"]),
        ext_plugin("b", Some("hi"), &["b"]),
        ext_plugin("c", Some(""), &["c"]),
        ext_plugin("d", Some("hi"), &["d"]),
    ];
    match m.route("  hi   there  ") {
        QueryRoute::Keyword { plugin, query } => {
            assert_eq!(plugin, 1);
            assert_eq!(query, "there");
        }
        other => panic!("unexpected route {:?}", other),
    }
    match m.route(" hithere ") {
        QueryRoute::Everyone { query } => assert_eq!(query, "hithere"),
        other => panic!("unexpected route {:?}", other),
    }
    assert_eq!(m.global_plugins(), vec![0, 2]);
}

#[test]
fn plugin_switches() {
    let mut st = settings();
    st.calc_enabled = false;
    assert!(!PluginManager::plugin_enabled("calc", &st));
    assert!(PluginManager::plugin_enabled("web", &st));
    assert!(PluginManager::plugin_enabled("file_manager", &st));
}

#[test]
fn external_command_line() {
    let p = ext_plugin("x", None, &["python3", "main.py"]);
    let (prog, args) = PluginManager::command_line(&p, "q").unwrap();
    assert_eq!(prog, "python3");
    assert_eq!(args, vec!["main.py", "q"]);
    let empty = ext_plugin("y", None, &[]);
    assert!(PluginManager::command_line(&empty, "q").is_none());
}

#[test]
fn external_results_defaults() {
    let p = ext_plugin("hello", None, &["x"]);
    let items = vec![
        ExternalItem {
            id: None,
            title: None,
            subtitle: None,
            icon: None,
            score: None,
            actions: vec![ExternalAction { label: None, action_type: None, value: None }],
        },
        ExternalItem {
            id: Some("mine".to_string()),
            title: Some("T".to_string()),
            subtitle: Some("S".to_string()),
            icon: Some("i".to_string()),
            score: Some(4294967396),
            actions: vec![],
        },
    ];
    let r = PluginManager::external_results(&p, items);
    assert_eq!(r.len(), 2);
    assert_eq!(r[0].id, "ext-hello-0");
    assert_eq!(r[0].title, "No Title");
    assert_eq!(r[0].icon.as_deref(), Some("icon-x"));
    assert_eq!(r[0].score, 30);
    assert_eq!(r[0].category, "hello plugin");
    assert_eq!(r[0].actions[0].label, "Execute");
    assert_eq!(r[0].actions[0].action_type, "run-command");
    assert_eq!(r[0].actions[0].value, "");
    assert_eq!(r[1].id, "mine");
    assert_eq!(r[1].score, 100);
    assert_eq!(r[1].icon.as_deref(), Some("i"));
}

#[test]
fn plugin_output_is_read_into_results() {
    let p = ext_plugin("hello", None, &["x"]);
    let out = r#"[
        {"title": "Hello, Bob!", "subtitle": "greeting", "score": 77,
         "actions": [{"label": "Copy", "type": "copy-to-clipboard", "value": "Hi"}, {"label": 5}]},
        {"id": "two", "title": 12, "icon": "mail", "score": "high", "actions": "none"},
        7
    ]"#;
    let (r, err) = PluginManager::answer_for_output(&p, out);
    assert!(err.is_none());
    assert_eq!(r.len(), 3);
    assert_eq!(r[0].id, "ext-hello-0");
    assert_eq!(r[0].title, "Hello, Bob!");
    assert_eq!(r[0].subtitle.as_deref(), Some("greeting"));
    assert_eq!(r[0].icon.as_deref(), Some("icon-x"));
    assert_eq!(r[0].score, 77);
    assert_eq!(r[0].actions.len(), 2);
    assert_eq!(r[0].actions[0].label, "Copy");
    assert_eq!(r[0].actions[0].action_type, "copy-to-clipboard");
    assert_eq!(r[0].actions[0].value, "Hi");
    assert_eq!(r[0].actions[1].label, "Execute");
    assert_eq!(r[0].actions[1].action_type, "run-command");
    assert_eq!(r[1].id, "two");
    assert_eq!(r[1].title, "No Title");
    assert_eq!(r[1].icon.as_deref(), Some("mail"));
    assert_eq!(r[1].score, 30);
    assert!(r[1].actions.is_empty());
    assert_eq!(r[2].id, "ext-hello-2");
    assert_eq!(r[2].category, "hello plugin");
}

#[test]
fn plugin_output_parse_errors() {
    let p = ext_plugin("hello", None, &["x"]);
    for out in ["not json", "{\"title\": \"x\"}", ""] {
        let (r, err) = PluginManager::answer_for_output(&p, out);
        assert!(r.is_empty());
        let e = err.expect("an error message");
        assert!(e.starts_with("JSON Parse Error: "), "{}", e);
        assert!(e.len() > "JSON Parse Error: ".len());
    }
    let (r, err) = PluginManager::answer_for_output(&p, " [] ");
    assert!(r.is_empty());
    assert!(err.is_none());
}

// ---------------------------------------------------------------- settings

#[test]
fn settings_defaults() {
    let d = AppSettings::default();
    assert_eq!(d.shortcut, "<Alt>space");
    assert_eq!((d.window_width, d.window_height), (650, 480));
    assert!(d.apps_enabled && d.recent_enabled && d.file_preview_enabled);
    assert_eq!(d.command_prefix, ">");
    assert!(default_true());
    assert_eq!(default_layout_mode(), "standard");
    assert_eq!(default_web_name(), "Google");
    assert_eq!(default_web_url(), "https://google.com/search?q=");
    assert_eq!(default_file_roots(), "~/Documents, ~/Downloads, ~/Desktop");
    assert_eq!(default_cmd_prefix(), ">");
    assert_eq!(default_yt_url(), "https://youtube.com/results?search_query=");
}

#[test]
fn settings_paths_and_choices() {
    assert_eq!(AppSettings::get_config_path("/home/u"), "/home/u/.config/spear/config.json");
    assert_eq!(AppSettings::get_config_path("/home/u/"), "/home/u/.config/spear/config.json");
    assert_eq!(join_path("", "x"), "x");
    assert_eq!(color_scheme_for("dark"), ColorScheme::PreferDark);
    assert_eq!(color_scheme_for("light"), ColorScheme::PreferLight);
    assert_eq!(color_scheme_for("Dark"), ColorScheme::Default);
    assert_eq!(theme_display_name("nord"), "Nord");
    assert_eq!(theme_display_name("ßtyle"), "SStyle");
    assert_eq!(theme_display_name(""), "");
}
