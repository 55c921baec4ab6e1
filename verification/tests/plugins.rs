use punktfunk::plugins::manifest::{
    expand_home, for_provider, grant_root, granted_roots, home_dir, installed, param_ok, Grants,
    ParamKind, PluginManifest,
};
use punktfunk::plugins::paths::PathRules::{Posix, Windows};
use punktfunk::plugins::paths::{absolute, has_parent_part, is_under, join_path};
use punktfunk::plugins::{
    elevation_for, plugin_command, plugins_dir_arg, restart_wanted, status_text, unknown_command,
    PluginCommand, RuntimeStatus,
};

use std::collections::BTreeMap;

fn texts(v: &[&str]) -> Vec<String> {
    v.iter().map(|s| s.to_string()).collect()
}

fn named(id: &str, schema: u32, reads: &[&str]) -> PluginManifest {
    PluginManifest {
        schema,
        id: id.to_string(),
        reads: texts(reads),
        writes: vec![],
        network: false,
        templates: BTreeMap::new(),
    }
}

fn manifest(reads: &[&str]) -> PluginManifest {
    named("demo-no-grants", 1, reads)
}

#[test]
fn params_take_only_their_own_shape() {
    assert!(param_ok(ParamKind::Name, "Hollow Knight: Silksong", Posix));
    assert!(param_ok(ParamKind::Name, "Sam & Max #2", Posix));
    // Shell syntax is harmless in one quoted argv element; a newline or a leading dash is not.
    assert!(param_ok(ParamKind::Name, "a; rm -rf /", Posix));
    assert!(!param_ok(ParamKind::Name, "two\nlines", Posix));
    assert!(!param_ok(ParamKind::Name, "--output=/etc/passwd", Posix));
    assert!(!param_ok(ParamKind::Path, "-/games/x.sfc", Posix));
    assert!(param_ok(ParamKind::Id, "snes9x_libretro", Posix));
    assert!(!param_ok(ParamKind::Id, "../etc/passwd", Posix));
    assert!(param_ok(ParamKind::Digits, "440", Posix));
    assert!(!param_ok(ParamKind::Digits, "44 0", Posix));
    assert!(param_ok(ParamKind::Args, "--fullscreen", Posix));
    assert!(!param_ok(ParamKind::Args, "--x\ny", Posix));
    assert!(param_ok(ParamKind::Path, "/games/rom.sfc", Posix));
    assert!(!param_ok(ParamKind::Path, "rom.sfc", Posix));
    assert!(!param_ok(ParamKind::Path, "", Posix));
}

#[test]
fn confinement_refuses_traversal_and_foreign_roots() {
    let m = manifest(&["/games", "/opt/emu"]);
    assert!(m.confines("/games/snes/rom.sfc", None, None, Posix));
    assert!(m.confines("/opt/emu/cores/x.so", None, None, Posix));
    assert!(!m.confines("/etc/shadow", None, None, Posix));
    assert!(!m.confines("/games/../etc/shadow", None, None, Posix));
    assert!(!m.confines("relative/path", None, None, Posix));
}

#[test]
fn lengths_are_counted_in_bytes() {
    assert!(param_ok(ParamKind::Name, &"é".repeat(64), Posix));
    assert!(!param_ok(ParamKind::Name, &"é".repeat(65), Posix));
    assert!(param_ok(ParamKind::Args, &"x".repeat(256), Posix));
    assert!(!param_ok(ParamKind::Args, &"x".repeat(257), Posix));
    assert!(param_ok(ParamKind::Digits, &"7".repeat(32), Posix));
    assert!(!param_ok(ParamKind::Digits, &"7".repeat(33), Posix));
    assert!(!param_ok(ParamKind::Name, "bell\u{7}", Posix));
    assert!(!param_ok(ParamKind::Name, "\u{85}", Posix));
}

#[test]
fn roots_compare_by_whole_components() {
    assert!(is_under(Posix, "/games/snes", "/games"));
    assert!(is_under(Posix, "/games", "/games/"));
    assert!(!is_under(Posix, "/gamesx", "/games"));
    assert!(is_under(Posix, "/games//snes/./x", "/games/snes"));
    let m = manifest(&["~/roms"]);
    assert!(m.confines("/home/ada/roms/a", None, Some("/home/ada"), Posix));
    assert!(!m.confines("/home/ada/roms/a", None, None, Posix));
    assert!(m.confines_with("/mnt/x", &texts(&["/mnt"]), None, Posix));
    assert_eq!(
        m.roots_with(&texts(&["/mnt", "~/more"]), Some("/home/ada"), Posix),
        texts(&["/home/ada/roms", "/mnt", "/home/ada/more"])
    );
}

#[test]
fn a_home_is_needed_only_for_a_tilde() {
    assert_eq!(home_dir(Some("")), None);
    assert_eq!(home_dir(Some("/home/ada")), Some("/home/ada"));
    assert_eq!(home_dir(None), None);
    assert_eq!(expand_home("~/x", Some("/h"), Posix), Some("/h/x".to_string()));
    assert_eq!(expand_home("~/x", None, Posix), None);
    assert_eq!(expand_home("/x", None, Posix), Some("/x".to_string()));
}

#[test]
fn windows_paths_go_by_windows_rules() {
    for p in [
        r"C:\games\x",
        "C:/games/x",
        r"\\server\share",
        "//server/share/x",
        r"\\?\C:\games",
        r"\\?\C:",
        r"\\?\UNC\server\share\x",
        r"\\?\pipe",
        r"\\.\COM42",
    ] {
        assert!(absolute(Windows, p), "{p}");
        assert!(param_ok(ParamKind::Path, p, Windows), "{p}");
    }
    for p in ["", "C:games", "C:", r"\games", "/games", r"\\server", "games", "1:/x", "é:/x"] {
        assert!(!absolute(Windows, p), "{p}");
    }
    assert!(absolute(Posix, "/games"));
    assert!(!absolute(Posix, r"C:\games"));

    // Either slash, either case of a drive; names as they are.
    assert!(is_under(Windows, "c:/games/snes//x", r"C:\games\.\snes\"));
    assert!(!is_under(Windows, r"C:\gamesx", r"C:\games"));
    assert!(!is_under(Windows, r"C:\Games\x", r"C:\games"));
    assert!(!is_under(Windows, r"D:\games\x", r"C:\games"));
    assert!(!is_under(Windows, r"C:games", r"C:\"));
    assert!(is_under(Windows, r"\\server/share\x\y", "//server/share/x"));
    assert!(is_under(Windows, r"\\server\share", r"\\server\share\"));
    assert!(!is_under(Windows, r"\\server\other\x", r"\\server\share"));
    assert!(!is_under(Windows, r"\\?\C:\x", r"C:\x"));
    // In a verbatim path only the backslash separates, and a dot stands.
    assert!(is_under(Windows, r"\\?\C:\a\b", r"\\?\c:\a"));
    assert!(!is_under(Windows, r"\\?\C:\a/b", r"\\?\C:\a"));
    assert!(!is_under(Windows, r"\\?\C:\.\a", r"\\?\C:\a"));
    assert!(is_under(Windows, r"\\?\UNC\s\h\a", r"\\?\UNC\s\h"));

    assert!(has_parent_part(Windows, r"C:\games\..\x"));
    assert!(has_parent_part(Windows, "C:/games/../x"));
    assert!(!has_parent_part(Windows, r"C:\games\..x"));
    assert!(!has_parent_part(Posix, r"/games\..\x"));

    let m = manifest(&[r"C:\games", "~/roms"]);
    let home = Some(r"C:\Users\ada");
    assert!(m.confines(r"c:\games\x.sfc", None, home, Windows));
    assert!(m.confines("C:/Users/ada/roms/x", None, home, Windows));
    assert!(!m.confines(r"C:\games\..\secret", None, home, Windows));
    assert!(!m.confines(r"\games\x", None, home, Windows));
    assert!(!m.confines(r"C:\games\x", None, home, Posix));
    assert_eq!(
        m.roots(None, home, Windows),
        texts(&[r"C:\games", r"C:\Users\ada\roms"])
    );
}

#[test]
fn windows_paths_are_joined_by_windows_rules() {
    let j = |a: &str, b: &str| join_path(Windows, a, b);
    assert_eq!(j(r"C:\Users\ada", "roms/x"), r"C:\Users\ada\roms/x");
    assert_eq!(j(r"C:\Users\ada/", "x"), r"C:\Users\ada/x");
    assert_eq!(j("C:", "x"), "C:x");
    assert_eq!(j("", "x"), "x");
    assert_eq!(j(r"C:\a", r"D:x"), "D:x");
    assert_eq!(j(r"C:\a", r"\x"), r"C:\x");
    assert_eq!(j(r"\\s\h\a", "/x"), r"\\s\h/x");
    assert_eq!(j(r"\\s\h", "x"), r"\\s\h\x");
    assert_eq!(j(r"\\?\C:\a\b", "./../x/y"), r"\\?\C:\a\x\y");
    assert_eq!(j(r"\\?\C:\a", "../../.."), r"\\?\C:\");
    assert_eq!(j(r"\\?\C:\a", "/x"), r"\\?\C:\x");
    assert_eq!(j(r"\\?\C:", "x"), r"\\?\C:\x");
    assert_eq!(j(r"\\?\C:\a\", ""), r"\\?\C:\a\");
    assert_eq!(join_path(Posix, "/a", "b"), "/a/b");
    assert_eq!(join_path(Posix, "/a/", "b"), "/a/b");
    assert_eq!(join_path(Posix, "/a", "/b"), "/b");
    assert_eq!(join_path(Posix, "", "b"), "b");
}

#[test]
fn the_last_usable_manifest_of_an_id_stands() {
    let found = vec![
        named("a", 1, &[]),
        named("b", 2, &[]),
        named("", 1, &[]),
        named("a", 1, &["/x"]),
        named("c", 1, &[]),
    ];
    assert_eq!(installed(&found), vec![3, 4]);
    assert_eq!(for_provider(&found, "a"), Some(3));
    assert_eq!(for_provider(&found, "b"), None);
    assert_eq!(for_provider(&found, "zz"), None);
}

#[test]
fn a_grant_is_kept_once_and_stays_with_its_plugin() {
    let mut g = Grants { entries: vec![] };
    g.add_root("emu", "/mnt/a");
    g.add_root("other", "/mnt/z");
    g.add_root("emu", "/mnt/b");
    g.add_root("emu", "/mnt/a");
    assert_eq!(g.granted_to("emu"), texts(&["/mnt/a", "/mnt/b"]));
    assert_eq!(g.granted_to("other"), texts(&["/mnt/z"]));
    assert_eq!(g.granted_to("nobody"), texts(&[]));
}

#[test]
fn the_grants_file_says_what_a_plugin_may_reach() {
    let file = r#"{"emu":["/mnt/a","~/roms"],"other":["/srv"]}"#;
    let home = Some("/home/ada");
    assert_eq!(
        granted_roots(Some(file), "emu", home, Posix),
        texts(&["/mnt/a", "/home/ada/roms"])
    );
    // What cannot be filled in is dropped.
    assert_eq!(granted_roots(Some(file), "emu", None, Posix), texts(&["/mnt/a"]));
    assert_eq!(granted_roots(Some(file), "nobody", home, Posix), texts(&[]));
    assert_eq!(granted_roots(None, "emu", home, Posix), texts(&[]));
    for unreadable in ["", "not json", r#"{"emu":"/mnt/a"}"#, r#"["emu"]"#] {
        assert_eq!(granted_roots(Some(unreadable), "emu", home, Posix), texts(&[]));
        assert!(Grants::read(unreadable).is_none());
        assert!(Grants::parse(unreadable).entries.is_empty());
    }
    let m = named("emu", 1, &["/games"]);
    assert!(m.confines("/mnt/a/x", Some(file), home, Posix));
    assert!(m.confines("/games/x", Some(file), home, Posix));
    assert!(!m.confines("/srv/x", Some(file), home, Posix));
    assert!(!m.confines("/mnt/a/x", None, home, Posix));
    assert_eq!(
        m.roots(Some(file), home, Posix),
        texts(&["/games", "/mnt/a", "/home/ada/roms"])
    );
}

#[test]
fn a_grant_is_written_and_read_back() {
    let first = grant_root(None, "emu", "/mnt/\"a\"\n");
    assert_eq!(first.all, texts(&["/mnt/\"a\"\n"]));
    assert_eq!(
        first.body,
        "{\n  \"emu\": [\n    \"/mnt/\\\"a\\\"\\n\"\n  ]\n}"
    );
    let second = grant_root(Some(&first.body), "alpha", "~/x");
    assert_eq!(second.all, texts(&["~/x"]));
    let third = grant_root(Some(&second.body), "alpha", "~/x");
    assert_eq!(third.all, texts(&["~/x"]));
    assert_eq!(third.body, second.body);
    let back = Grants::parse(&third.body);
    // Written in the order of the ids.
    let ids: Vec<&str> = back.entries.iter().map(|e| e.0.as_str()).collect();
    assert_eq!(ids, ["alpha", "emu"]);
    assert_eq!(back.granted_to("emu"), texts(&["/mnt/\"a\"\n"]));
    assert_eq!(back.granted_to("alpha"), texts(&["~/x"]));
    // A file that cannot be read is written anew.
    assert_eq!(
        grant_root(Some("not json"), "emu", "/a").body,
        "{\n  \"emu\": [\n    \"/a\"\n  ]\n}"
    );
}

#[test]
fn commands_and_what_they_need() {
    let c = |w: &str| plugin_command(&texts(&[w]));
    assert_eq!(c("list"), PluginCommand::Package { listing: true });
    assert_eq!(c("rm"), PluginCommand::Package { listing: false });
    assert_eq!(c("enable"), PluginCommand::Enable);
    assert_eq!(c("grant"), PluginCommand::Grant);
    assert_eq!(c("--help"), PluginCommand::Help);
    assert_eq!(c("frobnicate"), PluginCommand::Unknown);
    assert_eq!(plugin_command(&vec![]), PluginCommand::Help);
    assert_eq!(elevation_for(c("ls")), None);
    assert_eq!(elevation_for(c("add")), Some("installing or removing plugins"));
    assert_eq!(elevation_for(c("disable")), Some("disabling the plugin runner"));
    assert_eq!(
        unknown_command("x"),
        "unknown plugins command 'x' (try `plugins --help`)"
    );
    assert_eq!(
        plugins_dir_arg(&texts(&["add", "x", "--plugins", "/srv/p"])),
        Some("/srv/p".to_string())
    );
    assert_eq!(plugins_dir_arg(&texts(&["add", "--plugins"])), None);
}

#[test]
fn the_status_says_how_to_start_a_stopped_runner() {
    let mut st = RuntimeStatus {
        installed: true,
        enabled: false,
        running: false,
        unit: "punktfunk-scripting.service".to_string(),
        principal: Some("ada".to_string()),
        detail: "get the package".to_string(),
    };
    assert_eq!(
        status_text(&st),
        "runner:  punktfunk-scripting.service\nstate:   stopped\nenabled: false\nruns as: ada\n\nStart it with: punktfunk-host plugins enable\n"
    );
    assert!(!restart_wanted(&st));
    st.enabled = true;
    assert!(restart_wanted(&st));
    st.installed = false;
    st.principal = None;
    assert_eq!(
        status_text(&st),
        "runner:  punktfunk-scripting.service\nstate:   not installed\nenabled: true\n\nget the package\n"
    );
    assert!(!restart_wanted(&st));
}
