use ankora::desktop::{
    add_application, gather_applications, application_search_dirs, is_desktop_file, parse_desktop_entry,
    preview_applications, XdgApplication,
};

const FIREFOX: &str = "[Desktop Entry]\n\
Name=Firefox\n\
Name=Ignored Later Name\n\
Exec=firefox %u\n\
Icon=firefox\n\
Comment=Browse the web\n\
Categories=Network;WebBrowser;\n\
\n\
[Desktop Action new-window]\n\
Name=New Window\n\
Exec=firefox --new-window\n";

#[test]
fn parses_a_desktop_entry() {
    let app = parse_desktop_entry("/usr/share/applications/firefox.desktop", FIREFOX).unwrap();
    assert_eq!(app.id, "firefox");
    assert_eq!(app.name, "Firefox");
    assert_eq!(app.command, "firefox");
    assert_eq!(app.icon, "firefox");
    assert_eq!(app.comment, "Browse the web");
    assert_eq!(app.categories, vec!["Network".to_string(), "WebBrowser".to_string()]);
    assert_eq!(app.desktop_file, "/usr/share/applications/firefox.desktop");
}

#[test]
fn hidden_entries_are_skipped() {
    let text = "[Desktop Entry]\nName=Hidden\nExec=hidden\nNoDisplay=TRUE\n";
    assert!(parse_desktop_entry("/x/hidden.desktop", text).is_none());
    let shown = "[Desktop Entry]\nName=Shown\nExec=shown\nNoDisplay=false\n";
    assert!(parse_desktop_entry("/x/shown.desktop", shown).is_some());
}

#[test]
fn entries_without_name_or_command_are_skipped() {
    assert!(parse_desktop_entry("/x/a.desktop", "[Desktop Entry]\nExec=a\n").is_none());
    assert!(parse_desktop_entry("/x/a.desktop", "[Desktop Entry]\nName=A\n").is_none());
    assert!(parse_desktop_entry("/x/a.desktop", "Name=A\nExec=a\n").is_none());
    assert!(parse_desktop_entry("/x/a.desktop", "[Desktop Entry]\nName=\nExec=%f\n").is_none());
}

#[test]
fn keys_outside_the_entry_group_are_ignored() {
    let text = "[Other]\nName=Wrong\n[Desktop Entry]\r\n  Name = Right  \r\nExec=  run --flag %F  \r\n[Next]\nIcon=late\n";
    let app = parse_desktop_entry("/apps/right.desktop", text).unwrap();
    assert_eq!(app.name, "Right");
    assert_eq!(app.command, "run --flag");
    assert_eq!(app.icon, "");
}

#[test]
fn later_categories_replace_earlier_ones() {
    let text = "[Desktop Entry]\nName=A\nExec=a\nCategories=One;Two\nCategories=;;Three;;\n";
    let app = parse_desktop_entry("/apps/a.desktop", text).unwrap();
    assert_eq!(app.categories, vec!["Three".to_string()]);
}

#[test]
fn only_desktop_extension_counts() {
    assert!(is_desktop_file("/usr/share/applications/vlc.desktop"));
    assert!(!is_desktop_file("/usr/share/applications/vlc.Desktop"));
    assert!(!is_desktop_file("/usr/share/applications/vlc"));
    assert!(!is_desktop_file("/usr/share/applications/.desktop"));
}

fn app(id: &str) -> XdgApplication {
    XdgApplication {
        id: id.to_string(),
        name: id.to_uppercase(),
        command: id.to_string(),
        icon: String::new(),
        comment: String::new(),
        categories: Vec::new(),
        desktop_file: format!("/apps/{}.desktop", id),
    }
}

#[test]
fn the_first_launcher_of_an_id_stays() {
    let mut apps = Vec::new();
    assert!(add_application(&mut apps, app("vlc")));
    assert!(add_application(&mut apps, app("gimp")));
    let mut again = app("vlc");
    again.name = "Second".to_string();
    assert!(!add_application(&mut apps, again));
    assert_eq!(apps.len(), 2);
    assert_eq!(apps[0].name, "VLC");
    assert_eq!(apps[1].id, "gimp");
}

#[test]
fn search_dirs_end_with_the_user_directory() {
    let dirs = application_search_dirs(Some("/home/u/.local/share".to_string()));
    assert_eq!(dirs[0], "/usr/share/applications");
    assert_eq!(dirs[1], "/usr/local/share/applications");
    assert_eq!(dirs[2], "/var/lib/flatpak/exports/share/applications");
    assert_eq!(dirs[3], "/home/u/.local/share/applications");
    assert_eq!(application_search_dirs(None)[3], "");
}

#[test]
fn preview_lists_five_launchers() {
    let apps = preview_applications();
    assert_eq!(apps.len(), 5);
    assert_eq!(apps[0].id, "firefox-esr");
    assert_eq!(apps[1].icon, "vscode");
    assert_eq!(apps[4].categories, vec!["System".to_string(), "Monitor".to_string()]);
}

#[test]
fn gathering_keeps_the_first_launcher_of_each_id() {
    let mut second = app("vlc");
    second.name = "Later".to_string();
    let apps = gather_applications(vec![app("vlc"), app("gimp"), second, app("code")]);
    let ids: Vec<&str> = apps.iter().map(|a| a.id.as_str()).collect();
    assert_eq!(ids, vec!["vlc", "gimp", "code"]);
    assert_eq!(apps[0].name, "VLC");
}

#[test]
fn lines_outside_the_entry_group_change_nothing() {
    let plain = "[Desktop Entry]\nName=A\nExec=a\n[Other]\nIcon=x\n";
    let noisy = "# comment\nName=Early\n[Header]\nExec=early\n[Desktop Entry]\nName=A\nExec=a\n[Other]\nIcon=x\nNoDisplay=true\nCategories=Z\n";
    let a = parse_desktop_entry("/p/a.desktop", plain).unwrap();
    let b = parse_desktop_entry("/p/a.desktop", noisy).unwrap();
    assert_eq!(a.name, b.name);
    assert_eq!(a.command, b.command);
    assert_eq!(a.icon, b.icon);
    assert_eq!(a.categories, b.categories);
}

#[test]
fn categories_are_non_empty_without_separators() {
    let text = "[Desktop Entry]\nName=  Spaced  \nExec=x\nCategories=;A;;B C;\n";
    let app = parse_desktop_entry("/p/x.desktop", text).unwrap();
    assert_eq!(app.name, "Spaced");
    assert_eq!(app.categories, vec!["A".to_string(), "B C".to_string()]);
}
