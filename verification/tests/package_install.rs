use ankora::desktop::XdgApplication;
use ankora::packages::{
    checked_package_name, installed_application, package_install_command, package_install_failure,
    simulated_installed_application,
};
use ankora::shell::ProcessOutput;

#[test]
fn blank_package_names_are_refused() {
    assert_eq!(checked_package_name("   "), Err("Geçersiz paket adı.".to_string()));
    assert_eq!(checked_package_name(" vlc "), Ok("vlc".to_string()));
}

#[test]
fn installer_depends_on_the_name() {
    let deb = package_install_command("/tmp/app.deb");
    assert_eq!(deb.program, "dpkg");
    assert_eq!(deb.args, vec!["-i".to_string(), "/tmp/app.deb".to_string()]);
    let apt = package_install_command("vlc");
    assert_eq!(apt.program, "apt-get");
    assert_eq!(apt.args, vec!["install".to_string(), "-y".to_string(), "vlc".to_string()]);
}

#[test]
fn installer_failures() {
    let ok = ProcessOutput { success: true, stdout: Vec::new(), stderr: Vec::new() };
    assert_eq!(package_install_failure(&Ok(ok)), None);
    let bad = ProcessOutput { success: false, stdout: Vec::new(), stderr: b"E: locked".to_vec() };
    assert_eq!(
        package_install_failure(&Ok(bad)),
        Some("Paket kurulumu başarısız: E: locked".to_string())
    );
    assert_eq!(
        package_install_failure(&Err("denied".to_string())),
        Some("apt-get/dpkg çalıştırılamadı: denied".to_string())
    );
}

fn app(id: &str) -> XdgApplication {
    XdgApplication {
        id: id.to_string(),
        name: format!("{} app", id),
        command: id.to_string(),
        icon: String::new(),
        comment: String::new(),
        categories: Vec::new(),
        desktop_file: String::new(),
    }
}

#[test]
fn the_first_matching_launcher_is_chosen() {
    let apps = vec![app("gimp"), app("org.videolan.vlc"), app("vlc")];
    assert_eq!(installed_application(apps, "vlc").id, "org.videolan.vlc");
    let apps = vec![app("gimp"), app("code")];
    assert_eq!(installed_application(apps, "vscode").id, "code");
}

#[test]
fn a_launcher_is_made_up_when_none_matches() {
    let made = installed_application(vec![app("gimp")], "htop");
    assert_eq!(made.id, "htop");
    assert_eq!(made.name, "HTOP");
    assert_eq!(made.command, "htop");
    assert_eq!(made.icon, "application-x-executable");
    assert_eq!(made.comment, "htop paketi sisteme kuruldu.");
    assert_eq!(made.categories, vec!["Utility".to_string()]);
    assert_eq!(made.desktop_file, "/usr/share/applications/htop.desktop");
}

#[test]
fn simulated_installation() {
    let made = simulated_installed_application("nano");
    assert_eq!(made.name, "nano (Kuruldu)");
    assert_eq!(made.icon, "nano");
    assert_eq!(made.comment, "Yerel sisteme başarıyla kaydedildi.");
    assert_eq!(made.categories, vec!["System".to_string()]);
}
