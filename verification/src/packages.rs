//! Installing a Debian package: which package name is accepted, which
//! installer runs it, how a failed installer is reported, and which
//! launcher stands for the installed package.
use vstd::prelude::*;

use crate::desktop::{AppModel, XdgApplication};
use crate::shell::{ProcessOutput, ShellCommand};
use crate::text::{contains, contains_text, ends_with, ends_with_in, chars_of, trim, trim_text};
use crate::trusted::{text_from_bytes, to_upper_case, upper_case, utf8_lossy};

verus! {

/// The package name as given, trimmed; an error when nothing is left.
pub fn checked_package_name(package_name: &str) -> (r: Result<String, String>)
    ensures
        match r {
            Ok(p) => trim(package_name@).len() > 0 && p@ == trim(package_name@),
            Err(e) => trim(package_name@).len() == 0 && e@ == "Geçersiz paket adı."@,
        },
{
    let p = trim_text(package_name);
    if p.as_str().is_empty() {
        Err("Geçersiz paket adı.".to_owned())
    } else {
        Ok(p)
    }
}

/// The installer for a package: `dpkg -i` for a `.deb` file, else
/// `apt-get install -y` for a package of the archive.
pub fn package_install_command(package: &str) -> (c: ShellCommand)
    ensures
        c@ == (if ends_with(package@, ".deb"@) {
            ("dpkg"@, seq!["-i"@, package@])
        } else {
            ("apt-get"@, seq!["install"@, "-y"@, package@])
        }),
{
    let v = chars_of(package);
    let deb = chars_of(".deb");
    let is_file = ends_with_in(v.as_slice(), 0, v.len(), deb.as_slice());
    assert(v@.subrange(0, v@.len() as int) =~= v@);
    let mut args: Vec<String> = Vec::new();
    if is_file {
        args.push("-i".to_owned());
        args.push(package.to_owned());
        assert(args.deep_view() =~= seq!["-i"@, package@]);
        ShellCommand { program: "dpkg".to_owned(), args }
    } else {
        args.push("install".to_owned());
        args.push("-y".to_owned());
        args.push(package.to_owned());
        assert(args.deep_view() =~= seq!["install"@, "-y"@, package@]);
        ShellCommand { program: "apt-get".to_owned(), args }
    }
}

/// The error that a finished or failed installer run gives, if any: none
/// when the installer succeeded; its standard error when it failed; the
/// reason when it could not be started.
pub open spec fn install_failure(run: Result<ProcessOutput, String>) -> Option<Seq<char>> {
    match run {
        Ok(out) => if out.success {
            None
        } else {
            Some("Paket kurulumu başarısız: "@ + utf8_lossy(out.stderr@))
        },
        Err(e) => Some("apt-get/dpkg çalıştırılamadı: "@ + e@),
    }
}

pub fn package_install_failure(run: &Result<ProcessOutput, String>) -> (r: Option<String>)
    ensures
        match r {
            Some(m) => install_failure(*run) == Some(m@),
            None => install_failure(*run) is None,
        },
{
    match run {
        Ok(out) => {
            if out.success {
                None
            } else {
                let err = text_from_bytes(out.stderr.as_slice());
                let mut m = "Paket kurulumu başarısız: ".to_owned();
                m.append(err.as_str());
                Some(m)
            }
        },
        Err(e) => {
            let mut m = "apt-get/dpkg çalıştırılamadı: ".to_owned();
            m.append(e.as_str());
            Some(m)
        },
    }
}

/// A launcher stands for a package when its id contains the package name or
/// the package name contains its id.
pub open spec fn stands_for(id: Seq<char>, package: Seq<char>) -> bool {
    contains(id, package) || contains(package, id)
}

/// Law: a launcher whose id contains the package name anywhere, or whose id
/// is contained in the package name, stands for the package; no other does.
pub proof fn lemma_stands_for_containment(id: Seq<char>, package: Seq<char>)
    ensures
        contains(id, package) ==> stands_for(id, package),
        contains(package, id) ==> stands_for(id, package),
        !contains(id, package) && !contains(package, id) ==> !stands_for(id, package),
{
}

/// The launcher made up for an installed package that no `.desktop` file
/// stands for.
pub open spec fn installed_fallback(package: Seq<char>) -> AppModel {
    AppModel {
        id: package,
        name: upper_case(package),
        command: package,
        icon: "application-x-executable"@,
        comment: package + " paketi sisteme kuruldu."@,
        categories: seq!["Utility"@],
        desktop_file: "/usr/share/applications/"@ + package + ".desktop"@,
    }
}

/// The launcher for a package just installed: the first of the launchers
/// found afterwards that stands for it, else one made up from its name.
pub fn installed_application(found: Vec<XdgApplication>, package: &str) -> (app: XdgApplication)
    ensures
        (exists|i: int| 0 <= i < found@.len() && stands_for(#[trigger] found@[i]@.id, package@))
            ==> exists|i: int|
            0 <= i < found@.len() && stands_for(#[trigger] found@[i]@.id, package@) && (forall|j: int|
                0 <= j < i ==> !stands_for(#[trigger] found@[j]@.id, package@)) && app@ == found@[i]@,
        (forall|i: int| 0 <= i < found@.len() ==> !stands_for(#[trigger] found@[i]@.id, package@))
            ==> app@ == installed_fallback(package@),
        (exists|i: int| 0 <= i < found@.len() && contains(#[trigger] found@[i]@.id, package@))
            ==> exists|i: int| 0 <= i < found@.len() && app@ == #[trigger] found@[i]@,
{
    let ghost all = found@;
    let mut apps = found;
    let mut i: usize = 0;
    while i < apps.len()
        invariant
            apps@ == all,
            all == found@,
            i <= all.len(),
            forall|j: int| 0 <= j < i ==> !stands_for(#[trigger] all[j]@.id, package@),
        decreases all.len() - i,
    {
        if contains_text(apps[i].id.as_str(), package) || contains_text(package, apps[i].id.as_str()) {
            let app = apps.remove(i);
            assert(app == all[i as int]);
            assert(stands_for(all[i as int]@.id, package@));
            return app;
        }
        i += 1;
    }
    proof {
        assert forall|i: int| 0 <= i < found@.len() implies !contains(
            #[trigger] found@[i]@.id,
            package@,
        ) by {
            assert(!stands_for(all[i]@.id, package@));
        }
    }
    let mut comment = package.to_owned();
    comment.append(" paketi sisteme kuruldu.");
    let mut desktop_file = "/usr/share/applications/".to_owned();
    desktop_file.append(package);
    desktop_file.append(".desktop");
    let mut categories: Vec<String> = Vec::new();
    categories.push("Utility".to_owned());
    assert(categories.deep_view() =~= seq!["Utility"@]);
    XdgApplication {
        id: package.to_owned(),
        name: to_upper_case(package),
        command: package.to_owned(),
        icon: "application-x-executable".to_owned(),
        comment,
        categories,
        desktop_file,
    }
}

/// The launcher reported where packages are not really installed (on
/// systems other than Linux).
pub open spec fn simulated_install(package: Seq<char>) -> AppModel {
    AppModel {
        id: package,
        name: package + " (Kuruldu)"@,
        command: package,
        icon: package,
        comment: "Yerel sisteme başarıyla kaydedildi."@,
        categories: seq!["System"@],
        desktop_file: "/usr/share/applications/"@ + package + ".desktop"@,
    }
}

pub fn simulated_installed_application(package: &str) -> (app: XdgApplication)
    ensures
        app@ == simulated_install(package@),
{
    let mut name = package.to_owned();
    name.append(" (Kuruldu)");
    let mut desktop_file = "/usr/share/applications/".to_owned();
    desktop_file.append(package);
    desktop_file.append(".desktop");
    let mut categories: Vec<String> = Vec::new();
    categories.push("System".to_owned());
    assert(categories.deep_view() =~= seq!["System"@]);
    XdgApplication {
        id: package.to_owned(),
        name,
        command: package.to_owned(),
        icon: package.to_owned(),
        comment: "Yerel sisteme başarıyla kaydedildi.".to_owned(),
        categories,
        desktop_file,
    }
}

} // verus!
