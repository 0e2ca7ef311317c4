use ankora::installer::{
    installation_outcome, installation_script_for, installation_target,
    simulated_installation_message, InstallPayload,
};
use ankora::shell::ProcessOutput;

fn payload(disk: &str) -> InstallPayload {
    InstallPayload {
        target_disk: disk.to_string(),
        fullname: "Ada".to_string(),
        username: "ada".to_string(),
        hostname: "ankora".to_string(),
        password: "secret".to_string(),
        autologin: true,
    }
}

#[test]
fn target_disks_must_be_devices() {
    assert_eq!(installation_target(&payload("  /dev/sda ")), Ok("/dev/sda".to_string()));
    let err = Err("Geçerli bir hedef disk seçilmedi.".to_string());
    assert_eq!(installation_target(&payload("   ")), err);
    assert_eq!(installation_target(&payload("sda")), err);
    assert_eq!(installation_target(&payload("/dev")), err);
}

#[test]
fn the_script_fills_in_the_form() {
    let s = installation_script_for("/dev/nvme0n1", "box", "ada", "pw");
    assert!(s.starts_with("\n            set -e\n            parted -s /dev/nvme0n1 mklabel gpt\n"));
    assert!(s.contains("EFI_PART=\"/dev/nvme0n1p1\""));
    assert!(s.contains("echo \"box\" > /target/etc/hostname"));
    assert!(s.contains("echo \"ada:pw\" | chroot /target chpasswd"));
    assert!(s.contains("rsync -aAX --info=progress2 / /target/ \\\n"));
    assert!(s.ends_with("umount -R /target\n            "));
    assert!(!s.contains("{disk}"));
}

#[test]
fn installation_outcomes() {
    let ok = ProcessOutput { success: true, stdout: Vec::new(), stderr: Vec::new() };
    assert_eq!(installation_outcome(Ok(ok)), Ok("Ankora Linux başarıyla kuruldu.".to_string()));
    let bad = ProcessOutput { success: false, stdout: Vec::new(), stderr: b"mkfs failed".to_vec() };
    assert_eq!(installation_outcome(Ok(bad)), Err("Kurulum hatası: mkfs failed".to_string()));
    assert_eq!(
        installation_outcome(Err("not found".to_string())),
        Err("Kurulum yürütülemedi: not found".to_string())
    );
}

#[test]
fn simulated_installation_report() {
    assert_eq!(simulated_installation_message(&payload(" /dev/sdb")), "Kurulum tamamlandı:  /dev/sdb -> ada");
}
