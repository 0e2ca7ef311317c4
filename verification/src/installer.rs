//! Installing the system onto a disk: which target disk is accepted, the
//! script that partitions, copies and configures it, and how its run is
//! reported.
use vstd::prelude::*;

use crate::shell::{text_result, ProcessOutput};
use crate::text::{chars_of, contains, lemma_occurs_contains, starts_with, starts_with_in, trim, trim_text};
use crate::trusted::{text_from_bytes, utf8_lossy};

verus! {

/// What the installer form sends.
pub struct InstallPayload {
    pub target_disk: String,
    pub fullname: String,
    pub username: String,
    pub hostname: String,
    pub password: String,
    pub autologin: bool,
}

/// The target disk, trimmed; an error unless it names a device under
/// `/dev/`.
pub fn installation_target(payload: &InstallPayload) -> (r: Result<String, String>)
    ensures
        match r {
            Ok(t) => t@ == trim(payload.target_disk@) && trim(payload.target_disk@).len() > 0
                && starts_with(trim(payload.target_disk@), "/dev/"@),
            Err(e) => (trim(payload.target_disk@).len() == 0 || !starts_with(
                trim(payload.target_disk@),
                "/dev/"@,
            )) && e@ == "Geçerli bir hedef disk seçilmedi."@,
        },
{
    let t = trim_text(payload.target_disk.as_str());
    let v = chars_of(t.as_str());
    let dev = chars_of("/dev/");
    assert(v@.subrange(0, v@.len() as int) =~= v@);
    if v.len() == 0 || !starts_with_in(v.as_slice(), 0, v.len(), dev.as_slice()) {
        Err("Geçerli bir hedef disk seçilmedi.".to_owned())
    } else {
        Ok(t)
    }
}

/// The shell script that installs the system onto `disk`: a GPT table with
/// an EFI partition and a root partition (named with a `p` before the
/// number on NVMe disks), their file systems, a copy of the running system,
/// the host name, the user and password, and the boot loader.
pub open spec fn installation_script(disk: Seq<char>, hostname: Seq<char>, username: Seq<char>, password: Seq<char>) -> Seq<char> {
    r#"
            set -e
            parted -s "#@
        + disk
        + r#" mklabel gpt
            parted -s "#@
        + disk
        + r#" mkpart ESP fat32 1MiB 513MiB
            parted -s "#@
        + disk
        + r#" set 1 esp on
            parted -s "#@
        + disk
        + r#" mkpart primary ext4 513MiB 100%

            EFI_PART=""#@
        + disk
        + r#"1"
            ROOT_PART=""#@
        + disk
        + r#"2"
            if [[ ""#@
        + disk
        + r#"" =~ "nvme" ]]; then
                EFI_PART=""#@
        + disk
        + r#"p1"
                ROOT_PART=""#@
        + disk
        + r#"p2"
            fi

            mkfs.vfat -F32 "$EFI_PART"
            mkfs.ext4 -F "$ROOT_PART"

            mkdir -p /target
            mount "$ROOT_PART" /target
            mkdir -p /target/boot/efi
            mount "$EFI_PART" /target/boot/efi

            rsync -aAX --info=progress2 / /target/ \
                --exclude=/proc/* --exclude=/sys/* --exclude=/dev/* \
                --exclude=/tmp/* --exclude=/run/* --exclude=/mnt/* \
                --exclude=/media/* --exclude=/target/* --exclude=/home/*

            echo ""#@
        + hostname
        + r#"" > /target/etc/hostname
            chroot /target useradd -m -s /bin/bash -G sudo,audio,video,plugdev ""#@
        + username
        + r#"" || true
            echo ""#@
        + username
        + r#":"#@
        + password
        + r#"" | chroot /target chpasswd

            chroot /target grub-install --target=x86_64-efi --efi-directory=/boot/efi --bootloader-id=Ankora --recheck
            chroot /target update-grub

            umount -R /target
            "#@
}

/// Law: the script gives the target disk a GPT partition table, makes its
/// first partition the EFI system partition (FAT32, from 1 MiB to 513 MiB,
/// flagged `esp`), and only then the root partition.
pub proof fn lemma_script_partition_table(
    disk: Seq<char>,
    hostname: Seq<char>,
    username: Seq<char>,
    password: Seq<char>,
)
    ensures
        contains(installation_script(disk, hostname, username, password), "parted -s "@ + disk + " mklabel gpt"@),
        contains(
            installation_script(disk, hostname, username, password),
            "parted -s "@ + disk + " mkpart ESP fat32 1MiB 513MiB"@,
        ),
        contains(installation_script(disk, hostname, username, password), "parted -s "@ + disk + " set 1 esp on"@),
{
    let s = installation_script(disk, hostname, username, password);
    reveal_strlit(r#"
            set -e
            parted -s "#);
    reveal_strlit(r#" mklabel gpt
            parted -s "#);
    reveal_strlit(r#" mkpart ESP fat32 1MiB 513MiB
            parted -s "#);
    reveal_strlit(r#" set 1 esp on
            parted -s "#);
    reveal_strlit("parted -s ");
    reveal_strlit(" mklabel gpt");
    reveal_strlit(" mkpart ESP fat32 1MiB 513MiB");
    reveal_strlit(" set 1 esp on");
    let a1 = r#"
            set -e
            parted -s "#@ + disk + r#" mklabel gpt
            parted -s "#@;
    let a2 = a1 + disk + r#" mkpart ESP fat32 1MiB 513MiB
            parted -s "#@;
    let g = "parted -s "@ + disk + " mklabel gpt"@;
    let e = "parted -s "@ + disk + " mkpart ESP fat32 1MiB 513MiB"@;
    let f = "parted -s "@ + disk + " set 1 esp on"@;
    assert(s.subrange(32, 32 + g.len() as int) =~= g);
    lemma_occurs_contains(s, g, 32);
    let i1: int = a1.len() - 10;
    assert(s.subrange(i1, i1 + e.len()) =~= e);
    lemma_occurs_contains(s, e, i1);
    let i2: int = a2.len() - 10;
    assert(s.subrange(i2, i2 + f.len()) =~= f);
    lemma_occurs_contains(s, f, i2);
}

/// Law: the script names two different partitions of the target disk: the
/// EFI partition is the first one made (`<disk>1`, or `<disk>p1` on NVMe
/// disks) and the root partition the second, the ext4 one that fills the
/// rest of the disk (`<disk>2`, or `<disk>p2`). The first is formatted as
/// FAT32 and mounted at `/target/boot/efi`, the second as ext4 and mounted
/// at `/target`; the host name, the user and the password written are those
/// given.
#[verifier::rlimit(60)]
pub proof fn lemma_script_partitions(
    disk: Seq<char>,
    hostname: Seq<char>,
    username: Seq<char>,
    password: Seq<char>,
)
    ensures
        contains(
            installation_script(disk, hostname, username, password),
            "parted -s "@ + disk + " mkpart primary ext4 513MiB 100%"@,
        ),
        contains(installation_script(disk, hostname, username, password), "EFI_PART=\""@ + disk + "1\""@),
        contains(installation_script(disk, hostname, username, password), "ROOT_PART=\""@ + disk + "2\""@),
        contains(installation_script(disk, hostname, username, password), "EFI_PART=\""@ + disk + "p1\""@),
        contains(installation_script(disk, hostname, username, password), "ROOT_PART=\""@ + disk + "p2\""@),
        contains(installation_script(disk, hostname, username, password), "mkfs.vfat -F32 \"$EFI_PART\""@),
        contains(installation_script(disk, hostname, username, password), "mkfs.ext4 -F \"$ROOT_PART\""@),
        contains(installation_script(disk, hostname, username, password), "mount \"$ROOT_PART\" /target"@),
        contains(
            installation_script(disk, hostname, username, password),
            "mount \"$EFI_PART\" /target/boot/efi"@,
        ),
        contains(
            installation_script(disk, hostname, username, password),
            "echo \""@ + hostname + "\" > /target/etc/hostname"@,
        ),
        contains(
            installation_script(disk, hostname, username, password),
            "plugdev \""@ + username + "\" || true"@,
        ),
        contains(
            installation_script(disk, hostname, username, password),
            "echo \""@ + username + ":"@ + password + "\" | chroot /target chpasswd"@,
        ),
{
    let s = installation_script(disk, hostname, username, password);
    let head = r#"
            set -e
            parted -s "#@
        + disk
        + r#" mklabel gpt
            parted -s "#@
        + disk
        + r#" mkpart ESP fat32 1MiB 513MiB
            parted -s "#@
        + disk
        + r#" set 1 esp on
            parted -s "#@;
    let l4 = r#" mkpart primary ext4 513MiB 100%

            EFI_PART=""#@;
    let l5 = r#"1"
            ROOT_PART=""#@;
    let l6 = r#"2"
            if [[ ""#@;
    let l7 = r#"" =~ "nvme" ]]; then
                EFI_PART=""#@;
    let l8 = r#"p1"
                ROOT_PART=""#@;
    reveal_strlit(r#" set 1 esp on
            parted -s "#);
    reveal_strlit(r#" mkpart primary ext4 513MiB 100%

            EFI_PART=""#);
    reveal_strlit(r#"1"
            ROOT_PART=""#);
    reveal_strlit(r#"2"
            if [[ ""#);
    reveal_strlit(r#"" =~ "nvme" ]]; then
                EFI_PART=""#);
    reveal_strlit(r#"p1"
                ROOT_PART=""#);
    reveal_strlit(r#"p2"
            fi

            mkfs.vfat -F32 "$EFI_PART"
            mkfs.ext4 -F "$ROOT_PART"

            mkdir -p /target
            mount "$ROOT_PART" /target
            mkdir -p /target/boot/efi
            mount "$EFI_PART" /target/boot/efi

            rsync -aAX --info=progress2 / /target/ \
                --exclude=/proc/* --exclude=/sys/* --exclude=/dev/* \
                --exclude=/tmp/* --exclude=/run/* --exclude=/mnt/* \
                --exclude=/media/* --exclude=/target/* --exclude=/home/*

            echo ""#);
    reveal_strlit("parted -s ");
    reveal_strlit(" mkpart primary ext4 513MiB 100%");
    reveal_strlit("EFI_PART=\"");
    reveal_strlit("ROOT_PART=\"");
    reveal_strlit("1\"");
    reveal_strlit("2\"");
    reveal_strlit("p1\"");
    reveal_strlit("p2\"");
    let a4 = head + disk + l4;
    let a5 = a4 + disk + l5;
    let a6 = a5 + disk + l6;
    let a7 = a6 + disk + l7;
    let a8 = a7 + disk + l8;
    let mk = "parted -s "@ + disk + " mkpart primary ext4 513MiB 100%"@;
    let p1 = "EFI_PART=\""@ + disk + "1\""@;
    let p2 = "ROOT_PART=\""@ + disk + "2\""@;
    let q1 = "EFI_PART=\""@ + disk + "p1\""@;
    let q2 = "ROOT_PART=\""@ + disk + "p2\""@;
    let i0 = head.len() - 10;
    assert(s.subrange(i0, i0 + mk.len()) =~= mk);
    lemma_occurs_contains(s, mk, i0);
    let i1 = a4.len() - 10;
    assert(s.subrange(i1, i1 + p1.len()) =~= p1);
    lemma_occurs_contains(s, p1, i1);
    let i2 = a5.len() - 11;
    assert(s.subrange(i2, i2 + p2.len()) =~= p2);
    lemma_occurs_contains(s, p2, i2);
    let i3 = a7.len() - 10;
    assert(s.subrange(i3, i3 + q1.len()) =~= q1);
    lemma_occurs_contains(s, q1, i3);
    let i4 = a8.len() - 11;
    assert(s.subrange(i4, i4 + q2.len()) =~= q2);
    lemma_occurs_contains(s, q2, i4);
    reveal_strlit(r#"" > /target/etc/hostname
            chroot /target useradd -m -s /bin/bash -G sudo,audio,video,plugdev ""#);
    reveal_strlit(r#"" || true
            echo ""#);
    reveal_strlit(":");
    reveal_strlit(r#"" | chroot /target chpasswd

            chroot /target grub-install --target=x86_64-efi --efi-directory=/boot/efi --bootloader-id=Ankora --recheck
            chroot /target update-grub

            umount -R /target
            "#);
    reveal_strlit("mkfs.vfat -F32 \"$EFI_PART\"");
    reveal_strlit("mkfs.ext4 -F \"$ROOT_PART\"");
    reveal_strlit("mount \"$ROOT_PART\" /target");
    reveal_strlit("mount \"$EFI_PART\" /target/boot/efi");
    reveal_strlit("echo \"");
    reveal_strlit("\" > /target/etc/hostname");
    reveal_strlit("plugdev \"");
    reveal_strlit("\" || true");
    reveal_strlit("\" | chroot /target chpasswd");
    let b8: int = (a8 + disk).len() as int;
    let f1 = "mkfs.vfat -F32 \"$EFI_PART\""@;
    let f2 = "mkfs.ext4 -F \"$ROOT_PART\""@;
    let m2 = "mount \"$ROOT_PART\" /target"@;
    let m1 = "mount \"$EFI_PART\" /target/boot/efi"@;
    assert(s.subrange(b8 + 32, b8 + 32 + f1.len()) =~= f1);
    lemma_occurs_contains(s, f1, b8 + 32);
    assert(s.subrange(b8 + 71, b8 + 71 + f2.len()) =~= f2);
    lemma_occurs_contains(s, f2, b8 + 71);
    assert(s.subrange(b8 + 139, b8 + 139 + m2.len()) =~= m2);
    lemma_occurs_contains(s, m2, b8 + 139);
    assert(s.subrange(b8 + 216, b8 + 216 + m1.len()) =~= m1);
    lemma_occurs_contains(s, m1, b8 + 216);
    let b9: int = b8 + 536;
    let h = "echo \""@ + hostname + "\" > /target/etc/hostname"@;
    assert(s.subrange(b9 - 6, b9 - 6 + h.len()) =~= h);
    lemma_occurs_contains(s, h, b9 - 6);
    let b10: int = b9 + hostname.len() + 105;
    let u = "plugdev \""@ + username + "\" || true"@;
    assert(s.subrange(b10 - 9, b10 - 9 + u.len()) =~= u);
    lemma_occurs_contains(s, u, b10 - 9);
    let b11: int = b10 + username.len() + 28;
    let pw = "echo \""@ + username + ":"@ + password + "\" | chroot /target chpasswd"@;
    assert(s.subrange(b11 - 6, b11 - 6 + pw.len()) =~= pw);
    lemma_occurs_contains(s, pw, b11 - 6);
}

pub fn installation_script_for(disk: &str, hostname: &str, username: &str, password: &str) -> (s: String)
    ensures
        s@ == installation_script(disk@, hostname@, username@, password@),
{
    let mut s = String::new();
    s.append(r#"
            set -e
            parted -s "#);
    s.append(disk);
    s.append(r#" mklabel gpt
            parted -s "#);
    s.append(disk);
    s.append(r#" mkpart ESP fat32 1MiB 513MiB
            parted -s "#);
    s.append(disk);
    s.append(r#" set 1 esp on
            parted -s "#);
    s.append(disk);
    s.append(r#" mkpart primary ext4 513MiB 100%

            EFI_PART=""#);
    s.append(disk);
    s.append(r#"1"
            ROOT_PART=""#);
    s.append(disk);
    s.append(r#"2"
            if [[ ""#);
    s.append(disk);
    s.append(r#"" =~ "nvme" ]]; then
                EFI_PART=""#);
    s.append(disk);
    s.append(r#"p1"
                ROOT_PART=""#);
    s.append(disk);
    s.append(r#"p2"
            fi

            mkfs.vfat -F32 "$EFI_PART"
            mkfs.ext4 -F "$ROOT_PART"

            mkdir -p /target
            mount "$ROOT_PART" /target
            mkdir -p /target/boot/efi
            mount "$EFI_PART" /target/boot/efi

            rsync -aAX --info=progress2 / /target/ \
                --exclude=/proc/* --exclude=/sys/* --exclude=/dev/* \
                --exclude=/tmp/* --exclude=/run/* --exclude=/mnt/* \
                --exclude=/media/* --exclude=/target/* --exclude=/home/*

            echo ""#);
    s.append(hostname);
    s.append(r#"" > /target/etc/hostname
            chroot /target useradd -m -s /bin/bash -G sudo,audio,video,plugdev ""#);
    s.append(username);
    s.append(r#"" || true
            echo ""#);
    s.append(username);
    s.append(r#":"#);
    s.append(password);
    s.append(r#"" | chroot /target chpasswd

            chroot /target grub-install --target=x86_64-efi --efi-directory=/boot/efi --bootloader-id=Ankora --recheck
            chroot /target update-grub

            umount -R /target
            "#);
    s
}

/// How a run of the installation script is reported: a success message, the
/// script's standard error when it failed, or the reason it could not be
/// started.
pub open spec fn installation_report(run: Result<ProcessOutput, String>) -> Result<Seq<char>, Seq<char>> {
    match run {
        Ok(out) => if out.success {
            Ok("Ankora Linux başarıyla kuruldu."@)
        } else {
            Err("Kurulum hatası: "@ + utf8_lossy(out.stderr@))
        },
        Err(e) => Err("Kurulum yürütülemedi: "@ + e@),
    }
}

pub fn installation_outcome(run: Result<ProcessOutput, String>) -> (r: Result<String, String>)
    ensures
        text_result(r) == installation_report(run),
{
    match run {
        Ok(out) => {
            if out.success {
                Ok("Ankora Linux başarıyla kuruldu.".to_owned())
            } else {
                let err = text_from_bytes(out.stderr.as_slice());
                let mut m = "Kurulum hatası: ".to_owned();
                m.append(err.as_str());
                Err(m)
            }
        },
        Err(e) => {
            let mut m = "Kurulum yürütülemedi: ".to_owned();
            m.append(e.as_str());
            Err(m)
        },
    }
}

/// The report where the system is not really installed (on systems other
/// than Linux): the target disk as given and the user name.
pub fn simulated_installation_message(payload: &InstallPayload) -> (m: String)
    ensures
        m@ == "Kurulum tamamlandı: "@ + payload.target_disk@ + " -> "@ + payload.username@,
{
    let mut m = "Kurulum tamamlandı: ".to_owned();
    m.append(payload.target_disk.as_str());
    m.append(" -> ");
    m.append(payload.username.as_str());
    m
}

} // verus!
