use ankora::storage::{detected_disks, disks_from_listing, lsblk_command};

#[test]
fn the_listing_command() {
    let c = lsblk_command();
    assert_eq!(c.program, "lsblk");
    assert_eq!(c.args.last().unwrap(), "NAME,SIZE,MODEL,RM,TYPE");
}

#[test]
fn disks_are_read_from_the_listing() {
    let out = b"sda   256060514304 Samsung SSD 860  0 disk\nloop0 1000 0 loop\nloop1 2000 x 0 disk\nsdb   +16000000000 Flash   1 disk\r\nnvme0n1 512 0 disk\nsr0 1073741312 DVD 1 rom\n";
    let disks = disks_from_listing(out);
    assert_eq!(disks.len(), 3);
    assert_eq!(disks[0].name, "sda");
    assert_eq!(disks[0].path, "/dev/sda");
    assert_eq!(disks[0].size_bytes, 256060514304);
    assert_eq!(disks[0].model, "Samsung SSD 860");
    assert!(!disks[0].is_removable);
    assert_eq!(disks[1].name, "sdb");
    assert_eq!(disks[1].size_bytes, 16000000000);
    assert_eq!(disks[1].model, "Flash");
    assert!(disks[1].is_removable);
    assert_eq!(disks[2].name, "nvme0n1");
    assert_eq!(disks[2].model, "Sabit Disk");
}

#[test]
fn unreadable_sizes_count_as_zero() {
    let disks = disks_from_listing(b"sdc 99999999999999999999 M 0 disk\nsdd 12a X Y 0 disk\n");
    assert_eq!(disks[0].size_bytes, 0);
    assert_eq!(disks[1].size_bytes, 0);
    assert_eq!(disks[1].model, "X Y");
}

#[test]
fn no_disks_means_none() {
    assert!(detected_disks(b"").is_none());
    assert!(detected_disks(b"loop0 10 0 disk\n").is_none());
    assert_eq!(detected_disks(b"sda 10 0 disk").unwrap().len(), 1);
}
