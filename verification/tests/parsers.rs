use disk_archiver::engine::DriveStatus;
use disk_archiver::errors::DiskInfoError;
use disk_archiver::inventory::parse_disk_drive_list;
use disk_archiver::metadata::parse_iso_info;
use disk_archiver::presence::{parse_bulk_id_list, disk_present, check_disks_in_drives};
use disk_archiver::engine::DiskDrive;

#[test]
fn inventory_keeps_cd_dvd_lines_in_order() {
    let listing = b"[0:0:0:0]   cd/dvd  VENDOR MODEL 1.00  /dev/sr0X\n\
                    [1:0:0:0]   disk    VENDOR MODEL 1.00  /dev/sda1\n\
                    [2:0:0:0]   cd/dvd  OTHER  UNIT  2.00  /dev/sr1Y\n";
    let drives = parse_disk_drive_list(listing);
    assert_eq!(drives.len(), 2);
    assert_eq!(drives[0].file().as_slice(), b"/dev/sr0");
    assert_eq!(drives[1].file().as_slice(), b"/dev/sr1");
    for d in &drives {
        assert!(!d.has_disk());
        assert_eq!(*d.status(), DriveStatus::Setup);
    }
}

#[test]
fn inventory_strips_exactly_one_trailing_character() {
    let listing = b"[0:0:0:0]  cd/dvd  V M 1  /dev/cdromZ\n";
    let drives = parse_disk_drive_list(listing);
    assert_eq!(drives.len(), 1);
    assert_eq!(drives[0].file().as_slice(), b"/dev/cdrom");
}

#[test]
fn inventory_of_malformed_text_is_empty() {
    assert_eq!(parse_disk_drive_list(b"no brackets anywhere\n").len(), 0);
    assert_eq!(parse_disk_drive_list(b"").len(), 0);
}

#[test]
fn inventory_stops_at_first_malformed_line() {
    let listing = b"[0]  cd/dvd  x y  /dev/sr0Q\n\
                    broken line\n\
                    [1]  cd/dvd  x y  /dev/sr1R\n";
    let drives = parse_disk_drive_list(listing);
    assert_eq!(drives.len(), 1);
    assert_eq!(drives[0].file().as_slice(), b"/dev/sr0");
}

#[test]
fn inventory_ignores_incomplete_last_line() {
    let listing = b"[0]  cd/dvd  x y  /dev/sr0Q";
    assert_eq!(parse_disk_drive_list(listing).len(), 0);
}

#[test]
fn bulk_id_list_splits_at_first_colon() {
    let pairs = parse_bulk_id_list(b"/dev/sr0: UUID=abc TYPE=iso9660\n/dev/sda1: x:y\n");
    assert_eq!(pairs.len(), 2);
    assert_eq!(pairs[0].key.as_slice(), b"/dev/sr0");
    assert_eq!(pairs[0].rest.as_slice(), b" UUID=abc TYPE=iso9660");
    assert_eq!(pairs[1].key.as_slice(), b"/dev/sda1");
    assert_eq!(pairs[1].rest.as_slice(), b" x:y");
}

#[test]
fn presence_is_a_pure_function_of_the_latest_poll() {
    let mut drives = vec![DiskDrive::new(b"/dev/sr0".to_vec())];

    let without = parse_bulk_id_list(b"/dev/sda1: data\n");
    check_disks_in_drives(&mut drives, &without);
    assert!(!drives[0].has_disk());

    let with = parse_bulk_id_list(b"/dev/sda1: data\n/dev/sr0: UUID=abc\n");
    check_disks_in_drives(&mut drives, &with);
    assert!(drives[0].has_disk());

    check_disks_in_drives(&mut drives, &without);
    assert!(!drives[0].has_disk());
}

#[test]
fn presence_matches_by_prefix() {
    let pairs = parse_bulk_id_list(b"/dev/sr: something\n");
    assert!(disk_present(b"/dev/sr0", &pairs));
    assert!(!disk_present(b"/dev/s", &pairs));
    assert!(!disk_present(b"/other", &pairs));
}

fn descriptor(volume_line: &str, block_size_line: &str, volume_size_line: &str) -> Vec<u8> {
    let mut text = String::new();
    text.push_str("CD-ROM is in ISO 9660 format\n");
    text.push_str("System id: LINUX\n");
    text.push_str(volume_line);
    text.push_str("Volume set id:\n");
    text.push_str("Publisher id:\n");
    text.push_str("Data preparer id:\n");
    text.push_str("Application id:\n");
    text.push_str("Copyright File id:\n");
    text.push_str("Abstract File id:\n");
    text.push_str("Bibliographic File id:\n");
    text.push_str("Volume set size is: 1\n");
    text.push_str("Volume set sequence number is: 1\n");
    text.push_str(block_size_line);
    text.push_str(volume_size_line);
    text.into_bytes()
}

#[test]
fn metadata_reads_name_geometry_and_total_bytes() {
    let text = descriptor("Volume id: FOO\n", "Logical block size is: 2048\n",
        "Volume size is: 10\n");
    let info = parse_iso_info(&text).ok().unwrap();
    assert_eq!(info.name.as_slice(), b"FOO");
    assert_eq!(info.block_size, 2048);
    assert_eq!(info.length, 20480);
}

#[test]
fn metadata_with_thirteen_lines_is_a_parse_failure() {
    let text = descriptor("Volume id: FOO\n", "Logical block size is: 2048\n",
        "Volume size is: 10\n");
    let thirteen = &text[..text.len() - "Volume size is: 10\n".len()];
    match parse_iso_info(thirteen) {
        Err(DiskInfoError::Parse) => {},
        _ => panic!("expected a parse failure"),
    }
}

#[test]
fn metadata_with_missing_literal_is_a_parse_failure() {
    let text = descriptor("Volume name: FOO\n", "Logical block size is: 2048\n",
        "Volume size is: 10\n");
    assert_eq!(parse_iso_info(&text), Err(DiskInfoError::Parse));
}

#[test]
fn metadata_with_non_numeric_field_is_a_parse_failure() {
    let text = descriptor("Volume id: FOO\n", "Logical block size is: big\n",
        "Volume size is: 10\n");
    assert_eq!(parse_iso_info(&text), Err(DiskInfoError::Parse));
    let empty = descriptor("Volume id: FOO\n", "Logical block size is: \n",
        "Volume size is: 10\n");
    assert_eq!(parse_iso_info(&empty), Err(DiskInfoError::Parse));
}

#[test]
fn metadata_with_oversized_number_is_a_parse_failure() {
    let text = descriptor("Volume id: FOO\n",
        "Logical block size is: 99999999999999999999999999999\n", "Volume size is: 10\n");
    assert_eq!(parse_iso_info(&text), Err(DiskInfoError::Parse));
}

#[test]
fn metadata_overflowing_total_is_a_parse_failure() {
    let text = descriptor("Volume id: FOO\n", "Logical block size is: 2048\n",
        "Volume size is: 18446744073709551615\n");
    assert_eq!(parse_iso_info(&text), Err(DiskInfoError::Parse));
}

#[test]
fn metadata_empty_name_is_kept() {
    let text = descriptor("Volume id: \n", "Logical block size is: 512\n",
        "Volume size is: 0\n");
    let info = parse_iso_info(&text).ok().unwrap();
    assert_eq!(info.name.as_slice(), b"");
    assert_eq!(info.block_size, 512);
    assert_eq!(info.length, 0);
}
