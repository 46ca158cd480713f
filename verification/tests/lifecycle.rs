use disk_archiver::engine::{DiskDrive, DriveStatus, DriveEvent, DriveAction, drive_step,
    get_drive_status_message_string};
use disk_archiver::errors::CopyError;
use disk_archiver::metadata::ISOInfo;

fn info() -> ISOInfo {
    ISOInfo { name: b"FOO".to_vec(), block_size: 2048, length: 20480 }
}

#[test]
fn fresh_drive_starts_in_setup_and_moves_to_no_disk() {
    let mut d = DiskDrive::new(b"/dev/sr0".to_vec());
    assert_eq!(*d.status(), DriveStatus::Setup);
    let a = d.apply(DriveEvent::Presence(false));
    assert_eq!(a, DriveAction::Sleep);
    assert_eq!(*d.status(), DriveStatus::NoDisk);
}

#[test]
fn no_disk_stays_across_negative_polls() {
    let mut d = DiskDrive::new(b"/dev/sr0".to_vec());
    d.apply(DriveEvent::Presence(false));
    for _ in 0..10 {
        let a = d.apply(DriveEvent::Presence(false));
        assert_eq!(*d.status(), DriveStatus::NoDisk);
        assert_eq!(a, DriveAction::Sleep);
    }
}

#[test]
fn inserted_media_asks_for_metadata_then_copies() {
    let mut d = DiskDrive::new(b"/dev/sr0".to_vec());
    d.apply(DriveEvent::Presence(false));
    let a = d.apply(DriveEvent::Presence(true));
    assert_eq!(a, DriveAction::FetchMetadata);
    assert_eq!(*d.status(), DriveStatus::NoDisk);
    let a = d.apply(DriveEvent::Metadata(Some(info())));
    assert_eq!(a, DriveAction::StartCopy(info()));
    assert_eq!(*d.status(), DriveStatus::Copying);
}

#[test]
fn failed_metadata_ejects_and_ends_the_cycle() {
    let mut d = DiskDrive::new(b"/dev/sr0".to_vec());
    d.apply(DriveEvent::Presence(false));
    d.apply(DriveEvent::Presence(true));
    let a = d.apply(DriveEvent::Metadata(None));
    assert_eq!(a, DriveAction::Eject);
    assert_eq!(*d.status(), DriveStatus::Done);
}

#[test]
fn copy_outcomes_settle_the_cycle_state() {
    let (s, _) = drive_step(DriveStatus::Copying, DriveEvent::CopyResult(Ok(())));
    assert_eq!(s, DriveStatus::WaitingForName);
    let (s, _) = drive_step(DriveStatus::Copying,
        DriveEvent::CopyResult(Err(CopyError::Read)));
    assert_eq!(s, DriveStatus::CopyReadError);
    let (s, _) = drive_step(DriveStatus::Copying,
        DriveEvent::CopyResult(Err(CopyError::Write)));
    assert_eq!(s, DriveStatus::CopyWriteError);
}

#[test]
fn fresh_name_goes_straight_to_saving() {
    let (s, a) = drive_step(DriveStatus::WaitingForName,
        DriveEvent::NameChosen(b"a.iso".to_vec(), false));
    assert_eq!(s, DriveStatus::Saving(b"a.iso".to_vec()));
    assert_eq!(a, DriveAction::Nothing);
}

#[test]
fn existing_name_asks_for_confirmation_first() {
    let (s, a) = drive_step(DriveStatus::WaitingForName,
        DriveEvent::NameChosen(b"a.iso".to_vec(), true));
    assert_eq!(s, DriveStatus::ConfirmingName);
    assert_eq!(a, DriveAction::Nothing);
}

#[test]
fn only_explicit_acceptance_reaches_saving_from_confirmation() {
    // Polls and ticks do not move the confirmation along.
    let (s, _) = drive_step(DriveStatus::ConfirmingName, DriveEvent::Tick);
    assert_eq!(s, DriveStatus::ConfirmingName);
    let (s, _) = drive_step(DriveStatus::ConfirmingName, DriveEvent::Presence(true));
    assert_eq!(s, DriveStatus::ConfirmingName);
    // Declining goes back to waiting.
    let (s, _) = drive_step(DriveStatus::ConfirmingName, DriveEvent::OverwriteDeclined);
    assert_eq!(s, DriveStatus::WaitingForName);
    // Accepting commits to the accepted name.
    let (s, _) = drive_step(DriveStatus::ConfirmingName,
        DriveEvent::OverwriteAccepted(b"a.iso".to_vec()));
    assert_eq!(s, DriveStatus::Saving(b"a.iso".to_vec()));
}

#[test]
fn illegal_writes_are_rejected() {
    let (s, a) = drive_step(DriveStatus::NoDisk,
        DriveEvent::OverwriteAccepted(b"a.iso".to_vec()));
    assert_eq!(s, DriveStatus::NoDisk);
    assert_eq!(a, DriveAction::Nothing);
    let (s, a) = drive_step(DriveStatus::Done, DriveEvent::CopyResult(Ok(())));
    assert_eq!(s, DriveStatus::Done);
    assert_eq!(a, DriveAction::Nothing);
}

fn deliver(commits: &mut usize, copies: &mut usize, d: &mut DiskDrive, e: DriveEvent) {
    match d.apply(e) {
        DriveAction::Commit(name) => {
            *commits += 1;
            assert_eq!(name, b"backup.iso".to_vec());
        },
        DriveAction::StartCopy(_) => {
            *copies += 1;
        },
        _ => {},
    }
}

#[test]
fn one_insertion_commits_exactly_once() {
    let mut d = DiskDrive::new(b"/dev/sr0".to_vec());
    let mut commits = 0;
    let mut copies = 0;

    deliver(&mut commits, &mut copies, &mut d, DriveEvent::Presence(false));
    for _ in 0..5 {
        deliver(&mut commits, &mut copies, &mut d, DriveEvent::Presence(false));
    }
    deliver(&mut commits, &mut copies, &mut d, DriveEvent::Presence(true));
    deliver(&mut commits, &mut copies, &mut d, DriveEvent::Metadata(Some(info())));
    deliver(&mut commits, &mut copies, &mut d, DriveEvent::CopyResult(Ok(())));
    // The operator takes a while; the engine keeps polling.
    for _ in 0..7 {
        deliver(&mut commits, &mut copies, &mut d, DriveEvent::Tick);
        assert_eq!(*d.status(), DriveStatus::WaitingForName);
    }
    deliver(&mut commits, &mut copies, &mut d, DriveEvent::NameChosen(b"backup.iso".to_vec(), false));
    // Many more polls pass; only the first observation of `Saving` commits.
    for _ in 0..7 {
        deliver(&mut commits, &mut copies, &mut d, DriveEvent::Tick);
    }
    assert_eq!(copies, 1);
    assert_eq!(commits, 1);
    assert_eq!(*d.status(), DriveStatus::Done);

    // The cycle resets only once the media is gone.
    deliver(&mut commits, &mut copies, &mut d, DriveEvent::Presence(true));
    assert_eq!(*d.status(), DriveStatus::Done);
    deliver(&mut commits, &mut copies, &mut d, DriveEvent::Presence(false));
    assert_eq!(*d.status(), DriveStatus::NoDisk);
    assert_eq!(commits, 1);
}

#[test]
fn copy_errors_wait_for_removal() {
    let (s, _) = drive_step(DriveStatus::CopyReadError, DriveEvent::Presence(true));
    assert_eq!(s, DriveStatus::CopyReadError);
    let (s, _) = drive_step(DriveStatus::CopyReadError, DriveEvent::Presence(false));
    assert_eq!(s, DriveStatus::NoDisk);
    let (s, _) = drive_step(DriveStatus::CopyWriteError, DriveEvent::Presence(false));
    assert_eq!(s, DriveStatus::NoDisk);
}

#[test]
fn status_messages_match_the_display_text() {
    assert_eq!(get_drive_status_message_string(&DriveStatus::Setup), "Setting up...");
    assert_eq!(get_drive_status_message_string(&DriveStatus::NoDisk), "No Disk.");
    assert_eq!(get_drive_status_message_string(&DriveStatus::Copying), "Copying...");
    assert_eq!(get_drive_status_message_string(&DriveStatus::WaitingForName),
        "Check the \"Settings ready\" box to finish.");
    assert_eq!(get_drive_status_message_string(&DriveStatus::ConfirmingName),
        "Check the \"Settings ready\" box to finish.");
    assert_eq!(get_drive_status_message_string(&DriveStatus::Saving(b"a".to_vec())),
        "Saving...");
    assert_eq!(get_drive_status_message_string(&DriveStatus::Done), "Done.");
    assert_eq!(get_drive_status_message_string(&DriveStatus::CopyReadError),
        "Error reading disk.");
    assert_eq!(get_drive_status_message_string(&DriveStatus::CopyWriteError),
        "Error writing to output file.");
}
