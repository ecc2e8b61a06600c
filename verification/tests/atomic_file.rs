use snipespotter::atomic_file::{
    write_with_barriers, write_with_fault, AtomicWrite, BarrierPoint, FaultPoint,
    WriteAction, WriteEvent, TEMPORARY_ATTEMPTS,
};
use snipespotter::failure::Failure;
use snipespotter::path::FilePath;
use snipespotter::temporary::{
    is_temporary_path, orphan_temporary_path, owner_metadata, owner_metadata_path,
    recover_stale_temporary_files, temporary_identity, temporary_nonce,
    temporary_path_with_identity, EntryQuery, ScanAnswer, ScanQuery,
};
use std::collections::{BTreeMap, BTreeSet};

const OWN_PID: u32 = 500;

fn named(name: &str) -> FilePath {
    FilePath {
        directory: "data".to_owned(),
        file_name: Some(name.to_owned()),
    }
}

fn name_of(path: &FilePath) -> String {
    path.file_name.clone().expect("the path has a name")
}

/// The files of one directory, and the names that are directories.
struct Disk {
    files: BTreeMap<String, Vec<u8>>,
    directories: BTreeSet<String>,
    counter: u64,
    live: Vec<u32>,
}

impl Disk {
    fn new() -> Disk {
        Disk {
            files: BTreeMap::new(),
            directories: BTreeSet::new(),
            counter: 0,
            live: vec![OWN_PID],
        }
    }

    fn with_old_state() -> Disk {
        let mut disk = Disk::new();
        disk.files
            .insert("state.toml".to_owned(), b"old-state".to_vec());
        disk
    }

    fn perform(&mut self, action: WriteAction) -> WriteEvent {
        match action {
            WriteAction::ChooseNonce => {
                self.counter += 1;
                WriteEvent::Nonce {
                    nonce: temporary_nonce(77, self.counter),
                }
            }
            WriteAction::CreateNew { path } => {
                if self.files.contains_key(&name_of(&path)) {
                    return WriteEvent::AlreadyExists;
                }
                self.files.insert(name_of(&path), Vec::new());
                WriteEvent::Done
            }
            WriteAction::CreateText { path, text } => {
                if self.files.contains_key(&name_of(&path)) {
                    return WriteEvent::AlreadyExists;
                }
                self.files.insert(name_of(&path), text.into_bytes());
                WriteEvent::Done
            }
            WriteAction::Write { path, bytes } => {
                self.files.insert(name_of(&path), bytes);
                WriteEvent::Done
            }
            WriteAction::Replace { from, to } => {
                if self.directories.contains(&name_of(&to)) {
                    return WriteEvent::Failed {
                        failure: Failure::of("a directory cannot be replaced"),
                    };
                }
                let bytes = self
                    .files
                    .remove(&name_of(&from))
                    .expect("the temporary file is there");
                self.files.insert(name_of(&to), bytes);
                WriteEvent::Done
            }
            WriteAction::Remove { path } => {
                self.files.remove(&name_of(&path));
                WriteEvent::Done
            }
            WriteAction::Wait { marker, text } => {
                self.files.insert(name_of(&marker), text.into_bytes());
                WriteEvent::Done
            }
            WriteAction::EnsureDirectory { .. }
            | WriteAction::Protect { .. }
            | WriteAction::Flush { .. }
            | WriteAction::FlushDirectory { .. } => WriteEvent::Done,
            WriteAction::Done | WriteAction::Failed { .. } => panic!("there is nothing to do"),
        }
    }

    fn run(&mut self, mut write: AtomicWrite) -> Result<(), String> {
        loop {
            match write.next_action() {
                WriteAction::Done => return Ok(()),
                WriteAction::Failed { failure } => return Err(failure.message()),
                action => {
                    let event = self.perform(action);
                    write.record_event(event);
                }
            }
        }
    }

    /// Runs a write until it waits, and ends its process there.
    fn interrupt(&mut self, mut write: AtomicWrite) {
        loop {
            let action = write.next_action();
            let waits = matches!(action, WriteAction::Wait { .. });
            let event = self.perform(action);
            if waits {
                return;
            }
            write.record_event(event);
        }
    }

    fn save(&mut self, bytes: &[u8]) -> Result<(), String> {
        self.run(snipespotter::atomic_file::write(
            named("state.toml"),
            "data/state.toml".to_owned(),
            bytes.to_vec(),
            OWN_PID,
        ))
    }

    fn save_with_fault(&mut self, point: FaultPoint) -> Result<(), String> {
        self.run(write_with_fault(
            named("state.toml"),
            "data/state.toml".to_owned(),
            b"new-state".to_vec(),
            OWN_PID,
            point,
        ))
    }

    fn state(&self) -> &[u8] {
        &self.files["state.toml"]
    }

    fn temporaries(&self) -> usize {
        self.files
            .keys()
            .filter(|name| name.starts_with("state.toml.tmp."))
            .count()
    }

    fn recover(&mut self) -> usize {
        let entries: Vec<FilePath> = self.files.keys().map(|name| named(name)).collect();
        let mut scan = recover_stale_temporary_files(entries.clone(), OWN_PID, 0);
        loop {
            let answer = match scan.query() {
                ScanQuery::Done { removed } => return removed,
                ScanQuery::Stop => panic!("nothing fails here"),
                ScanQuery::RemoveSidecar { path } => match self.files.remove(&name_of(&path)) {
                    Some(_) => ScanAnswer::Removed,
                    None => ScanAnswer::Missing,
                },
                ScanQuery::Entry { index, query } => match query {
                    EntryQuery::IsFile => {
                        if self.files.contains_key(&name_of(&entries[index])) {
                            ScanAnswer::Is { yes: true }
                        } else {
                            ScanAnswer::Missing
                        }
                    }
                    EntryQuery::Exists { path } => ScanAnswer::Is {
                        yes: self.files.contains_key(&name_of(&path)),
                    },
                    EntryQuery::OwnerDead { pid } => ScanAnswer::Is {
                        yes: !self.live.contains(&pid),
                    },
                    EntryQuery::Age => ScanAnswer::Age { seconds: 0 },
                    EntryQuery::ReadOwner { path } => ScanAnswer::Owner {
                        text: self
                            .files
                            .get(&name_of(&path))
                            .map(|bytes| String::from_utf8_lossy(bytes).into_owned()),
                    },
                    EntryQuery::Remove => {
                        self.files.remove(&name_of(&entries[index]));
                        ScanAnswer::Removed
                    }
                    EntryQuery::Skip => ScanAnswer::Next,
                },
            };
            scan.answer(answer);
        }
    }

    fn create_owned_temporary(&mut self, path: &FilePath, pid: u32, nonce: u64) -> String {
        let temporary = temporary_path_with_identity(path, pid, nonce);
        let owner = owner_metadata_path(&temporary);
        self.files
            .insert(name_of(&temporary), b"test temporary".to_vec());
        self.files
            .insert(name_of(&owner), format!("{pid}:{nonce}").into_bytes());
        name_of(&temporary)
    }
}

#[test]
fn replaces_existing_destination() {
    let mut disk = Disk::new();
    disk.save(b"first").expect("nothing fails");
    disk.save(b"second").expect("nothing fails");
    assert_eq!(disk.state(), b"second");
    assert_eq!(disk.files.len(), 1);
}

#[test]
fn stale_recovery_removes_orphan_owner_sidecar_after_temporary_disappears() {
    let mut disk = Disk::new();
    let temporary = temporary_path_with_identity(&named("state.toml"), u32::MAX, 9);
    let metadata_path = owner_metadata_path(&temporary);
    disk.files
        .insert(name_of(&metadata_path), b"4294967295:9".to_vec());

    let removed = disk.recover();

    assert_eq!(removed, 1);
    assert!(!disk.files.contains_key(&name_of(&temporary)));
    assert!(!disk.files.contains_key(&name_of(&metadata_path)));
}

#[test]
fn stale_recovery_round_trips_destination_names_containing_tmp_marker() {
    let mut disk = Disk::new();
    let temporary = temporary_path_with_identity(&named("archive.tmp.state"), u32::MAX, 10);
    let metadata_path = owner_metadata_path(&temporary);
    disk.files
        .insert(name_of(&temporary), b"test temporary".to_vec());
    disk.files
        .insert(name_of(&metadata_path), b"4294967295:10".to_vec());

    let removed = disk.recover();

    assert_eq!(removed, 1);
    assert!(disk.files.is_empty());
}

#[test]
fn temporary_names_have_unique_nonces() {
    let path = named("state.toml");
    assert_ne!(
        temporary_path_with_identity(&path, OWN_PID, temporary_nonce(3, 1)),
        temporary_path_with_identity(&path, OWN_PID, temporary_nonce(3, 2))
    );
}

#[test]
fn failed_replacement_cleans_temporary_file() {
    let mut disk = Disk::new();
    disk.directories.insert("state.toml".to_owned());
    assert!(disk.save(b"cannot replace directory").is_err());
    assert_eq!(disk.temporaries(), 0);
}

#[test]
fn failed_write_cleans_temporary_sidecar() {
    let mut disk = Disk::new();
    disk.directories.insert("state.toml".to_owned());
    assert!(disk.save(b"cannot replace directory").is_err());
    let temporary_entries = disk
        .files
        .keys()
        .filter(|name| is_temporary_path(&named(name)) || name.ends_with(".owner"))
        .count();
    assert_eq!(temporary_entries, 0);
}

#[test]
fn temporary_identity_is_shared_by_name_and_metadata() {
    let mut disk = Disk::new();
    disk.directories.insert("state.toml".to_owned());
    assert!(disk.save(b"cannot replace directory").is_err());
    let temporary = disk.files.keys().find(|name| is_temporary_path(&named(name)));
    assert!(temporary.is_none(), "temporary file was not cleaned up");
}

#[test]
fn replacement_fault_is_deterministic_and_preserves_destination() {
    let mut disk = Disk::new();
    disk.save(b"before").expect("nothing fails");
    let error = disk
        .save_with_fault(FaultPoint::BeforeReplace)
        .expect_err("fault controller must fail before replacement");
    assert!(error.contains("before replacement"));
    assert_eq!(disk.state(), b"before");
    assert_eq!(disk.temporaries(), 0);
}

#[test]
fn fault_before_replacement_preserves_old_complete_content() {
    let mut disk = Disk::with_old_state();
    let error = disk
        .save_with_fault(FaultPoint::BeforeReplace)
        .expect_err("before-replace fault must fail");
    assert!(error.contains("before replacement"));
    assert_eq!(disk.state(), b"old-state");
}

#[test]
fn fault_after_replacement_reports_new_complete_content() {
    let mut disk = Disk::with_old_state();
    let error = disk
        .save_with_fault(FaultPoint::AfterReplace)
        .expect_err("after-replace fault must fail");
    assert!(error.contains("after replacement"));
    assert_eq!(disk.state(), b"new-state");
}

#[test]
fn directory_flush_failure_keeps_complete_destination() {
    let mut disk = Disk::with_old_state();
    let error = disk
        .save_with_fault(FaultPoint::DirectoryFlush)
        .expect_err("directory-flush fault must fail");
    assert!(error.contains("directory flush"));
    assert!(disk.state() == b"old-state" || disk.state() == b"new-state");
}

#[test]
fn temporary_creation_failure_preserves_existing_destination() {
    let mut disk = Disk::with_old_state();
    let error = disk
        .save_with_fault(FaultPoint::CreateTemporary)
        .expect_err("temporary-create fault must fail");
    assert!(error.contains("temporary creation"));
    assert_eq!(disk.state(), b"old-state");
}

#[test]
fn temporary_write_failure_preserves_existing_destination() {
    let mut disk = Disk::with_old_state();
    let error = disk
        .save_with_fault(FaultPoint::WriteTemporary)
        .expect_err("temporary-write fault must fail");
    assert!(error.contains("temporary write"));
    assert_eq!(disk.state(), b"old-state");
}

#[test]
fn temporary_flush_failure_preserves_existing_destination() {
    let mut disk = Disk::with_old_state();
    let error = disk
        .save_with_fault(FaultPoint::FlushTemporary)
        .expect_err("temporary-flush fault must fail");
    assert!(error.contains("temporary flush"));
    assert_eq!(disk.state(), b"old-state");
}

#[test]
fn stale_recovery_removes_only_dead_owned_temporary_files() {
    let mut disk = Disk::new();
    let path = named("state.toml");
    let dead = disk.create_owned_temporary(&path, 7000, 7);
    let live = disk.create_owned_temporary(&path, OWN_PID, 8);

    let removed = disk.recover();

    assert_eq!(removed, 1);
    assert!(!disk.files.contains_key(&dead));
    assert!(disk.files.contains_key(&live));
}

#[test]
fn barrier_write_leaves_complete_old_or_new_content() {
    let mut disk = Disk::with_old_state();
    disk.interrupt(write_with_barriers(
        named("state.toml"),
        "data/state.toml".to_owned(),
        b"new-state".to_vec(),
        7000,
        BarrierPoint::BeforeReplace,
        named("marker.txt"),
    ));
    assert_eq!(disk.files["marker.txt"], b"before-replace");
    assert_eq!(disk.state(), b"old-state");
    let removed = disk.recover();
    assert_eq!(removed, 1);
}

#[test]
fn after_replace_barrier_can_be_terminated_with_complete_content() {
    let mut disk = Disk::with_old_state();
    disk.run(write_with_barriers(
        named("state.toml"),
        "data/state.toml".to_owned(),
        b"new-state".to_vec(),
        7000,
        BarrierPoint::AfterReplace,
        named("marker.txt"),
    ))
    .expect("the barrier opens");
    assert_eq!(disk.files["marker.txt"], b"after-replace");
    let removed = disk.recover();
    assert_eq!(removed, 0);
    assert_eq!(disk.state(), b"new-state");
}

#[test]
fn names_that_are_taken_are_tried_again_and_given_up() {
    let mut disk = Disk::new();
    let taken = temporary_path_with_identity(&named("state.toml"), OWN_PID, temporary_nonce(77, 1));
    disk.files.insert(name_of(&taken), Vec::new());
    disk.save(b"first").expect("the second name is free");
    assert_eq!(disk.state(), b"first");

    let mut full = Disk::new();
    for counter in 1..=u64::from(TEMPORARY_ATTEMPTS) {
        let nonce = temporary_nonce(77, counter);
        let path = temporary_path_with_identity(&named("state.toml"), OWN_PID, nonce);
        full.files.insert(name_of(&path), Vec::new());
    }
    let error = full.save(b"first").expect_err("every name is taken");
    assert_eq!(
        error,
        "failed to allocate a unique temporary file for data/state.toml"
    );
}

#[test]
fn identities_are_read_back_from_names() {
    let temporary = temporary_path_with_identity(&named("state.toml"), 12, 34);
    assert_eq!(name_of(&temporary), "state.toml.tmp.12.34");
    assert_eq!(temporary_identity(&temporary), Some((12, 34)));
    let metadata = owner_metadata_path(&temporary);
    assert_eq!(name_of(&metadata), "state.toml.tmp.12.34.owner");
    assert_eq!(orphan_temporary_path(&metadata), Some(temporary));
    assert_eq!(owner_metadata(12, 34), "12:34");
    assert!(!is_temporary_path(&named("state.toml")));
    assert_eq!(temporary_identity(&named("state.toml.tmp.x.34")), None);
}
