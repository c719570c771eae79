use deepvault_core::credential::{check, verify, CredentialArtifact};
use deepvault_core::crypto::KeyDerivation;
use deepvault_core::error::VaultError;
use deepvault_core::lifecycle::{
    conceal_script, reveal_script, session_id_at, Action, Lifecycle, LifecycleState, MountDescriptor,
    Status,
};
use deepvault_core::mounts::{find_active_designator, parse_mount_listing, MountedPartition};

const DISKS: &str = "\
Number FriendlyName             OperationalStatus Size\n\
------ ------------             ----------------- ----\n\
0      Samsung SSD 970 EVO      Online            500107862016\n\
1      SanDisk Ultra USB Device Online            61505273856\n";

const PARTITIONS: &str = "\
PartitionNumber DriveLetter Offset      Size Type\n\
--------------- ----------- ------      ---- ----\n\
1               D           1048576     50GB Basic\n\
2                           53687091200 7.3GB Basic\n";

const MOUNTS: &str = "\
PartitionNumber DriveLetter Size Type\n\
--------------- ----------- ---- ----\n\
1               C           465GB Basic\n\
1               D           50GB Basic\n";

const KDF: KeyDerivation = KeyDerivation { memory: 64, iterations: 1, parallelism: 1 };
const SALT: [u8; 12] = [9, 8, 7, 6, 5, 4, 3, 2, 1, 0, 1, 2];

fn artifact() -> CredentialArtifact {
    deepvault_core::credential::derive("correct", &KDF, &SALT).unwrap()
}

fn status(state: LifecycleState) -> Status {
    Status { state, designator: None }
}

fn revealed() -> (Lifecycle, String) {
    let mut m = Lifecycle::new();
    assert!(matches!(m.request_open("correct".to_string()), Action::LoadCredential));
    assert!(matches!(m.credential_loaded(Some(artifact()), Ok(MOUNTS.to_string())), Action::ListDisks));
    assert!(matches!(m.disks_listed(Ok(DISKS.to_string())), Action::ListPartitions { disk_index: 1 }));
    assert!(matches!(m.partitions_listed(Ok(PARTITIONS.to_string())), Action::Reveal(_)));
    match m.reveal_finished(Ok(()), 1700000000) {
        Action::Opened { session_id } => (m, session_id),
        other => panic!("{other:?}"),
    }
}

#[test]
fn credential_round_trip() {
    let a = artifact();
    assert_eq!(a.kdf_params, KDF);
    assert_eq!(a.salt, SALT.to_vec());
    assert_eq!(a.verification.len(), 32);
    assert!(verify("correct", &a).unwrap());
    assert!(!verify("Correct", &a).unwrap());
    assert!(!verify("", &a).unwrap());
    assert!(check("correct", Some(&a)).is_ok());
    assert!(matches!(check("wrong", Some(&a)), Err(VaultError::CredentialMismatch)));
    assert!(matches!(check("correct", None), Err(VaultError::CredentialUnset)));
    // derivation is deterministic
    assert_eq!(artifact(), a);
    // another salt or other costs give another value
    let other = deepvault_core::credential::derive("correct", &KDF, &[1; 12]).unwrap();
    assert_ne!(other.verification, a.verification);
    let slower = deepvault_core::credential::derive("correct", &KeyDerivation { iterations: 2, ..KDF }, &SALT).unwrap();
    assert_ne!(slower.verification, a.verification);
}

#[test]
fn credential_errors() {
    assert!(matches!(
        deepvault_core::credential::derive("p", &KeyDerivation { memory: 1, iterations: 1, parallelism: 1 }, &SALT),
        Err(VaultError::KdfConfigInvalid)
    ));
    // a salt of 16 bytes is a salt
    assert!(deepvault_core::credential::derive("p", &KDF, &[0; 16]).is_ok());
    // salts of lengths out of range
    for salt in [vec![], vec![0u8; 2], vec![0u8; 3], vec![0u8; 7], vec![0u8; 49]] {
        assert!(matches!(
            deepvault_core::credential::derive("p", &KDF, &salt),
            Err(VaultError::KdfConfigInvalid)
        ));
    }
    let mut a = artifact();
    a.kdf_params.iterations = 0;
    assert!(matches!(verify("correct", &a), Err(VaultError::KdfConfigInvalid)));
    assert!(matches!(check("correct", Some(&a)), Err(VaultError::KdfConfigInvalid)));
}

#[test]
fn end_to_end_reveal_and_list() {
    let mut m = Lifecycle::new();
    assert_eq!(m.get_status(), status(LifecycleState::Unmounted));
    assert!(matches!(m.request_open("correct".to_string()), Action::LoadCredential));
    assert_eq!(m.get_status(), status(LifecycleState::Verifying));
    assert!(matches!(m.credential_loaded(Some(artifact()), Ok(MOUNTS.to_string())), Action::ListDisks));
    assert_eq!(m.get_status(), status(LifecycleState::Discovering));
    assert!(matches!(m.disks_listed(Ok(DISKS.to_string())), Action::ListPartitions { disk_index: 1 }));
    assert_eq!(m.get_status(), status(LifecycleState::Discovering));
    let target = MountDescriptor { designator: 'Z', disk_index: 1, partition_number: 2 };
    match m.partitions_listed(Ok(PARTITIONS.to_string())) {
        Action::Reveal(d) => assert_eq!(d, target),
        other => panic!("{other:?}"),
    }
    assert_eq!(m.get_status(), status(LifecycleState::Revealing));
    let session_id = match m.reveal_finished(Ok(()), 1700000000) {
        Action::Opened { session_id } => session_id,
        other => panic!("{other:?}"),
    };
    assert_eq!(session_id, "deepvault_session_1700000000");
    assert_eq!(m.get_status(), Status { state: LifecycleState::Revealed, designator: Some('Z') });
    assert_eq!(m.list(&session_id, "/").unwrap(), vec![]);
    assert!(m.sessions().contains(&session_id));
    assert!(!m.sessions().is_empty());
}

#[test]
fn file_operations_need_the_revealed_session() {
    let mut m = Lifecycle::new();
    assert!(matches!(m.list("s", "/"), Err(VaultError::SessionNotFound)));
    assert!(matches!(m.write("s", "/f", vec![], 0), Err(VaultError::SessionNotFound)));
    let (mut m, id) = revealed();
    assert!(matches!(m.write("other", "/f", vec![], 0), Err(VaultError::SessionNotFound)));
    m.create_directory(&id, "/Documents", 1).unwrap();
    m.write(&id, "/Documents/a", b"abc".to_vec(), 2).unwrap();
    assert_eq!(m.read(&id, "/Documents/a").unwrap(), b"abc".to_vec());
    assert_eq!(m.list(&id, "/Documents").unwrap().len(), 2);
    assert!(matches!(m.read(&id, "/Documents"), Err(VaultError::IsDirectory)));
    assert!(matches!(m.read(&id, "/none"), Err(VaultError::FileNotFound)));
    assert!(matches!(m.delete(&id, "/none"), Err(VaultError::FileNotFound)));
    m.delete(&id, "/Documents").unwrap();
    assert!(m.list(&id, "/Documents").unwrap().is_empty());
    assert_eq!(m.get_status().state, LifecycleState::Revealed);
    // once concealing has begun the session serves no more
    assert!(matches!(m.request_close(&id), Action::Conceal(_)));
    assert!(matches!(m.list(&id, "/"), Err(VaultError::SessionNotFound)));
    assert!(matches!(m.create_directory(&id, "/d", 0), Err(VaultError::SessionNotFound)));
}

#[test]
fn conceal_returns_to_unmounted_whatever_the_command_did() {
    for outcome in [Ok(()), Err("access denied".to_string())] {
        let (mut m, id) = revealed();
        m.write(&id, "/f", vec![1], 0).unwrap();
        match m.request_close(&id) {
            Action::Conceal(d) => {
                assert_eq!(d, MountDescriptor { designator: 'Z', disk_index: 1, partition_number: 2 })
            }
            other => panic!("{other:?}"),
        }
        assert_eq!(m.get_status(), status(LifecycleState::Concealing));
        match (m.conceal_finished(outcome.clone()), outcome) {
            (Action::Closed { warning: None }, Ok(())) => {}
            (Action::Closed { warning: Some(VaultError::ConcealFailed(t)) }, Err(e)) => assert_eq!(t, e),
            other => panic!("{other:?}"),
        }
        assert_eq!(m.get_status(), status(LifecycleState::Unmounted));
        assert!(m.sessions().is_empty());
        assert!(matches!(m.list(&id, "/"), Err(VaultError::SessionNotFound)));
        // and the volume can be opened again
        assert!(matches!(m.request_open("correct".to_string()), Action::LoadCredential));
    }
}

#[test]
fn failures_of_the_open_attempt_return_to_unmounted() {
    let open = || {
        let mut m = Lifecycle::new();
        m.request_open("correct".to_string());
        m
    };
    let verified = || {
        let mut m = open();
        m.credential_loaded(Some(artifact()), Ok(MOUNTS.to_string()));
        m
    };
    let tool = || VaultError::ExternalToolFailure("boom".to_string());

    let mut m = open();
    assert!(matches!(m.credential_loaded(None, Ok(String::new())), Action::Rejected(VaultError::CredentialUnset)));
    assert_eq!(m.get_status(), status(LifecycleState::Unmounted));

    let mut m = Lifecycle::new();
    m.request_open("wrong".to_string());
    assert!(matches!(
        m.credential_loaded(Some(artifact()), Ok(String::new())),
        Action::Rejected(VaultError::CredentialMismatch)
    ));
    assert_eq!(m.get_status(), status(LifecycleState::Unmounted));

    let mut m = open();
    match m.credential_loaded(Some(artifact()), Err(tool())) {
        Action::Rejected(VaultError::ExternalToolFailure(t)) => assert_eq!(t, "boom"),
        other => panic!("{other:?}"),
    }
    assert_eq!(m.get_status(), status(LifecycleState::Unmounted));

    let mut m = open();
    let mounted = format!("{MOUNTS}2               Z           7GB Basic\n");
    assert!(matches!(
        m.credential_loaded(Some(artifact()), Ok(mounted)),
        Action::Rejected(VaultError::AlreadyRevealed('Z'))
    ));
    assert_eq!(m.get_status(), status(LifecycleState::Unmounted));

    let mut m = verified();
    assert!(matches!(m.disks_listed(Err(tool())), Action::Rejected(VaultError::ExternalToolFailure(_))));
    assert_eq!(m.get_status(), status(LifecycleState::Unmounted));
    let mut m = verified();
    assert!(matches!(m.disks_listed(Ok(String::new())), Action::Rejected(VaultError::NoOnlineDisk)));
    assert_eq!(m.get_status(), status(LifecycleState::Unmounted));

    let mut m = verified();
    m.disks_listed(Ok(DISKS.to_string()));
    assert!(matches!(m.partitions_listed(Err(tool())), Action::Rejected(VaultError::ExternalToolFailure(_))));
    assert_eq!(m.get_status(), status(LifecycleState::Unmounted));
    let mut m = verified();
    m.disks_listed(Ok(DISKS.to_string()));
    assert!(matches!(
        m.partitions_listed(Ok("1 D 1048576 50GB Basic\n".to_string())),
        Action::Rejected(VaultError::NoConcealedPartition)
    ));
    assert_eq!(m.get_status(), status(LifecycleState::Unmounted));

    let mut m = verified();
    m.disks_listed(Ok(DISKS.to_string()));
    m.partitions_listed(Ok(PARTITIONS.to_string()));
    match m.reveal_finished(Err("no such letter".to_string()), 5) {
        Action::Rejected(VaultError::RevealFailed(t)) => assert_eq!(t, "no such letter"),
        other => panic!("{other:?}"),
    }
    assert_eq!(m.get_status(), status(LifecycleState::Unmounted));
    assert!(m.sessions().is_empty());
}

#[test]
fn a_revealed_volume_is_left_alone() {
    let (mut m, id) = revealed();
    m.write(&id, "/f", vec![1], 0).unwrap();
    assert!(matches!(
        m.request_open("correct".to_string()),
        Action::Rejected(VaultError::AlreadyRevealed('Z'))
    ));
    assert!(matches!(m.request_close("other"), Action::Rejected(VaultError::SessionNotFound)));
    assert!(matches!(m.disks_listed(Ok(DISKS.to_string())), Action::Idle));
    assert!(matches!(m.reveal_finished(Ok(()), 9), Action::Idle));
    assert!(matches!(m.conceal_finished(Ok(())), Action::Idle));
    assert_eq!(m.get_status(), Status { state: LifecycleState::Revealed, designator: Some('Z') });
    assert_eq!(m.read(&id, "/f").unwrap(), vec![1]);
}

#[test]
fn an_input_out_of_order_fails_the_machine_and_the_next_input_resets_it() {
    let mut m = Lifecycle::new();
    // with nothing under way such inputs are passed over
    assert!(matches!(m.disks_listed(Ok(DISKS.to_string())), Action::Idle));
    assert!(matches!(m.request_close("s"), Action::Rejected(VaultError::SessionNotFound)));
    assert_eq!(m.get_status(), status(LifecycleState::Unmounted));

    m.request_open("correct".to_string());
    match m.disks_listed(Ok(DISKS.to_string())) {
        Action::Rejected(VaultError::ExternalToolFailure(t)) => assert_eq!(t, "input out of order"),
        other => panic!("{other:?}"),
    }
    assert_eq!(m.get_status(), status(LifecycleState::Failed));
    assert!(matches!(m.disks_listed(Ok(DISKS.to_string())), Action::Idle));
    assert_eq!(m.get_status(), status(LifecycleState::Unmounted));

    m.request_open("correct".to_string());
    m.request_open("correct".to_string());
    assert_eq!(m.get_status(), status(LifecycleState::Failed));
    assert!(matches!(m.request_open("correct".to_string()), Action::LoadCredential));
    assert_eq!(m.get_status(), status(LifecycleState::Verifying));

    // failing while concealing discards the session too
    let (mut m, id) = revealed();
    m.request_close(&id);
    assert!(matches!(m.request_close(&id), Action::Rejected(VaultError::ExternalToolFailure(_))));
    assert_eq!(m.get_status(), status(LifecycleState::Failed));
    assert!(m.sessions().is_empty());
    assert!(matches!(m.conceal_finished(Ok(())), Action::Idle));
    assert_eq!(m.get_status(), status(LifecycleState::Unmounted));
}

#[test]
fn scripts_and_session_names() {
    let d = MountDescriptor { designator: 'Z', disk_index: 1, partition_number: 2 };
    assert_eq!(reveal_script(&d), "select disk 1\nselect partition 2\nassign letter=Z\n");
    assert_eq!(conceal_script(&d), "select disk 1\nselect partition 2\nremove letter=Z\n");
    let d = MountDescriptor { designator: 'x', disk_index: 0, partition_number: u32::MAX };
    assert_eq!(reveal_script(&d), "select disk 0\nselect partition 4294967295\nassign letter=x\n");
    assert_eq!(session_id_at(0), "deepvault_session_0");
    assert_eq!(session_id_at(u64::MAX), "deepvault_session_18446744073709551615");
}

#[test]
fn mounted_listing() {
    assert_eq!(find_active_designator(MOUNTS), None);
    assert_eq!(find_active_designator(""), None);
    let text = "PartitionNumber DriveLetter\n--- ---\n1 C\n2 Z\n3 z:\nx Z\n4\n5 Y 1 2\n6 é\n7 5\n";
    assert_eq!(
        parse_mount_listing(text),
        vec![
            MountedPartition { partition_number: 2, designator: 'Z' },
            MountedPartition { partition_number: 3, designator: 'z' },
            MountedPartition { partition_number: 6, designator: 'é' },
        ]
    );
    assert_eq!(find_active_designator(text), Some('Z'));
}
