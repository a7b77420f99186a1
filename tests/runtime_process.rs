use goon_launcher::{
    dreamseeker_path, find_dreamseeker_process, is_dreamseeker_running, launch_dreamseeker,
    ManagedProcess, PollStatus, SpawnOutcome,
};

fn query(t: &mut ManagedProcess<u32>, status: PollStatus) -> bool {
    let polled = t.take_handle().map(|h| (h, status));
    is_dreamseeker_running(t, polled)
}

#[test]
fn not_running_before_any_launch() {
    let mut t: ManagedProcess<u32> = ManagedProcess::new();
    assert!(!t.is_tracking());
    assert!(!query(&mut t, PollStatus::Running));
}

#[test]
fn launch_tracks_the_new_process() {
    let mut t: ManagedProcess<u32> = ManagedProcess::new();
    let r = launch_dreamseeker(&mut t, "C:/BYOND", "byond://goon1.goonhub.com:26100", SpawnOutcome::Spawned(7));
    assert_eq!(r, Ok("Started DreamSeeker for byond://goon1.goonhub.com:26100".to_string()));
    assert!(t.is_tracking());
    assert_eq!(t.take_handle(), Some(7));
}

#[test]
fn relaunch_replaces_the_handle() {
    let mut t: ManagedProcess<u32> = ManagedProcess::new();
    launch_dreamseeker(&mut t, "C:/BYOND", "a:1", SpawnOutcome::Spawned(1)).unwrap();
    launch_dreamseeker(&mut t, "C:/BYOND", "b:2", SpawnOutcome::Spawned(2)).unwrap();
    assert_eq!(t.take_handle(), Some(2));
}

#[test]
fn failed_launch_keeps_the_handle() {
    let mut t: ManagedProcess<u32> = ManagedProcess::new();
    launch_dreamseeker(&mut t, "C:/BYOND", "a:1", SpawnOutcome::Spawned(1)).unwrap();
    let r = launch_dreamseeker(&mut t, "C:/BYOND", "b:2", SpawnOutcome::Failed("denied".to_string()));
    assert_eq!(r, Err("Failed to launch DreamSeeker: denied".to_string()));
    let r = launch_dreamseeker(&mut t, "C:/BYOND", "b:2", SpawnOutcome::Missing);
    assert_eq!(
        r,
        Err("DreamSeeker executable not found at C:/BYOND\\bin\\dreamseeker.exe".to_string())
    );
    assert_eq!(t.take_handle(), Some(1));
}

#[test]
fn running_process_stays_tracked() {
    let mut t: ManagedProcess<u32> = ManagedProcess::new();
    t.track(5);
    assert!(query(&mut t, PollStatus::Running));
    assert!(t.is_tracking());
    assert!(query(&mut t, PollStatus::Running));
}

#[test]
fn ended_process_is_forgotten() {
    let mut t: ManagedProcess<u32> = ManagedProcess::new();
    t.track(5);
    assert!(!query(&mut t, PollStatus::Exited));
    assert!(!t.is_tracking());
    assert!(!query(&mut t, PollStatus::Running));
    assert!(!t.is_tracking());
}

#[test]
fn failed_check_counts_as_not_running() {
    let mut t: ManagedProcess<u32> = ManagedProcess::new();
    t.track(5);
    assert!(!query(&mut t, PollStatus::Failed));
    assert!(!t.is_tracking());
}

#[test]
fn client_path() {
    assert_eq!(dreamseeker_path("D:\\Games\\BYOND"), "D:\\Games\\BYOND\\bin\\dreamseeker.exe");
}

#[test]
fn process_names_match_without_case() {
    let names = vec!["explorer.exe".to_string(), "DreamSeeker.EXE".to_string()];
    assert!(find_dreamseeker_process(&names));
    let names = vec!["dreamseeker.exe".to_string()];
    assert!(find_dreamseeker_process(&names));
}

#[test]
fn other_process_names_do_not_match() {
    assert!(!find_dreamseeker_process(&vec![]));
    let names = vec![
        "dreamseeker".to_string(),
        "dreamseeker.exe ".to_string(),
        "dreamdaemon.exe".to_string(),
    ];
    assert!(!find_dreamseeker_process(&names));
}
