use nstow::config::LinkDescriptor;
use nstow::error::{EntryKind, StowError};
use nstow::filter::StowFilters;
use nstow::link::{FilesystemState, Observation, Step};
use nstow::settings::{Action, Settings};
use nstow::stow::{Progress, Stow};

fn settings(dry_run: bool, overrides: Option<Vec<String>>) -> Settings {
    let filters = StowFilters::new(None, None, None, None, overrides).unwrap();
    Settings::new("/repo/stowfile".to_string(), "/repo".to_string(), dry_run, None, filters)
}

fn found() -> Vec<LinkDescriptor> {
    vec![
        LinkDescriptor { source: "/repo/a".to_string(), target: "/t/a".to_string() },
        LinkDescriptor { source: "/repo/b".to_string(), target: "/t/b".to_string() },
    ]
}

fn seen(state: FilesystemState, source: &str) -> Observation {
    let pointee = match &state {
        FilesystemState::SymlinkTo(p) => Some(p.clone()),
        _ => None,
    };
    Observation {
        state,
        source_canonical: Some(source.to_string()),
        pointee_canonical: pointee,
        parent: Some("/t".to_string()),
    }
}

fn creation(source: &str, target: &str) -> Vec<Step> {
    vec![
        Step::CreateDirectories("/t".to_string()),
        Step::CreateSymlink { source: source.to_string(), target: target.to_string() },
    ]
}

#[test]
fn settings_keep_what_they_were_given() {
    let s = settings(true, None);
    assert_eq!(s.stowfile_path(), "/repo/stowfile");
    assert_eq!(s.current_working_dir(), "/repo");
    assert!(s.link_settings().dry_run());
    assert_eq!(s.link_settings().backup(), &None);
    assert!(s.filters().check_src("anything"));
}

#[test]
fn batch_needs_every_source() {
    let s = settings(false, None);
    let err = Stow::with_settings(&s, &found(), &vec![true, false]).unwrap_err();
    assert_eq!(err, StowError::SourceMissing("/repo/b".to_string()));
    let err = Stow::with_settings(&s, &found(), &vec![false, false]).unwrap_err();
    assert_eq!(err, StowError::SourceMissing("/repo/a".to_string()));
    let err = Stow::with_settings(&s, &found(), &vec![true]).unwrap_err();
    assert_eq!(err, StowError::SourceMissing("/repo/b".to_string()));
    let stow = Stow::with_settings(&s, &found(), &vec![true, true]).unwrap();
    assert_eq!(stow.links.len(), 2);
    assert_eq!(stow.links[1].src, "/repo/b");
    assert_eq!(stow.links[1].target.path, "/t/b");
}

#[test]
fn stow_goes_through_the_links_in_order() {
    let s = settings(false, None);
    let stow = Stow::with_settings(&s, &found(), &vec![true, true]).unwrap();
    let mut progress = stow.begin();
    assert_eq!(stow.pending(&progress).unwrap().target.path, "/t/a");
    let plan = stow.stow(&mut progress, &seen(FilesystemState::Absent, "/repo/a")).unwrap();
    assert_eq!(plan.steps, creation("/repo/a", "/t/a"));
    assert_eq!(progress.index, 1);
    assert_eq!(stow.pending(&progress).unwrap().target.path, "/t/b");
    let plan = stow.stow(&mut progress, &seen(FilesystemState::Absent, "/repo/b")).unwrap();
    assert_eq!(plan.steps, creation("/repo/b", "/t/b"));
    assert_eq!(progress.index, 2);
    assert!(stow.pending(&progress).is_none());
    let plan = stow.stow(&mut progress, &seen(FilesystemState::Absent, "/repo/b")).unwrap();
    assert!(plan.steps.is_empty());
    assert_eq!(progress.index, 2);
}

#[test]
fn first_failure_stops_the_batch() {
    let s = settings(false, None);
    let stow = Stow::with_settings(&s, &found(), &vec![true, true]).unwrap();
    let mut progress = stow.begin();
    let err = stow.stow(&mut progress, &seen(FilesystemState::Directory, "/repo/a")).unwrap_err();
    assert_eq!(err, StowError::ExistingDifferentType(EntryKind::Directory));
    assert_eq!(progress.index, 0);
    assert!(!progress.relinking);
    let err = stow.unstow(&mut progress, &seen(FilesystemState::Absent, "/repo/a")).unwrap_err();
    assert_eq!(err, StowError::NotLinked);
    assert_eq!(progress.index, 0);
}

#[test]
fn stow_consults_the_override_filter() {
    let s = settings(false, Some(vec!["/t/a$".to_string()]));
    let stow = Stow::with_settings(&s, &found(), &vec![true, true]).unwrap();
    let mut progress = stow.begin();
    let plan = stow.stow(&mut progress, &seen(FilesystemState::RegularFile, "/repo/a")).unwrap();
    let mut expected = vec![Step::RemoveFile("/t/a".to_string())];
    expected.extend(creation("/repo/a", "/t/a"));
    assert_eq!(plan.steps, expected);
    let err =
        stow.stow(&mut progress, &seen(FilesystemState::RegularFile, "/repo/b")).unwrap_err();
    assert_eq!(err, StowError::ExistingDifferentType(EntryKind::RegularFile));
    assert_eq!(progress.index, 1);
}

#[test]
fn unstow_removes_each_link() {
    let s = settings(true, None);
    let stow = Stow::with_settings(&s, &found(), &vec![true, true]).unwrap();
    let mut progress = stow.begin();
    let plan = stow
        .unstow(&mut progress, &seen(FilesystemState::SymlinkTo("/repo/a".to_string()), "/repo/a"))
        .unwrap();
    assert_eq!(plan.steps, vec![Step::RemoveFile("/t/a".to_string())]);
    assert!(plan.dry_run);
    assert_eq!(progress.index, 1);
    let err = stow
        .unstow(&mut progress, &seen(FilesystemState::SymlinkTo("/other".to_string()), "/repo/b"))
        .unwrap_err();
    assert_eq!(err, StowError::TargetMismatch);
}

#[test]
fn restow_is_unlink_then_link_per_descriptor() {
    let s = settings(false, None);
    let stow = Stow::with_settings(&s, &found(), &vec![true, true]).unwrap();
    let linked = seen(FilesystemState::SymlinkTo("/repo/a".to_string()), "/repo/a");
    let mut progress = stow.begin();
    let first = stow.restow(&mut progress, &linked).unwrap();
    assert_eq!(progress.index, 0);
    assert!(progress.relinking);
    let second = stow.restow(&mut progress, &seen(FilesystemState::Absent, "/repo/a")).unwrap();
    assert_eq!(progress.index, 1);
    assert!(!progress.relinking);

    let link = &stow.links[0];
    let unlinked = link.unlink(&linked).unwrap();
    let relinked = link.link(&seen(FilesystemState::Absent, "/repo/a"), false).unwrap();
    assert_eq!(first, unlinked);
    assert_eq!(second, relinked);
    assert_eq!(first.steps, vec![Step::RemoveFile("/t/a".to_string())]);
    assert_eq!(second.steps, creation("/repo/a", "/t/a"));
}

#[test]
fn restow_fails_fast_on_either_half() {
    let s = settings(false, None);
    let stow = Stow::with_settings(&s, &found(), &vec![true, true]).unwrap();
    let mut progress = stow.begin();
    let err = stow.restow(&mut progress, &seen(FilesystemState::Absent, "/repo/a")).unwrap_err();
    assert_eq!(err, StowError::NotLinked);
    assert_eq!(progress.index, 0);
    assert!(!progress.relinking);
    let mut progress = Progress { index: 1, relinking: true };
    let err =
        stow.restow(&mut progress, &seen(FilesystemState::Directory, "/repo/b")).unwrap_err();
    assert_eq!(err, StowError::ExistingDifferentType(EntryKind::Directory));
    assert_eq!(progress.index, 1);
    assert!(progress.relinking);
}

#[test]
fn empty_batch_is_through_at_once() {
    let s = settings(false, None);
    let stow = Stow::with_settings(&s, &Vec::new(), &Vec::new()).unwrap();
    let mut progress = stow.begin();
    assert!(stow.pending(&progress).is_none());
    let plan = stow.restow(&mut progress, &seen(FilesystemState::Absent, "/x")).unwrap();
    assert!(plan.steps.is_empty());
    assert_eq!(progress.index, 0);
}

#[test]
fn advance_does_what_the_action_says() {
    let s = settings(false, None);
    let stow = Stow::with_settings(&s, &found(), &vec![true, true]).unwrap();
    let linked = seen(FilesystemState::SymlinkTo("/repo/a".to_string()), "/repo/a");
    let absent = seen(FilesystemState::Absent, "/repo/a");

    let mut progress = stow.begin();
    let plan = stow.advance(Action::Stow, &mut progress, &absent).unwrap();
    assert_eq!(plan.steps, creation("/repo/a", "/t/a"));
    assert_eq!(progress.index, 1);

    let mut progress = stow.begin();
    let plan = stow.advance(Action::Unstow, &mut progress, &linked).unwrap();
    assert_eq!(plan.steps, vec![Step::RemoveFile("/t/a".to_string())]);
    assert_eq!(progress.index, 1);

    let mut progress = stow.begin();
    let plan = stow.advance(Action::Restow, &mut progress, &linked).unwrap();
    assert_eq!(plan.steps, vec![Step::RemoveFile("/t/a".to_string())]);
    assert_eq!(progress.index, 0);
    assert!(progress.relinking);
    let plan = stow.advance(Action::Restow, &mut progress, &absent).unwrap();
    assert_eq!(plan.steps, creation("/repo/a", "/t/a"));
    assert_eq!(progress.index, 1);
    assert!(!progress.relinking);

    let mut progress = stow.begin();
    let err = stow.advance(Action::Unstow, &mut progress, &absent).unwrap_err();
    assert_eq!(err, StowError::NotLinked);
    assert_eq!(progress.index, 0);
}
