use nstow::error::StowError;
use nstow::settings::{
    check_for_default_stowfile, default_stowfile_candidates, default_stowfile_name,
    select_action, Action, DEFAULT_STOWFILE_COUNT,
};

#[test]
fn stowing_is_the_default_action() {
    assert_eq!(select_action(false, false, false), Ok(Action::Stow));
    assert_eq!(select_action(true, false, false), Ok(Action::Stow));
    assert_eq!(select_action(false, true, false), Ok(Action::Unstow));
    assert_eq!(select_action(false, false, true), Ok(Action::Restow));
}

#[test]
fn only_one_action_may_be_asked_for() {
    assert_eq!(select_action(true, true, false), Err(StowError::ConflictingActions));
    assert_eq!(select_action(true, false, true), Err(StowError::ConflictingActions));
    assert_eq!(select_action(false, true, true), Err(StowError::ConflictingActions));
    assert_eq!(select_action(true, true, true), Err(StowError::ConflictingActions));
}

#[test]
fn default_names_come_in_order() {
    let names: Vec<&str> = (0..DEFAULT_STOWFILE_COUNT).map(default_stowfile_name).collect();
    assert_eq!(
        names,
        vec![
            "stowfile",
            "Stowfile",
            "STOWFILE",
            "stowfile.yaml",
            "Stowfile.yaml",
            "STOWFILE.yaml"
        ]
    );
    let candidates = default_stowfile_candidates("/work");
    assert_eq!(candidates.len(), 6);
    assert_eq!(candidates[0], "/work/stowfile");
    assert_eq!(candidates[5], "/work/STOWFILE.yaml");
}

#[test]
fn first_candidate_that_is_there_is_picked() {
    let found = vec![false, false, true, false, true, false];
    assert_eq!(check_for_default_stowfile("/work", &found), Some("/work/STOWFILE".to_string()));
    assert_eq!(check_for_default_stowfile("/work", &vec![false; 6]), None);
    assert_eq!(check_for_default_stowfile("/work", &Vec::new()), None);
    assert_eq!(
        check_for_default_stowfile("/work/", &vec![true]),
        Some("/work/stowfile".to_string())
    );
    let beyond = vec![false, false, false, false, false, false, true];
    assert_eq!(check_for_default_stowfile("/work", &beyond), None);
}
