use n_orbital::{Access, AccessConflict};

#[test]
fn a_new_accumulator_is_free() {
    assert_eq!(Access::new(), Access::Free);
    assert_eq!(Access::default(), Access::Free);
}

#[test]
fn reading_while_a_contribution_is_added_is_a_conflict() {
    let mut access = Access::new();
    assert_eq!(access.begin_write(), Ok(()));
    assert_eq!(access, Access::Exclusive);
    assert_eq!(access.begin_read(), Err(AccessConflict));
    assert_eq!(access, Access::Exclusive);
}

#[test]
fn adding_while_the_accumulator_is_read_is_a_conflict() {
    let mut access = Access::new();
    assert_eq!(access.begin_read(), Ok(()));
    assert_eq!(access, Access::Shared(1));
    assert_eq!(access.begin_write(), Err(AccessConflict));
    assert_eq!(access, Access::Shared(1));
}

#[test]
fn adding_while_another_contribution_is_added_is_a_conflict() {
    let mut access = Access::new();
    assert_eq!(access.begin_write(), Ok(()));
    assert_eq!(access.begin_write(), Err(AccessConflict));
    assert_eq!(access, Access::Exclusive);
}

#[test]
fn readers_share_the_accumulator() {
    let mut access = Access::new();
    assert_eq!(access.begin_read(), Ok(()));
    assert_eq!(access.begin_read(), Ok(()));
    assert_eq!(access.begin_read(), Ok(()));
    assert_eq!(access, Access::Shared(3));
    access.end_read();
    assert_eq!(access, Access::Shared(2));
    access.end_read();
    access.end_read();
    assert_eq!(access, Access::Free);
    assert_eq!(access.begin_write(), Ok(()));
}

#[test]
fn the_accumulator_is_free_again_after_a_contribution() {
    let mut access = Access::new();
    assert_eq!(access.begin_write(), Ok(()));
    access.end_write();
    assert_eq!(access, Access::Free);
    assert_eq!(access.begin_read(), Ok(()));
}

#[test]
fn an_exhausted_count_of_readers_lets_no_reader_in() {
    let mut access = Access::Shared(usize::MAX);
    assert_eq!(access.begin_read(), Err(AccessConflict));
    assert_eq!(access, Access::Shared(usize::MAX));
    let mut access = Access::Shared(usize::MAX - 1);
    assert_eq!(access.begin_read(), Ok(()));
    assert_eq!(access, Access::Shared(usize::MAX));
}
