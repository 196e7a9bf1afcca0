use bytes::Bytes;
use godcoin::log::{CommitErr, Entry, Log, MemStorage, Storage};

fn gen_ents(start_index: u64, len: usize) -> Vec<Entry> {
    gen_ents_term(start_index, 0, len)
}

fn gen_ents_term(start_index: u64, term: u64, len: usize) -> Vec<Entry> {
    let mut entries = Vec::with_capacity(len);
    for i in 0..len {
        entries.push(Entry {
            index: start_index + i as u64,
            term,
            data: Bytes::new(),
        });
    }
    entries
}

fn replace_entry_data(entries: &mut [Entry], data: Bytes) {
    for e in entries {
        e.data = data.clone();
    }
}

fn init_log(stable_index: u64) -> Log<MemStorage> {
    let mut storage = MemStorage::new();
    storage.commit_stable_entries(gen_ents(1, stable_index as usize));
    Log::new(storage)
}

#[test]
fn commit_during_empty_log_with_stable_index() {
    let stable_index = 100;
    let mut log = init_log(stable_index);

    let entries = gen_ents(stable_index + 1, 25);
    assert_eq!(log.try_commit(entries), Ok(()));
    assert_eq!(log.unstable_len(), 25);
}

#[test]
fn commit_new_log() {
    let mut log = init_log(0);

    let entries = gen_ents(1, 25);
    assert_eq!(log.try_commit(entries), Ok(()));
    assert_eq!(log.unstable_len(), 25);
    assert_eq!(log.stable_index(), 0);
}

#[test]
fn commit_multiple_times() {
    let mut log = init_log(0);
    for i in 1..=10 {
        let entries = gen_ents(i, 1);
        assert_eq!(log.try_commit(entries), Ok(()));
        assert_eq!(log.unstable_len() as u64, i);
        assert_eq!(log.stable_index(), 0);
    }

    for i in 1..=10usize {
        assert_eq!(log.unstable_entry(i - 1).index, i as u64);
    }
}

#[test]
fn commit_err_with_gap_in_log() {
    let mut log = init_log(0);

    {
        let entries = gen_ents(2, 1);
        assert_eq!(log.try_commit(entries), Err(CommitErr::IndexTooHigh));
        assert_eq!(log.unstable_len(), 0);
        assert_eq!(log.stable_index(), 0);
    }
    {
        let entries = gen_ents(1, 10);
        assert_eq!(log.try_commit(entries), Ok(()));

        let entries = gen_ents(12, 10);
        assert_eq!(log.try_commit(entries), Err(CommitErr::IndexTooHigh));

        assert_eq!(log.unstable_len(), 10);
        assert_eq!(log.stable_index(), 0);
    }
}

#[test]
fn cannot_revert_stable_index() {
    fn run_test(start_index: u64) {
        let mut log = init_log(start_index);

        let entries = gen_ents(start_index, 10);
        assert_eq!(
            log.try_commit(entries),
            Err(CommitErr::CannotRevertStableIndex)
        );
        assert_eq!(log.unstable_len(), 0);
        assert_eq!(log.stable_index(), start_index);
    }

    run_test(0);
    run_test(100);
}

#[test]
fn commit_with_conflicts_same_term() {
    let mut log = init_log(0);

    {
        let mut entries = gen_ents(1, 25);
        replace_entry_data(&mut entries, Bytes::from(vec![1]));
        assert_eq!(log.try_commit(entries), Ok(()));
        assert_eq!(log.unstable_len(), 25);
    }
    {
        let mut entries = gen_ents(20, 25);
        replace_entry_data(&mut entries, Bytes::from(vec![2]));
        assert_eq!(log.try_commit(entries), Ok(()));
        // Entries 20 through 25 are replaced (6 in all), and 19 more are
        // appended to the log.
        assert_eq!(log.unstable_len(), 44);
    }

    for i in 0..19 {
        assert_eq!(log.unstable_entry(i).data[0], 1);
    }
    for i in 20..44 {
        assert_eq!(log.unstable_entry(i).data[0], 2);
    }
}

#[test]
fn commit_with_conflicts_diff_term() {
    let mut log = init_log(0);

    {
        let mut entries = gen_ents(1, 25);
        replace_entry_data(&mut entries, Bytes::from(vec![1]));
        assert_eq!(log.try_commit(entries), Ok(()));
        assert_eq!(log.unstable_len(), 25);
    }
    {
        let mut entries = gen_ents_term(20, 2, 25);
        replace_entry_data(&mut entries, Bytes::from(vec![2]));
        assert_eq!(log.try_commit(entries), Ok(()));
        assert_eq!(log.unstable_len(), 44);
    }

    for i in 0..19 {
        assert_eq!(log.unstable_entry(i).data[0], 1);
    }
    for i in 20..44 {
        assert_eq!(log.unstable_entry(i).data[0], 2);
    }
}

#[test]
fn can_find_conflict() {
    let mut log = init_log(0);

    let entries = gen_ents(1, 25);
    assert_eq!(log.try_commit(entries), Ok(()));

    let entries = gen_ents(20, 30);
    let idx = log.find_conflict(&entries).expect("Failed to find conflict");
    assert_eq!(log.unstable_entry(idx).index, 20);

    let entries = gen_ents(26, 5);
    assert_eq!(log.find_conflict(&entries), None);
}

#[test]
fn can_find_entry() {
    let mut log = init_log(0);

    let entries = gen_ents(1, 25);
    assert_eq!(log.try_commit(entries), Ok(()));

    // The starting entry every log begins with.
    assert!(log.contains_entry(0, 0));

    for i in 1..=25 {
        assert!(log.contains_entry(0, i));
        assert!(!log.contains_entry(1, i));
    }
}

#[test]
fn can_find_entry_pos() {
    let mut log = init_log(0);

    let entries = gen_ents(1, 25);
    assert_eq!(log.try_commit(entries), Ok(()));

    assert_eq!(log.find_index_pos(0), None);
    assert_eq!(log.find_index_pos(26), None);
    for i in 0..25u64 {
        assert_eq!(log.find_index_pos(i + 1), Some(i as usize));
    }
}

#[test]
fn stabilize_to_empty_unstable_entries() {
    let mut log = init_log(10);
    log.stabilize_to(11);
    assert_eq!(log.stable_index(), 10);
}

#[test]
fn stabilize_to_already_stable_index() {
    let mut log = init_log(10);

    log.stabilize_to(9);
    assert_eq!(log.stable_index(), 10);

    log.stabilize_to(10);
    assert_eq!(log.stable_index(), 10);
}

#[test]
fn stabilize_to_under_last_unstable_index() {
    let mut log = init_log(0);
    let entries = gen_ents(1, 25);
    assert_eq!(log.try_commit(entries), Ok(()));

    log.stabilize_to(20);
    for (expected_index, entry) in (1..=20u64).zip(log.storage().stable_entries()) {
        assert_eq!(expected_index, entry.index);
    }

    assert_eq!(log.stable_index(), 20);
    assert_eq!(log.unstable_len(), 5);

    for (offset, expected_index) in (21..=25u64).enumerate() {
        assert_eq!(expected_index, log.unstable_entry(offset).index);
    }
}

#[test]
fn stabilize_to_last_unstable_index() {
    let mut log = init_log(0);
    let entries = gen_ents(1, 25);
    assert_eq!(log.try_commit(entries), Ok(()));

    log.stabilize_to(25);
    for (expected_index, entry) in (1..=25u64).zip(log.storage().stable_entries()) {
        assert_eq!(expected_index, entry.index);
    }

    assert_eq!(log.stable_index(), 25);
    assert_eq!(log.unstable_len(), 0);
}

#[test]
fn stabilize_to_above_last_unstable_index() {
    let mut log = init_log(0);
    let entries = gen_ents(1, 25);
    assert_eq!(log.try_commit(entries), Ok(()));

    log.stabilize_to(30);
    for (expected_index, entry) in (1..=25u64).zip(log.storage().stable_entries()) {
        assert_eq!(expected_index, entry.index);
    }

    assert_eq!(log.stable_index(), 25);
    assert_eq!(log.unstable_len(), 0);
}

#[test]
fn log_up_to_date_checks() {
    let mut log = init_log(0);
    let entries = gen_ents_term(1, 5, 25);
    assert_eq!(log.try_commit(entries), Ok(()));

    assert!(log.is_up_to_date(log.last_index(), log.last_term()));
    assert!(log.is_up_to_date(20, 6));
    assert!(log.is_up_to_date(25, 5));
    assert!(log.is_up_to_date(26, 5));

    assert!(!log.is_up_to_date(24, 5));
    assert!(!log.is_up_to_date(25, 4));
    assert!(!log.is_up_to_date(26, 4));
}

#[test]
fn entry_new_holds_payload() {
    let e = Entry::new(7, 3, vec![9, 4]);
    assert_eq!(e.index, 7);
    assert_eq!(e.term, 3);
    assert_eq!(e.data[0], 9);
    assert_eq!(e.data[1], 4);
    assert_eq!(e.data.len(), 2);
}
