use ddbstream::poll::{PollState, ShardCursor};

fn sc(shard: &str, cursor: &str) -> ShardCursor {
    ShardCursor { shard: shard.to_string(), cursor: cursor.to_string() }
}

fn pairs(state: &PollState) -> Vec<(String, String)> {
    state.cursors().iter().map(|c| (c.shard.clone(), c.cursor.clone())).collect()
}

#[test]
fn shard_moves_to_next_cursor() {
    let mut state = PollState::new(vec![sc("s1", "c0")]);
    assert_eq!(pairs(&state), vec![("s1".to_string(), "c0".to_string())]);
    state.advance(vec![Some("c1".to_string())]);
    assert_eq!(pairs(&state), vec![("s1".to_string(), "c1".to_string())]);
    assert!(!state.is_finished());
}

#[test]
fn closed_shard_is_dropped_and_others_go_on() {
    let mut state = PollState::new(vec![sc("a", "a0"), sc("b", "b0"), sc("c", "c0")]);
    state.advance(vec![Some("a1".to_string()), None, Some("c1".to_string())]);
    assert_eq!(
        pairs(&state),
        vec![("a".to_string(), "a1".to_string()), ("c".to_string(), "c1".to_string())]
    );
    state.advance(vec![Some("a2".to_string()), Some("c2".to_string())]);
    assert_eq!(
        pairs(&state),
        vec![("a".to_string(), "a2".to_string()), ("c".to_string(), "c2".to_string())]
    );
    assert_eq!(state.shard_count(), 2);
}

#[test]
fn all_shards_closed_finishes() {
    let mut state = PollState::new(vec![sc("a", "a0"), sc("b", "b0")]);
    state.advance(vec![None, None]);
    assert!(state.is_finished());
    assert_eq!(state.shard_count(), 0);
    state.advance(vec![]);
    assert!(state.is_finished());
}

#[test]
fn empty_state_is_finished() {
    let state = PollState::new(vec![]);
    assert!(state.is_finished());
}
