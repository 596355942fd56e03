use tirc::state::State;

#[test]
fn test_get_buffer_name_by_index() {
    let state = State::default();
    assert_eq!(state.get_buffer_name_by_index(0), "(status)");
}

#[test]
fn test_get_current_buffer_index() {
    let state = State::default();
    assert_eq!(state.get_current_buffer_index(), 0);
}

#[test]
fn test_set_current_buffer_index() {
    let mut state = State::default();
    state.create_buffer_if_not_exists("foo");
    assert_eq!(state.get_current_buffer_index(), 0);
    state.set_current_buffer_index(1);
    assert_eq!(state.get_current_buffer_index(), 1);
}

#[test]
fn test_set_current_buffer() {
    let mut state = State::default();
    state.create_buffer_if_not_exists("foo");
    assert_eq!(state.get_current_buffer_index(), 0);
    state.set_current_buffer("foo");
    assert_eq!(state.get_current_buffer_index(), 1);
}

#[test]
fn test_next_buffer() {
    let mut state = State::default();
    state.create_buffer_if_not_exists("foo");
    state.create_buffer_if_not_exists("bar");
    assert_eq!(state.get_current_buffer_index(), 0);
    state.next_buffer();
    assert_eq!(state.get_current_buffer_index(), 1);
    state.next_buffer();
    assert_eq!(state.get_current_buffer_index(), 2);
    state.next_buffer();
    assert_eq!(state.get_current_buffer_index(), 0);
}

#[test]
fn test_previous_buffer() {
    let mut state = State::default();
    state.create_buffer_if_not_exists("foo");
    state.create_buffer_if_not_exists("bar");
    assert_eq!(state.get_current_buffer_index(), 0);
    state.previous_buffer();
    assert_eq!(state.get_current_buffer_index(), 2);
    state.previous_buffer();
    assert_eq!(state.get_current_buffer_index(), 1);
    state.previous_buffer();
    assert_eq!(state.get_current_buffer_index(), 0);
}

#[test]
fn test_create_buffer_if_not_exists() {
    let mut state = State::default();
    state.create_buffer_if_not_exists("foo");
    assert_eq!(state.buffers.len(), 2);
    state.create_buffer_if_not_exists("foo");
    assert_eq!(state.buffers.len(), 2);
}

#[test]
fn test_get_current_buffer_is_current() {
    let mut state = State::default();
    state.create_buffer_if_not_exists("foo");
    state.set_current_buffer("foo");
    let buffer = state.get_current_buffer().expect("current buffer must exist");
    assert_eq!(buffer.name, "foo");
    assert!(buffer.messages.is_empty());
}

#[test]
fn test_default_buffer_name() {
    assert_eq!(State::get_default_buffer_name(), "(status)");
}
