use editor_core::statemachine::{StateMachine, States};

#[test]
fn statemachine_test_motion() {
    let mut sm = StateMachine::new();

    sm.recv('d');
    assert_eq!(sm.input, vec!["d".to_string()]);
    assert_eq!(sm.state, States::NeedsParam);

    sm.refresh();
    assert!(sm.queue.is_empty());
}

#[test]
fn reset_always_yields_start_and_empty() {
    // feeding arbitrary characters and resetting at any point leaves the
    // parser in Start with nothing buffered
    let mut sm = StateMachine::new();
    for c in ['1', '2', 'd', '9'] {
        sm.recv(c);
        sm.refresh();
        assert_eq!(sm.state, States::Start);
        assert!(sm.input.is_empty());
        assert!(sm.queue.is_empty());
    }
    sm.recv('4');
    sm.recv('2');
    sm.refresh();
    assert_eq!(sm.state, States::Start);
    assert!(sm.input.is_empty());
    assert!(sm.queue.is_empty());
}

#[test]
fn operator_waits_for_parameter() {
    // "d" leaves the parser waiting with the single token "d"; "j" completes
    // the motion as ["d","j"], and the next character re-enters Start
    let mut sm = StateMachine::new();
    let st = sm.recv('d');
    assert_eq!(st, States::NeedsParam);
    assert_eq!(sm.fetch(), vec!["d".to_string()]);

    let st = sm.recv('j');
    assert_eq!(st, States::End);
    assert_eq!(sm.fetch(), vec!["d".to_string(), "j".to_string()]);

    sm.refresh();
    let st = sm.recv('j');
    assert_eq!(st, States::End);
    assert_eq!(sm.fetch(), vec!["j".to_string()]);
}

#[test]
fn count_then_operator_then_motion() {
    // "11d" buffers the count and flushes it as one token before "d"; the
    // final "j" completes the motion
    let mut sm = StateMachine::new();
    sm.recv('1');
    sm.recv('1');
    assert!(sm.fetch().is_empty());
    sm.recv('d');
    assert_eq!(sm.fetch(), vec!["11".to_string(), "d".to_string()]);

    let st = sm.recv('j');
    assert_eq!(st, States::End);
    assert_eq!(sm.fetch(), vec!["11".to_string(), "d".to_string(), "j".to_string()]);

    // after completion the machine is reset by its host and ready again
    sm.refresh();
    assert_eq!(sm.state, States::Start);
    assert!(sm.input.is_empty());
    assert!(sm.queue.is_empty());
}

#[test]
fn bare_motion_completes_immediately() {
    let mut sm = StateMachine::new();
    let st = sm.recv('j');
    assert_eq!(st, States::End);
    assert_eq!(sm.fetch(), vec!["j".to_string()]);
}

#[test]
fn operator_embeds_its_own_count() {
    // "d3j": digits after an operator extend a pending count
    let mut sm = StateMachine::new();
    assert_eq!(sm.recv('d'), States::NeedsParam);
    assert_eq!(sm.recv('3'), States::NeedsParam);
    assert_eq!(sm.recv('j'), States::End);
    assert_eq!(sm.fetch(), vec!["d".to_string(), "3".to_string(), "j".to_string()]);
}

#[test]
fn end_state_resets_and_processes_the_next_key() {
    // End is transient: the call after a completed motion re-enters Start
    // and the character is handled there, not dropped
    let mut sm = StateMachine::new();
    assert_eq!(sm.recv('j'), States::End);
    let st = sm.recv('1');
    assert_eq!(st, States::Start);
    assert_eq!(sm.to_string(), "j1");
    let st = sm.recv('k');
    assert_eq!(st, States::End);
    assert_eq!(sm.fetch(), vec!["j".to_string(), "1".to_string(), "k".to_string()]);
}

#[test]
fn unclassified_characters_are_dropped() {
    let mut sm = StateMachine::new();
    assert_eq!(sm.recv('x'), States::Start);
    assert!(sm.fetch().is_empty());
    assert!(sm.queue.is_empty());
}

#[test]
fn display_text_includes_pending_queue() {
    let mut sm = StateMachine::new();
    sm.recv('1');
    sm.recv('1');
    sm.recv('d');
    sm.recv('3');
    assert_eq!(sm.to_string(), "11d3");
}

#[test]
fn leader_key_enters_leader_state() {
    let mut sm = StateMachine::new();
    assert_eq!(sm.recv(' '), States::Leader);
    assert_eq!(sm.fetch(), vec!["<leader>".to_string()]);
    // the leader state is a dead end: further input is ignored
    assert_eq!(sm.recv('j'), States::Leader);
    assert_eq!(sm.fetch(), vec!["<leader>".to_string()]);
}
