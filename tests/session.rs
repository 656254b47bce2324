use chat_relay::session::{State, CONVERSATION_CEILING, ENGAGE_OUTCOME, FAREWELL, GREETING};

fn engaged(n: usize) -> State {
    State::CurrentlyAnswering {
        conversation: (0..n).map(|i| format!("m{}", i)).collect(),
    }
}

#[test]
fn new_session_is_idle() {
    assert!(State::default().is_idle());
    assert_eq!(State::default(), State::Start);
}

#[test]
fn stop_on_idle_session_does_nothing() {
    let mut s = State::Start;
    assert_eq!(s.stop(), None);
    assert_eq!(s, State::Start);
}

#[test]
fn stop_on_engaged_session_says_goodbye() {
    let mut s = engaged(4);
    assert_eq!(s.stop(), Some("Ok I will shut up".to_string()));
    assert_eq!(FAREWELL, "Ok I will shut up");
    assert!(s.is_idle());
}

#[test]
fn start_engages_with_empty_conversation() {
    let mut s = State::Start;
    assert_eq!(s.start(), "At your service master!");
    assert_eq!(GREETING, "At your service master!");
    assert_eq!(s, engaged(0));
    let mut t = engaged(6);
    t.start();
    assert_eq!(t, engaged(0));
}

#[test]
fn idle_session_engages_only_on_the_winning_draw() {
    for draw in 0..10u32 {
        let mut s = State::Start;
        let history = s.on_message(draw);
        if draw == ENGAGE_OUTCOME {
            assert_eq!(history, Some(Vec::new()));
        } else {
            assert_eq!(history, None);
        }
        assert_eq!(s, State::Start);
    }
}

#[test]
fn engaged_session_answers_below_the_ceiling() {
    let mut s = engaged(4);
    let history = s.on_message(0).unwrap();
    assert_eq!(history, vec!["m0", "m1", "m2", "m3"]);
    assert_eq!(s, engaged(4));
}

#[test]
fn exchange_is_appended() {
    let mut s = State::Start;
    s.record_exchange("hi".to_string(), "hello".to_string());
    assert_eq!(
        s,
        State::CurrentlyAnswering {
            conversation: vec!["hi".to_string(), "hello".to_string()]
        }
    );
    let mut t = engaged(2);
    t.record_exchange("a".to_string(), "b".to_string());
    assert_eq!(t.conversation_len(), 4);
}

#[test]
fn ninth_turn_is_answered_and_the_next_resets() {
    assert_eq!(CONVERSATION_CEILING, 10);
    let mut s = engaged(9);
    let history = s.on_message(3);
    assert_eq!(history.map(|h| h.len()), Some(9));
    s.record_exchange("tenth".to_string(), "reply".to_string());
    assert_eq!(s.conversation_len(), 11);
    assert_eq!(s.on_message(ENGAGE_OUTCOME), None);
    assert!(s.is_idle());
}

#[test]
fn full_conversation_resets_without_answer() {
    let mut s = engaged(10);
    assert_eq!(s.on_message(ENGAGE_OUTCOME), None);
    assert_eq!(s, State::Start);
}

#[test]
fn conversation_never_exceeds_the_ceiling() {
    let mut s = State::Start;
    s.start();
    let mut answered = 0;
    for i in 0..40 {
        match s.on_message(ENGAGE_OUTCOME) {
            Some(_) => {
                s.record_exchange(format!("q{}", i), format!("a{}", i));
                answered += 1;
            }
            None => {}
        }
        assert!(s.conversation_len() <= CONVERSATION_CEILING);
    }
    assert!(answered > 0);
}
