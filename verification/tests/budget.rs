use yunta_engine::budget::{budget_decision, loop_overrun_escalation, over_budget_escalation, session_token_budget, BudgetDecision};
use yunta_engine::escalation::{Escalation, EscalationError, Fact, GateOption};
use yunta_engine::schedule::PauseReason;

#[test]
fn a_session_gets_an_equal_share_bounded_by_what_remains() {
    assert_eq!(session_token_budget(1000, 0, 4), 250);
    assert_eq!(session_token_budget(1000, 900, 4), 100);
    assert_eq!(session_token_budget(1000, 1200, 4), 0);
    assert_eq!(session_token_budget(1000, 0, 0), 1000);
    assert_eq!(session_token_budget(10, 0, 3), 3);
}

#[test]
fn the_token_cap_escalation_states_its_record_and_two_options() {
    let (escalation, reason) = over_budget_escalation(&"r1".to_string(), 1200, 1000).expect("distinct options");
    assert_eq!(escalation.claim, "run `r1` exhausted its token budget");
    assert_eq!(
        escalation.facts,
        vec![
            Fact::Labelled { label: "limits.max_tokens_per_run".to_string(), value: "1000".to_string() },
            Fact::Labelled { label: "total input+output tokens derived from the event log".to_string(), value: "1200".to_string() },
        ]
    );
    let ids: Vec<&str> = escalation.options.iter().map(|o| o.id.as_str()).collect();
    assert_eq!(ids, vec!["continue", "abort"]);
    assert_eq!(reason, PauseReason::BudgetExhausted { spent: 1200, cap: 1000 });
}

#[test]
fn a_loop_overrun_names_the_iterations_already_run() {
    let (escalation, reason) = loop_overrun_escalation(&"impl".to_string(), 6, 5).unwrap();
    assert_eq!(escalation.claim, "loop `impl` needs another iteration and its cap is spent");
    assert_eq!(escalation.facts[0], Fact::Labelled { label: "iterations already run this invocation".to_string(), value: "5".to_string() });
    assert_eq!(escalation.facts[2], Fact::Bare { text: "the tasks document still has ready tasks".to_string() });
    assert_eq!(reason, PauseReason::LoopOverrun { node: "impl".to_string(), cap: 5 });
}

#[test]
fn only_continue_lifts_the_cap() {
    let reason = PauseReason::BudgetExhausted { spent: 2, cap: 1 };
    assert_eq!(budget_decision(Some(&"continue".to_string()), reason.clone()), BudgetDecision::Continue);
    assert_eq!(budget_decision(Some(&"abort".to_string()), reason.clone()), BudgetDecision::Pause { reason: reason.clone() });
    assert_eq!(budget_decision(None, reason.clone()), BudgetDecision::Pause { reason });
}

#[test]
fn an_escalation_refuses_two_options_with_one_id() {
    let option = |id: &str| GateOption { id: id.to_string(), label: "L".to_string(), tradeoff: "T".to_string() };
    assert_eq!(
        Escalation::new("c".to_string(), vec![], option("a"), vec![option("b"), option("a")]),
        Err(EscalationError::DuplicateOption { id: "a".to_string() })
    );
    assert!(Escalation::new("c".to_string(), vec![], option("a"), vec![option("b")]).is_ok());
}
