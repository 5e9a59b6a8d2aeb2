use yunta_engine::escalation::GateOption;
use yunta_engine::reserved::{self, ReservedOption};

fn every_offer() -> Vec<GateOption> {
    let node = "fix-lint".to_string();
    let declared_id = "ship-it".to_string();
    vec![
        reserved::abort(),
        reserved::retry("fix-lint", 0),
        reserved::promote("ship", "standard"),
        reserved::continue_past_tokens(),
        reserved::abort_on_tokens(),
        reserved::continue_past_iterations(),
        reserved::abort_on_iterations(),
        reserved::approve_from_console(),
        reserved::reject_from_console(),
        reserved::grant("src/session/"),
        reserved::deny(),
        reserved::declared(&declared_id, Some(&node)),
        reserved::declared(&declared_id, None),
    ]
}

#[test]
fn every_option_the_engine_offers_says_what_choosing_it_costs() {
    for option in every_offer() {
        assert!(
            !option.tradeoff.trim().is_empty(),
            "`{}` is offered without what it trades off, which is what makes \
             the choice a decision rather than a guess",
            option.id
        );
        assert!(
            !option.label.trim().is_empty(),
            "`{}` is offered with nothing to read on its row",
            option.id
        );
    }
}

#[test]
fn an_offer_is_answered_by_the_id_the_engine_reads_back() {
    for option in every_offer() {
        let id = &option.id;
        assert!(
            ReservedOption::of(id).is_some() || id.as_str() == "ship-it",
            "`{id}` is offered but no reserved option spells it, so the run \
             loop cannot act on the answer"
        );
    }
}

#[test]
fn each_reserved_option_reads_back_as_itself() {
    for option in [
        ReservedOption::Abort,
        ReservedOption::Retry,
        ReservedOption::Promote,
        ReservedOption::Approve,
        ReservedOption::Grant,
        ReservedOption::Deny,
        ReservedOption::Continue,
        ReservedOption::Reject,
    ] {
        assert_eq!(ReservedOption::of(option.as_str()), Some(option));
        assert_eq!(option.id(), option.as_str());
    }
    assert_eq!(ReservedOption::of("Abort"), None);
    assert_eq!(ReservedOption::of(""), None);
}

#[test]
fn a_retry_names_its_target_and_the_cap_it_passes() {
    let option = reserved::retry("fix-lint", 2);
    assert_eq!(option.id, "retry");
    assert_eq!(option.label, "Re-route to `fix-lint` once more");
    assert_eq!(
        option.tradeoff,
        "Uses one extra correction attempt beyond the declared max_reroutes (2); escalates again if `fix-lint` doesn't fix it"
    );
}
