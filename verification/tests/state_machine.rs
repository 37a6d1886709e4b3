use hex_assistant_app::state_machine::{
    AssistantStateMachine, AssistantStatus, AugmentChoice, LivePlayerSnapshot, PanelState,
    PauseReason, StateEventKind, StateMachineInput,
};

fn player(level: u8) -> LivePlayerSnapshot {
    LivePlayerSnapshot {
        champion_name: "Ahri".to_string(),
        level,
    }
}

fn choice(slot: u8, id: &str) -> AugmentChoice {
    AugmentChoice {
        slot,
        augment_id: id.to_string(),
    }
}

fn input(level: u8, panel_state: PanelState, choices: Vec<AugmentChoice>) -> StateMachineInput {
    StateMachineInput {
        player: Some(player(level)),
        panel_state,
        choices,
        selected_slot: None,
        pause_reason: None,
    }
}

#[test]
fn tracks_multiple_pending_tiers() {
    let mut machine = AssistantStateMachine::new();

    machine.apply(input(
        3,
        PanelState::Expanded,
        vec![choice(0, "tier3-a"), choice(1, "tier3-b")],
    ));
    assert_eq!(machine.state().pending_tier, Some(3));

    machine.apply(StateMachineInput {
        selected_slot: Some(0),
        ..input(
            3,
            PanelState::Expanded,
            vec![choice(0, "tier3-a"), choice(1, "tier3-b")],
        )
    });
    assert!(machine.state().completed_tiers.contains(&3));

    machine.apply(input(
        11,
        PanelState::Expanded,
        vec![choice(0, "tier7-a"), choice(1, "tier7-b")],
    ));
    assert_eq!(machine.state().pending_tier, Some(7));

    machine.apply(StateMachineInput {
        selected_slot: Some(1),
        ..input(
            11,
            PanelState::Expanded,
            vec![choice(0, "tier7-a"), choice(1, "tier7-b")],
        )
    });
    assert!(machine.state().completed_tiers.contains(&7));

    machine.apply(input(
        11,
        PanelState::Expanded,
        vec![choice(0, "tier11-a"), choice(1, "tier11-b")],
    ));
    assert_eq!(machine.state().pending_tier, Some(11));
}

#[test]
fn collapsed_panel_does_not_complete_pending_tier() {
    let mut machine = AssistantStateMachine::new();

    machine.apply(input(
        7,
        PanelState::Collapsed,
        vec![choice(0, "tier3-a"), choice(1, "tier3-b")],
    ));

    assert_eq!(machine.state().pending_tier, Some(3));
    assert!(machine.state().completed_tiers.is_empty());
    assert_eq!(machine.state().visible_choices.len(), 0);

    machine.apply(StateMachineInput {
        selected_slot: Some(0),
        ..input(
            7,
            PanelState::Collapsed,
            vec![choice(0, "tier3-a"), choice(1, "tier3-b")],
        )
    });

    assert_eq!(machine.state().pending_tier, Some(3));
    assert!(machine.state().completed_tiers.is_empty());
}

#[test]
fn reroll_refreshes_only_changed_slot() {
    let mut machine = AssistantStateMachine::new();

    machine.apply(input(
        3,
        PanelState::Expanded,
        vec![
            choice(0, "stable-a"),
            choice(1, "old-b"),
            choice(2, "stable-c"),
        ],
    ));

    let events = machine.apply(input(
        3,
        PanelState::Expanded,
        vec![
            choice(0, "stable-a"),
            choice(1, "new-b"),
            choice(2, "stable-c"),
        ],
    ));

    let refreshed_slots = events
        .iter()
        .filter(|event| event.kind == StateEventKind::SlotRefreshed)
        .map(|event| event.slot)
        .collect::<Vec<_>>();

    assert_eq!(refreshed_slots, vec![Some(1)]);
    assert_eq!(
        machine.state().visible_choices.get(&1),
        Some(&"new-b".to_string())
    );
}

#[test]
fn pause_keeps_progress_and_resume_is_reported_first() {
    let mut machine = AssistantStateMachine::new();
    machine.apply(input(7, PanelState::Collapsed, vec![]));
    let before = machine.state().clone();

    let events = machine.apply(StateMachineInput {
        pause_reason: Some(PauseReason::LiveClientUnavailable),
        ..input(11, PanelState::Expanded, vec![choice(1, "x")])
    });
    assert_eq!(events.len(), 1);
    assert_eq!(events[0].kind, StateEventKind::Paused);
    assert_eq!(machine.state().status, AssistantStatus::Paused);
    assert_eq!(machine.state().pending_tiers, before.pending_tiers);
    assert_eq!(machine.state().player, before.player);

    let events = machine.apply(input(7, PanelState::Collapsed, vec![]));
    assert_eq!(events[0].kind, StateEventKind::Resumed);
    assert_eq!(machine.state().status, AssistantStatus::PendingSelection);
    assert_eq!(machine.state().pause_reason, None);
}

#[test]
fn repeated_input_reports_nothing_new() {
    let mut machine = AssistantStateMachine::new();
    let first = machine.apply(input(11, PanelState::Expanded, vec![choice(1, "a"), choice(2, "b")]));
    assert!(!first.is_empty());
    let second = machine.apply(input(11, PanelState::Expanded, vec![choice(1, "a"), choice(2, "b")]));
    assert!(second.is_empty());
    assert_eq!(machine.state().pending_tiers, vec![3, 7, 11]);
}

#[test]
fn new_champion_clears_completed_tiers() {
    let mut machine = AssistantStateMachine::new();
    machine.apply(input(3, PanelState::Expanded, vec![choice(0, "a")]));
    machine.apply(StateMachineInput {
        selected_slot: Some(0),
        ..input(3, PanelState::Expanded, vec![choice(0, "a")])
    });
    assert!(machine.state().completed_tiers.contains(&3));
    let events = machine.apply(StateMachineInput {
        player: Some(LivePlayerSnapshot {
            champion_name: "Zed".to_string(),
            level: 5,
        }),
        ..input(5, PanelState::Collapsed, vec![])
    });
    assert!(machine.state().completed_tiers.is_empty());
    assert_eq!(events[0].kind, StateEventKind::PlayerChanged);
    assert_eq!(events[0].previous_value.as_deref(), Some("Ahri"));
    assert_eq!(events[0].next_value.as_deref(), Some("Zed"));
    assert_eq!(events[1].kind, StateEventKind::LevelChanged);
    assert_eq!(events[1].previous_value.as_deref(), Some("3"));
    assert_eq!(events[1].next_value.as_deref(), Some("5"));
    assert_eq!(machine.state().pending_tier, Some(3));
}

#[test]
fn panel_change_reports_debug_names() {
    let mut machine = AssistantStateMachine::new();
    let events = machine.apply(input(1, PanelState::Expanded, vec![]));
    let panel = events
        .iter()
        .find(|event| event.kind == StateEventKind::PanelExpanded)
        .expect("panel event");
    assert_eq!(panel.previous_value.as_deref(), Some("Collapsed"));
    assert_eq!(panel.next_value.as_deref(), Some("Expanded"));
    assert_eq!(machine.state().status, AssistantStatus::WaitingForTier);
}

#[test]
fn running_step_settles_on_reached_tiers() {
    let mut machine = AssistantStateMachine::new();
    machine.apply(StateMachineInput {
        pause_reason: Some(PauseReason::LiveClientUnavailable),
        ..input(3, PanelState::Collapsed, vec![])
    });
    machine.apply(StateMachineInput {
        selected_slot: Some(0),
        ..input(15, PanelState::Expanded, vec![choice(0, "a")])
    });
    let state = machine.state();
    assert_eq!(state.player, Some(player(15)));
    assert_eq!(state.pause_reason, None);
    assert_eq!(state.panel_state, PanelState::Expanded);
    assert!(state.completed_tiers.contains(&3));
    assert_eq!(state.pending_tiers, vec![7, 11, 15]);
    assert_eq!(state.pending_tier, Some(7));
    assert_eq!(state.status, AssistantStatus::PendingSelection);

    machine.apply(input(2, PanelState::Collapsed, vec![]));
    let state = machine.state();
    assert_eq!(state.pending_tiers, Vec::<u8>::new());
    assert_eq!(state.pending_tier, None);
    assert_eq!(state.status, AssistantStatus::WaitingForTier);
}

#[test]
fn completion_needs_a_reported_choice_in_the_selected_slot() {
    let mut machine = AssistantStateMachine::new();
    machine.apply(input(8, PanelState::Expanded, vec![choice(0, "a"), choice(1, "b")]));
    let events = machine.apply(StateMachineInput {
        selected_slot: Some(2),
        ..input(8, PanelState::Expanded, vec![choice(0, "a"), choice(1, "b")])
    });
    assert!(events.iter().all(|e| e.kind != StateEventKind::TierCompleted));
    assert!(machine.state().completed_tiers.is_empty());

    let events = machine.apply(StateMachineInput {
        selected_slot: Some(1),
        ..input(8, PanelState::Expanded, vec![choice(0, "a"), choice(1, "b")])
    });
    let completed: Vec<_> = events.iter().filter(|e| e.kind == StateEventKind::TierCompleted).collect();
    assert_eq!(completed.len(), 1);
    assert_eq!(completed[0].tier, Some(3));
    assert_eq!(completed[0].slot, Some(1));
    assert_eq!(machine.state().completed_tiers.iter().copied().collect::<Vec<u8>>(), vec![3]);
    assert_eq!(machine.state().pending_tier, Some(7));
}
