//! The augment-selection state machine.
//!
//! The machine follows the player's level through the augment tiers
//! (3, 7, 11 and 15), remembers which tiers were already chosen, mirrors the
//! choices visible on the panel and reports every transition as an event.
use std::collections::{BTreeMap, BTreeSet};
use vstd::prelude::*;
use crate::text::{decimal, decimal_string};

verus! {

broadcast use vstd::std_specs::btree::group_btree_axioms, vstd::laws_cmp::group_laws_cmp;

// ---------------------------------------------------------------------------
// Exec types
// ---------------------------------------------------------------------------

#[derive(Debug, Clone, PartialEq, Eq)]
pub struct LivePlayerSnapshot {
    pub champion_name: String,
    pub level: u8,
}

#[derive(Debug, Clone, Copy, PartialEq, Eq, Structural)]
pub enum PanelState {
    Expanded,
    Collapsed,
}

#[derive(Debug, Clone, PartialEq, Eq)]
pub struct AugmentChoice {
    pub slot: u8,
    pub augment_id: String,
}

#[derive(Debug, Clone, Copy, PartialEq, Eq, Structural)]
pub enum PauseReason {
    LiveClientUnavailable,
    InvalidLiveClientData,
    InvalidPanelData,
    UnsupportedGameMode,
}

#[derive(Debug, Clone, PartialEq, Eq)]
pub struct StateMachineInput {
    pub player: Option<LivePlayerSnapshot>,
    pub panel_state: PanelState,
    pub choices: Vec<AugmentChoice>,
    pub selected_slot: Option<u8>,
    pub pause_reason: Option<PauseReason>,
}

#[derive(Debug, Clone, Copy, PartialEq, Eq, Structural)]
pub enum AssistantStatus {
    WaitingForGame,
    WaitingForTier,
    PendingSelection,
    Paused,
}

#[derive(Debug, Clone, Copy, PartialEq, Eq, Structural)]
pub enum StateEventKind {
    PlayerChanged,
    LevelChanged,
    TierPending,
    PanelExpanded,
    PanelCollapsed,
    SlotRefreshed,
    TierCompleted,
    Paused,
    Resumed,
}

#[derive(Debug, Clone, PartialEq, Eq)]
pub struct StateTransitionEvent {
    pub kind: StateEventKind,
    pub from_status: AssistantStatus,
    pub to_status: AssistantStatus,
    pub tier: Option<u8>,
    pub slot: Option<u8>,
    pub previous_value: Option<String>,
    pub next_value: Option<String>,
    pub reason: Option<PauseReason>,
}

#[derive(Debug, Clone, PartialEq, Eq)]
pub struct AssistantState {
    pub status: AssistantStatus,
    pub player: Option<LivePlayerSnapshot>,
    pub pending_tier: Option<u8>,
    pub pending_tiers: Vec<u8>,
    pub completed_tiers: BTreeSet<u8>,
    pub panel_state: PanelState,
    pub visible_choices: BTreeMap<u8, String>,
    pub pause_reason: Option<PauseReason>,
}

#[derive(Debug)]
pub struct AssistantStateMachine {
    state: AssistantState,
}

/// A state being stepped; it is handed back to the machine once the whole
/// step is taken.
struct Stepper {
    state: AssistantState,
}

// ---------------------------------------------------------------------------
// Mathematical model
// ---------------------------------------------------------------------------

#[verifier::ext_equal]
pub struct PlayerModel {
    pub champion: Seq<char>,
    pub level: u8,
}

#[verifier::ext_equal]
pub struct StateModel {
    pub status: AssistantStatus,
    pub player: Option<PlayerModel>,
    pub pending_tier: Option<u8>,
    pub pending_tiers: Seq<u8>,
    pub completed: Set<u8>,
    pub panel: PanelState,
    pub visible: Map<u8, Seq<char>>,
    pub pause_reason: Option<PauseReason>,
}

#[verifier::ext_equal]
pub struct EventModel {
    pub kind: StateEventKind,
    pub from_status: AssistantStatus,
    pub to_status: AssistantStatus,
    pub tier: Option<u8>,
    pub slot: Option<u8>,
    pub previous_value: Option<Seq<char>>,
    pub next_value: Option<Seq<char>>,
    pub reason: Option<PauseReason>,
}

pub struct InputModel {
    pub player: Option<PlayerModel>,
    pub panel: PanelState,
    pub choices: Seq<(u8, Seq<char>)>,
    pub selected_slot: Option<u8>,
    pub pause_reason: Option<PauseReason>,
}

impl View for LivePlayerSnapshot {
    type V = PlayerModel;

    open spec fn view(&self) -> PlayerModel {
        PlayerModel { champion: self.champion_name@, level: self.level }
    }
}

pub open spec fn player_view(p: Option<LivePlayerSnapshot>) -> Option<PlayerModel> {
    match p {
        Some(p) => Some(p@),
        None => None,
    }
}

pub open spec fn opt_string_view(s: Option<String>) -> Option<Seq<char>> {
    match s {
        Some(s) => Some(s@),
        None => None,
    }
}

impl View for AugmentChoice {
    type V = (u8, Seq<char>);

    open spec fn view(&self) -> (u8, Seq<char>) {
        (self.slot, self.augment_id@)
    }
}

/// The plain content of a list of choices.
pub open spec fn choice_views(v: Seq<AugmentChoice>) -> Seq<(u8, Seq<char>)> {
    v.map_values(|c: AugmentChoice| c@)
}

impl View for StateMachineInput {
    type V = InputModel;

    open spec fn view(&self) -> InputModel {
        InputModel {
            player: player_view(self.player),
            panel: self.panel_state,
            choices: choice_views(self.choices@),
            selected_slot: self.selected_slot,
            pause_reason: self.pause_reason,
        }
    }
}

impl View for StateTransitionEvent {
    type V = EventModel;

    open spec fn view(&self) -> EventModel {
        EventModel {
            kind: self.kind,
            from_status: self.from_status,
            to_status: self.to_status,
            tier: self.tier,
            slot: self.slot,
            previous_value: opt_string_view(self.previous_value),
            next_value: opt_string_view(self.next_value),
            reason: self.reason,
        }
    }
}

pub open spec fn visible_view(m: BTreeMap<u8, String>) -> Map<u8, Seq<char>> {
    m@.map_values(|s: String| s@)
}

impl View for AssistantState {
    type V = StateModel;

    open spec fn view(&self) -> StateModel {
        StateModel {
            status: self.status,
            player: player_view(self.player),
            pending_tier: self.pending_tier,
            pending_tiers: self.pending_tiers@,
            completed: self.completed_tiers@,
            panel: self.panel_state,
            visible: visible_view(self.visible_choices),
            pause_reason: self.pause_reason,
        }
    }
}

impl View for AssistantStateMachine {
    type V = StateModel;

    closed spec fn view(&self) -> StateModel {
        self.state@
    }
}

pub open spec fn events_view(events: Seq<StateTransitionEvent>) -> Seq<EventModel> {
    events.map_values(|e: StateTransitionEvent| e@)
}

/// The augment tiers, in the order in which they unlock.
pub open spec fn augment_tiers() -> Seq<u8> {
    seq![3u8, 7u8, 11u8, 15u8]
}

/// The tiers that `level` has reached and that are not completed, ascending.
pub open spec fn spec_pending_tiers(level: u8, completed: Set<u8>) -> Seq<u8> {
    augment_tiers().filter(|t: u8| level >= t && !completed.contains(t))
}

/// The pending tiers of the current player, none without a player.
pub open spec fn player_pending_tiers(player: Option<PlayerModel>, completed: Set<u8>) -> Seq<u8> {
    match player {
        Some(p) => spec_pending_tiers(p.level, completed),
        None => Seq::empty(),
    }
}

pub open spec fn first_of(s: Seq<u8>) -> Option<u8> {
    if s.len() > 0 {
        Some(s[0])
    } else {
        None
    }
}

/// The `Debug` name of a panel state.
pub open spec fn panel_name(p: PanelState) -> Seq<char> {
    match p {
        PanelState::Expanded => seq!['E', 'x', 'p', 'a', 'n', 'd', 'e', 'd'],
        PanelState::Collapsed => seq!['C', 'o', 'l', 'l', 'a', 'p', 's', 'e', 'd'],
    }
}

pub open spec fn event(
    kind: StateEventKind,
    from_status: AssistantStatus,
    to_status: AssistantStatus,
    tier: Option<u8>,
    slot: Option<u8>,
    previous_value: Option<Seq<char>>,
    next_value: Option<Seq<char>>,
    reason: Option<PauseReason>,
) -> EventModel {
    EventModel { kind, from_status, to_status, tier, slot, previous_value, next_value, reason }
}

/// The initial state: no game, collapsed panel, nothing pending or completed.
pub open spec fn initial_state() -> StateModel {
    StateModel {
        status: AssistantStatus::WaitingForGame,
        player: None,
        pending_tier: None,
        pending_tiers: Seq::empty(),
        completed: Set::empty(),
        panel: PanelState::Collapsed,
        visible: Map::empty(),
        pause_reason: None,
    }
}

/// Leaving the paused state.
pub open spec fn resume_step(s: StateModel) -> (StateModel, Seq<EventModel>) {
    if s.status == AssistantStatus::Paused {
        (
            StateModel { pause_reason: None, ..s },
            seq![event(StateEventKind::Resumed, AssistantStatus::Paused, AssistantStatus::WaitingForTier,
                s.pending_tier, None, None, None, None)],
        )
    } else {
        (s, Seq::empty())
    }
}

/// Taking over the reported player: a new champion clears all tier progress.
pub open spec fn player_step(s: StateModel, player: Option<PlayerModel>) -> (StateModel, Seq<EventModel>) {
    let s1 = StateModel { player: player, ..s };
    let (s2, changed) = match (s.player, player) {
        (Some(prev), Some(next)) => if prev.champion != next.champion {
            (
                StateModel {
                    completed: Set::empty(),
                    pending_tier: None,
                    pending_tiers: Seq::empty(),
                    visible: Map::empty(),
                    ..s1
                },
                seq![event(StateEventKind::PlayerChanged, s.status, AssistantStatus::WaitingForTier,
                    None, None, Some(prev.champion), Some(next.champion), None)],
            )
        } else {
            (s1, Seq::empty())
        },
        (None, Some(next)) => (
            s1,
            seq![event(StateEventKind::PlayerChanged, s.status, AssistantStatus::WaitingForTier,
                None, None, None, Some(next.champion), None)],
        ),
        _ => (s1, Seq::empty()),
    };
    let level_changed = match (s.player, player) {
        (Some(prev), Some(next)) => if prev.level != next.level {
            seq![event(StateEventKind::LevelChanged, s.status, s.status, None, None,
                Some(decimal(prev.level as nat)), Some(decimal(next.level as nat)), None)]
        } else {
            Seq::empty()
        },
        _ => Seq::empty(),
    };
    (s2, changed + level_changed)
}

/// Taking over the reported panel state.
pub open spec fn panel_step(s: StateModel, panel: PanelState) -> (StateModel, Seq<EventModel>) {
    if s.panel == panel {
        (s, Seq::empty())
    } else {
        let kind = match panel {
            PanelState::Expanded => StateEventKind::PanelExpanded,
            PanelState::Collapsed => StateEventKind::PanelCollapsed,
        };
        (
            StateModel { panel: panel, ..s },
            seq![event(kind, s.status, s.status, s.pending_tier, None, Some(panel_name(s.panel)),
                Some(panel_name(panel)), None)],
        )
    }
}

/// Recomputing the pending tiers: the lowest one becomes the tier awaiting a choice.
pub open spec fn tier_step(s: StateModel) -> (StateModel, Seq<EventModel>) {
    let eligible = player_pending_tiers(s.player, s.completed);
    if eligible.len() > 0 {
        let tier = eligible[0];
        if s.pending_tier == Some(tier) {
            (StateModel { pending_tiers: eligible, status: AssistantStatus::PendingSelection, ..s }, Seq::empty())
        } else {
            (
                StateModel {
                    pending_tiers: eligible,
                    pending_tier: Some(tier),
                    status: AssistantStatus::PendingSelection,
                    ..s
                },
                seq![event(StateEventKind::TierPending, s.status, AssistantStatus::PendingSelection,
                    Some(tier), None, None, None, None)],
            )
        }
    } else {
        (StateModel { pending_tier: None, pending_tiers: Seq::empty(), visible: Map::empty(), ..s }, Seq::empty())
    }
}

/// The slot-to-augment map of a list of choices; a later choice for a slot wins.
pub open spec fn choices_map(choices: Seq<(u8, Seq<char>)>) -> Map<u8, Seq<char>>
    decreases choices.len(),
{
    if choices.len() == 0 {
        Map::empty()
    } else {
        choices_map(choices.drop_last()).insert(choices.last().0, choices.last().1)
    }
}

/// Whether `slot` shows a different augment in `next` than in `old`.
pub open spec fn slot_changed(old: Map<u8, Seq<char>>, next: Map<u8, Seq<char>>, slot: u8) -> bool {
    next.contains_key(slot) && !(old.contains_key(slot) && old[slot] == next[slot])
}

/// The slots below `n` that changed, ascending.
pub open spec fn changed_slots(old: Map<u8, Seq<char>>, next: Map<u8, Seq<char>>, n: nat) -> Seq<u8>
    decreases n,
{
    if n == 0 {
        Seq::empty()
    } else {
        let prev = changed_slots(old, next, (n - 1) as nat);
        if slot_changed(old, next, (n - 1) as u8) {
            prev.push((n - 1) as u8)
        } else {
            prev
        }
    }
}

pub open spec fn refresh_event(s: StateModel, next: Map<u8, Seq<char>>, slot: u8) -> EventModel {
    event(
        StateEventKind::SlotRefreshed,
        s.status,
        s.status,
        s.pending_tier,
        Some(slot),
        if s.visible.contains_key(slot) { Some(s.visible[slot]) } else { None },
        Some(next[slot]),
        None,
    )
}

/// Mirroring the panel: an expanded panel shows the reported choices, one
/// refresh event per slot whose augment changed; a collapsed panel shows none.
pub open spec fn choices_step(s: StateModel, choices: Seq<(u8, Seq<char>)>) -> (StateModel, Seq<EventModel>) {
    if s.panel == PanelState::Expanded {
        let next = choices_map(choices);
        (
            StateModel { visible: next, ..s },
            changed_slots(s.visible, next, 256).map_values(|slot: u8| refresh_event(s, next, slot)),
        )
    } else {
        (StateModel { visible: Map::empty(), ..s }, Seq::empty())
    }
}

/// The status after a tier was completed.
pub open spec fn status_after_completion(player: Option<PlayerModel>, completed: Set<u8>) -> AssistantStatus {
    if player_pending_tiers(player, completed).len() > 0 {
        AssistantStatus::PendingSelection
    } else {
        AssistantStatus::WaitingForTier
    }
}

/// Whether the selected slot completes the pending tier.
pub open spec fn completes(s: StateModel, selected: Option<u8>) -> bool {
    &&& s.pending_tier is Some
    &&& selected is Some
    &&& s.panel == PanelState::Expanded
    &&& s.visible.contains_key(selected->0)
}

/// Completing the pending tier with a slot that is visible on the expanded panel.
pub open spec fn completion_step(s: StateModel, selected: Option<u8>) -> (StateModel, Seq<EventModel>) {
    if completes(s, selected) {
        let tier = s.pending_tier->0;
        let completed = s.completed.insert(tier);
        let pending = player_pending_tiers(s.player, completed);
        let status = status_after_completion(s.player, completed);
        (
            StateModel {
                completed: completed,
                pending_tiers: pending,
                pending_tier: first_of(pending),
                visible: Map::empty(),
                status: status,
                ..s
            },
            seq![event(StateEventKind::TierCompleted, s.status, status, Some(tier), selected, None, None, None)],
        )
    } else {
        (s, Seq::empty())
    }
}

/// The status once the input was processed without a pause.
pub open spec fn settled_status(s: StateModel) -> AssistantStatus {
    if s.status != AssistantStatus::PendingSelection && s.pending_tier is Some {
        AssistantStatus::PendingSelection
    } else if s.pending_tier is None && s.player is Some {
        AssistantStatus::WaitingForTier
    } else if s.player is None {
        AssistantStatus::WaitingForGame
    } else {
        s.status
    }
}

/// One step of the machine: the next state and the events it reports.
pub open spec fn spec_apply(s: StateModel, input: InputModel) -> (StateModel, Seq<EventModel>) {
    match input.pause_reason {
        Some(reason) => (
            StateModel { pause_reason: Some(reason), status: AssistantStatus::Paused, ..s },
            seq![event(StateEventKind::Paused, s.status, AssistantStatus::Paused, None, None, None,
                None, Some(reason))],
        ),
        None => {
            let (s1, e1) = resume_step(s);
            let (s2, e2) = player_step(s1, input.player);
            let (s3, e3) = panel_step(s2, input.panel);
            let (s4, e4) = tier_step(s3);
            let (s5, e5) = choices_step(s4, input.choices);
            let (s6, e6) = completion_step(s5, input.selected_slot);
            (StateModel { status: settled_status(s6), ..s6 }, e1 + e2 + e3 + e4 + e5 + e6)
        },
    }
}


// ---------------------------------------------------------------------------
// Exec implementation
// ---------------------------------------------------------------------------

fn copy_player(p: &Option<LivePlayerSnapshot>) -> (r: Option<LivePlayerSnapshot>)
    ensures
        player_view(r) == player_view(*p),
{
    match p {
        Some(p) => Some(LivePlayerSnapshot { champion_name: p.champion_name.clone(), level: p.level }),
        None => None,
    }
}

fn panel_name_string(p: PanelState) -> (r: String)
    ensures
        r@ == panel_name(p),
{
    match p {
        PanelState::Expanded => {
            let r = crate::text::owned("Expanded");
            proof {
                reveal_strlit("Expanded");
            }
            assert(r@ =~= panel_name(p));
            r
        },
        PanelState::Collapsed => {
            let r = crate::text::owned("Collapsed");
            proof {
                reveal_strlit("Collapsed");
            }
            assert(r@ =~= panel_name(p));
            r
        },
    }
}

/// The tiers that `level` has reached and that are not in `completed`, ascending.
pub fn pending_tiers(level: u8, completed: &BTreeSet<u8>) -> (r: Vec<u8>)
    ensures
        r@ == spec_pending_tiers(level, completed@),
{
    let tiers: [u8; 4] = [3, 7, 11, 15];
    let mut r: Vec<u8> = Vec::new();
    let ghost pred = |t: u8| level >= t && !completed@.contains(t);
    let mut i: usize = 0;
    while i < 4
        invariant
            0 <= i <= 4,
            tiers@ == augment_tiers(),
            r@ == augment_tiers().take(i as int).filter(pred),
            pred == (|t: u8| level >= t && !completed@.contains(t)),
        decreases 4 - i,
    {
        let t = tiers[i];
        if level >= t && !completed.contains(&t) {
            r.push(t);
        }
        proof {
            assert(augment_tiers().take(i + 1).drop_last() =~= augment_tiers().take(i as int));
            reveal_with_fuel(Seq::<u8>::filter, 1);
        }
        i = i + 1;
    }
    assert(augment_tiers().take(4) =~= augment_tiers());
    r
}

fn pending_of(player: &Option<LivePlayerSnapshot>, completed: &BTreeSet<u8>) -> (r: Vec<u8>)
    ensures
        r@ == player_pending_tiers(player_view(*player), completed@),
{
    match player {
        Some(p) => pending_tiers(p.level, completed),
        None => Vec::new(),
    }
}

proof fn lemma_events_push(events: Seq<StateTransitionEvent>, e: StateTransitionEvent)
    ensures
        events_view(events.push(e)) == events_view(events).push(e@),
{
    assert(events_view(events.push(e)) =~= events_view(events).push(e@));
}

fn build_choices_map(choices: &Vec<AugmentChoice>) -> (m: BTreeMap<u8, String>)
    ensures
        visible_view(m) == choices_map(choice_views(choices@)),
{
    let ghost view = choice_views(choices@);
    let mut m: BTreeMap<u8, String> = BTreeMap::new();
    let mut i: usize = 0;
    while i < choices.len()
        invariant
            0 <= i <= choices.len(),
            view == choice_views(choices@),
            visible_view(m) == choices_map(view.take(i as int)),
        decreases choices.len() - i,
    {
        let slot = choices[i].slot;
        let id = choices[i].augment_id.clone();
        let ghost before = m@;
        m.insert(slot, id);
        proof {
            assert(view.take(i + 1).drop_last() =~= view.take(i as int));
            assert(view.take(i + 1).last() == view[i as int]);
            assert(visible_view(m) =~= visible_view_of(before).insert(slot, id@));
        }
        i = i + 1;
    }
    assert(view.take(choices.len() as int) =~= view);
    m
}

spec fn visible_view_of(m: Map<u8, String>) -> Map<u8, Seq<char>> {
    m.map_values(|s: String| s@)
}

impl Stepper {
    fn resume(&mut self, events: &mut Vec<StateTransitionEvent>)
        ensures
            final(self).state@ == resume_step(old(self).state@).0,
            events_view(final(events)@) == events_view(old(events)@) + resume_step(old(self).state@).1,
    {
        if self.state.status == AssistantStatus::Paused {
            self.state.pause_reason = None;
            let e = StateTransitionEvent {
                kind: StateEventKind::Resumed,
                from_status: AssistantStatus::Paused,
                to_status: AssistantStatus::WaitingForTier,
                tier: self.state.pending_tier,
                slot: None,
                previous_value: None,
                next_value: None,
                reason: None,
            };
            proof {
                lemma_events_push(events@, e);
            }
            events.push(e);
            assert(events_view(old(events)@).push(e@) =~= events_view(old(events)@) + resume_step(
                old(self).state@,
            ).1);
        } else {
            assert(events_view(events@) =~= events_view(events@) + Seq::<EventModel>::empty());
        }
    }

    fn apply_player(&mut self, player: Option<LivePlayerSnapshot>, events: &mut Vec<StateTransitionEvent>)
        ensures
            final(self).state@ == player_step(old(self).state@, player_view(player)).0,
            events_view(final(events)@) == events_view(old(events)@) + player_step(
                old(self).state@,
                player_view(player),
            ).1,
    {
        let ghost s0 = self.state@;
        let previous_player = self.state.player.take();
        self.state.player = player;
        let status = self.state.status;
        let ghost e0 = events_view(events@);
        match (&previous_player, &self.state.player) {
            (Some(previous), Some(next)) => {
                if previous.champion_name != next.champion_name {
                    self.state.completed_tiers.clear();
                    self.state.pending_tier = None;
                    self.state.pending_tiers.clear();
                    self.state.visible_choices.clear();
                    let e = StateTransitionEvent {
                        kind: StateEventKind::PlayerChanged,
                        from_status: status,
                        to_status: AssistantStatus::WaitingForTier,
                        tier: None,
                        slot: None,
                        previous_value: Some(previous.champion_name.clone()),
                        next_value: Some(next.champion_name.clone()),
                        reason: None,
                    };
                    proof {
                        lemma_events_push(events@, e);
                    }
                    events.push(e);
                }
            },
            (None, Some(next)) => {
                let e = StateTransitionEvent {
                    kind: StateEventKind::PlayerChanged,
                    from_status: status,
                    to_status: AssistantStatus::WaitingForTier,
                    tier: None,
                    slot: None,
                    previous_value: None,
                    next_value: Some(next.champion_name.clone()),
                    reason: None,
                };
                proof {
                    lemma_events_push(events@, e);
                }
                events.push(e);
            },
            _ => {},
        }
        let ghost e1 = events_view(events@);
        match (&previous_player, &self.state.player) {
            (Some(previous), Some(next)) => {
                if previous.level != next.level {
                    let e = StateTransitionEvent {
                        kind: StateEventKind::LevelChanged,
                        from_status: status,
                        to_status: status,
                        tier: None,
                        slot: None,
                        previous_value: Some(decimal_string(previous.level as u128)),
                        next_value: Some(decimal_string(next.level as u128)),
                        reason: None,
                    };
                    proof {
                        lemma_events_push(events@, e);
                    }
                    events.push(e);
                }
            },
            _ => {},
        }
        proof {
            let (s2, ev) = player_step(s0, player_view(player));
            assert(visible_view(self.state.visible_choices) =~= s2.visible);
            assert(self.state@ =~= s2);
            assert(events_view(events@) =~= e0 + ev);
        }
    }

    fn apply_panel_state(&mut self, panel_state: PanelState, events: &mut Vec<StateTransitionEvent>)
        ensures
            final(self).state@ == panel_step(old(self).state@, panel_state).0,
            events_view(final(events)@) == events_view(old(events)@) + panel_step(old(self).state@, panel_state).1,
    {
        if self.state.panel_state == panel_state {
            assert(events_view(events@) =~= events_view(events@) + Seq::<EventModel>::empty());
            return;
        }
        let kind = match panel_state {
            PanelState::Expanded => StateEventKind::PanelExpanded,
            PanelState::Collapsed => StateEventKind::PanelCollapsed,
        };
        let previous = self.state.panel_state;
        self.state.panel_state = panel_state;
        let e = StateTransitionEvent {
            kind: kind,
            from_status: self.state.status,
            to_status: self.state.status,
            tier: self.state.pending_tier,
            slot: None,
            previous_value: Some(panel_name_string(previous)),
            next_value: Some(panel_name_string(panel_state)),
            reason: None,
        };
        proof {
            lemma_events_push(events@, e);
        }
        events.push(e);
        assert(events_view(old(events)@).push(e@) =~= events_view(old(events)@) + panel_step(
            old(self).state@,
            panel_state,
        ).1);
    }

    fn refresh_tiers(&mut self, events: &mut Vec<StateTransitionEvent>)
        ensures
            final(self).state@ == tier_step(old(self).state@).0,
            events_view(final(events)@) == events_view(old(events)@) + tier_step(old(self).state@).1,
    {
        let eligible = pending_of(&self.state.player, &self.state.completed_tiers);
        if eligible.len() > 0 {
            let tier = eligible[0];
            self.state.pending_tiers = eligible;
            if self.state.pending_tier == Some(tier) {
                self.state.status = AssistantStatus::PendingSelection;
                assert(events_view(events@) =~= events_view(events@) + Seq::<EventModel>::empty());
            } else {
                let from_status = self.state.status;
                self.state.pending_tier = Some(tier);
                self.state.status = AssistantStatus::PendingSelection;
                let e = StateTransitionEvent {
                    kind: StateEventKind::TierPending,
                    from_status: from_status,
                    to_status: AssistantStatus::PendingSelection,
                    tier: Some(tier),
                    slot: None,
                    previous_value: None,
                    next_value: None,
                    reason: None,
                };
                proof {
                    lemma_events_push(events@, e);
                }
                events.push(e);
                assert(events_view(old(events)@).push(e@) =~= events_view(old(events)@) + tier_step(
                    old(self).state@,
                ).1);
            }
        } else {
            self.state.pending_tier = None;
            self.state.pending_tiers.clear();
            self.state.visible_choices.clear();
            assert(visible_view(self.state.visible_choices) =~= Map::empty());
            assert(self.state.pending_tiers@ =~= Seq::<u8>::empty());
            assert(events_view(events@) =~= events_view(events@) + Seq::<EventModel>::empty());
        }
    }

    fn refresh_choices(&mut self, choices: &Vec<AugmentChoice>, events: &mut Vec<StateTransitionEvent>)
        requires
            old(self).state.panel_state == PanelState::Expanded,
        ensures
            final(self).state@ == choices_step(old(self).state@, choice_views(choices@)).0,
            events_view(final(events)@) == events_view(old(events)@) + choices_step(
                old(self).state@,
                choice_views(choices@),
            ).1,
    {
        let ghost s0 = self.state@;
        let next = build_choices_map(choices);
        let ghost next_view = visible_view(next);
        let ghost e0 = events_view(events@);
        let mut slot: u16 = 0;
        while slot < 256
            invariant
                0 <= slot <= 256,
                self.state@ == s0,
                next_view == visible_view(next),
                events_view(events@) == e0 + changed_slots(s0.visible, next_view, slot as nat).map_values(
                    |k: u8| refresh_event(s0, next_view, k),
                ),
            decreases 256 - slot,
        {
            let key = slot as u8;
            let ghost before = events_view(events@);
            match next.get(&key) {
                Some(value) => {
                    let differs = match self.state.visible_choices.get(&key) {
                        Some(current) => *current != *value,
                        None => true,
                    };
                    if differs {
                        let previous_value = match self.state.visible_choices.get(&key) {
                            Some(current) => Some(current.clone()),
                            None => None,
                        };
                        let e = StateTransitionEvent {
                            kind: StateEventKind::SlotRefreshed,
                            from_status: self.state.status,
                            to_status: self.state.status,
                            tier: self.state.pending_tier,
                            slot: Some(key),
                            previous_value: previous_value,
                            next_value: Some(value.clone()),
                            reason: None,
                        };
                        proof {
                            lemma_events_push(events@, e);
                            assert(e@ =~= refresh_event(s0, next_view, key));
                        }
                        events.push(e);
                    }
                },
                None => {},
            }
            proof {
                let f = |k: u8| refresh_event(s0, next_view, k);
                assert(key as nat == slot as nat);
                if slot_changed(s0.visible, next_view, key) {
                    assert(changed_slots(s0.visible, next_view, (slot + 1) as nat) =~= changed_slots(
                        s0.visible,
                        next_view,
                        slot as nat,
                    ).push(key));
                    assert(changed_slots(s0.visible, next_view, slot as nat).push(key).map_values(f)
                        =~= changed_slots(s0.visible, next_view, slot as nat).map_values(f).push(f(key)));
                    assert(events_view(events@) =~= e0 + changed_slots(s0.visible, next_view, (slot + 1) as nat).map_values(f));
                } else {
                    assert(changed_slots(s0.visible, next_view, (slot + 1) as nat) =~= changed_slots(
                        s0.visible,
                        next_view,
                        slot as nat,
                    ));
                }
            }
            slot = slot + 1;
        }
        self.state.visible_choices = next;
        assert(self.state@ =~= choices_step(s0, choice_views(choices@)).0);
    }

    fn complete_tier(&mut self, selected_slot: Option<u8>, events: &mut Vec<StateTransitionEvent>)
        ensures
            final(self).state@ == completion_step(old(self).state@, selected_slot).0,
            events_view(final(events)@) == events_view(old(events)@) + completion_step(
                old(self).state@,
                selected_slot,
            ).1,
    {
        let ghost s0 = self.state@;
        match (self.state.pending_tier, selected_slot) {
            (Some(tier), Some(slot)) => {
                if self.state.panel_state == PanelState::Expanded && self.state.visible_choices.contains_key(&slot) {
                    let from_status = self.state.status;
                    self.state.completed_tiers.insert(tier);
                    let pending = pending_of(&self.state.player, &self.state.completed_tiers);
                    let first = if pending.len() > 0 {
                        Some(pending[0])
                    } else {
                        None
                    };
                    let status = if pending.len() > 0 {
                        AssistantStatus::PendingSelection
                    } else {
                        AssistantStatus::WaitingForTier
                    };
                    self.state.pending_tiers = pending;
                    self.state.pending_tier = first;
                    self.state.visible_choices.clear();
                    self.state.status = status;
                    let e = StateTransitionEvent {
                        kind: StateEventKind::TierCompleted,
                        from_status: from_status,
                        to_status: status,
                        tier: Some(tier),
                        slot: Some(slot),
                        previous_value: None,
                        next_value: None,
                        reason: None,
                    };
                    proof {
                        lemma_events_push(events@, e);
                    }
                    events.push(e);
                    proof {
                        assert(visible_view(self.state.visible_choices) =~= Map::empty());
                        assert(self.state@ =~= completion_step(s0, selected_slot).0);
                        assert(events_view(old(events)@).push(e@) =~= events_view(old(events)@)
                            + completion_step(s0, selected_slot).1);
                    }
                    return;
                }
            },
            _ => {},
        }
        assert(events_view(events@) =~= events_view(events@) + Seq::<EventModel>::empty());
    }
}

impl AssistantStateMachine {
    /// Every machine is well formed.
    #[verifier::type_invariant]
    spec fn machine_well_formed(self) -> bool {
        well_formed(self.state@)
    }

    /// A machine in the initial state.
    pub fn new() -> (m: Self)
        ensures
            m@ == initial_state(),
            well_formed(m@),
    {
        let state = AssistantState {
            status: AssistantStatus::WaitingForGame,
            player: None,
            pending_tier: None,
            pending_tiers: Vec::new(),
            completed_tiers: BTreeSet::new(),
            panel_state: PanelState::Collapsed,
            visible_choices: BTreeMap::new(),
            pause_reason: None,
        };
        assert(visible_view(state.visible_choices) =~= Map::empty());
        assert(state@ =~= initial_state());
        proof {
            lemma_initial_well_formed();
        }
        AssistantStateMachine { state }
    }

    /// The current state.
    pub fn state(&self) -> (r: &AssistantState)
        ensures
            r@ == self@,
            well_formed(r@),
    {
        proof {
            use_type_invariant(self);
        }
        &self.state
    }

    /// A copy of the current state.
    pub fn state_copy(&self) -> (r: AssistantState)
        ensures
            r@ == self@,
            well_formed(r@),
    {
        proof {
            use_type_invariant(self);
        }
        let s = &self.state;
        let player = match &s.player {
            Some(p) => Some(LivePlayerSnapshot { champion_name: p.champion_name.clone(), level: p.level }),
            None => None,
        };
        let mut tiers: Vec<u8> = Vec::new();
        let mut i: usize = 0;
        while i < s.pending_tiers.len()
            invariant
                0 <= i <= s.pending_tiers@.len(),
                tiers@ == s.pending_tiers@.take(i as int),
            decreases s.pending_tiers@.len() - i,
        {
            tiers.push(s.pending_tiers[i]);
            assert(tiers@ =~= s.pending_tiers@.take(i + 1));
            i = i + 1;
        }
        assert(tiers@ =~= s.pending_tiers@);
        let r = AssistantState {
            status: s.status,
            player: player,
            pending_tier: s.pending_tier,
            pending_tiers: tiers,
            completed_tiers: s.completed_tiers.clone(),
            panel_state: s.panel_state,
            visible_choices: s.visible_choices.clone(),
            pause_reason: s.pause_reason,
        };
        assert(r@ =~= self@);
        r
    }

    /// Feeds one observation to the machine and returns the transitions it caused.
    pub fn apply(&mut self, input: StateMachineInput) -> (events: Vec<StateTransitionEvent>)
        ensures
            final(self)@ == spec_apply(old(self)@, input@).0,
            events_view(events@) == spec_apply(old(self)@, input@).1,
            well_formed(final(self)@),
            input@.pause_reason is None ==> final(self)@.player == input@.player
                && final(self)@.pause_reason is None && final(self)@.status == running_status(final(self)@),
    {
        proof {
            use_type_invariant(&*self);
        }
        let ghost s0 = self.state@;
        // The state is taken out for the step, and a fresh initial state,
        // which is well formed too, stands in the machine meanwhile.
        let mut st = Stepper { state: AssistantStateMachine::new().state };
        core::mem::swap(&mut self.state, &mut st.state);
        let ghost iv = input@;
        let StateMachineInput { player, panel_state, choices, selected_slot, pause_reason } = input;
        let mut events: Vec<StateTransitionEvent> = Vec::new();
        match pause_reason {
            Some(reason) => {
                let starting_status = st.state.status;
                st.state.pause_reason = Some(reason);
                st.state.status = AssistantStatus::Paused;
                let e = StateTransitionEvent {
                    kind: StateEventKind::Paused,
                    from_status: starting_status,
                    to_status: AssistantStatus::Paused,
                    tier: None,
                    slot: None,
                    previous_value: None,
                    next_value: None,
                    reason: Some(reason),
                };
                events.push(e);
                proof {
                    assert(events_view(events@) =~= spec_apply(s0, iv).1);
                    assert(st.state@ =~= spec_apply(s0, iv).0);
                    lemma_apply_preserves_well_formed(s0, iv);
                }
                self.state = st.state;
                return events;
            },
            None => {},
        }
        st.resume(&mut events);
        st.apply_player(player, &mut events);
        st.apply_panel_state(panel_state, &mut events);
        st.refresh_tiers(&mut events);
        if st.state.panel_state == PanelState::Expanded {
            st.refresh_choices(&choices, &mut events);
        } else {
            st.state.visible_choices.clear();
            assert(visible_view(st.state.visible_choices) =~= Map::empty());
            assert(events_view(events@) =~= events_view(events@) + Seq::<EventModel>::empty());
        }
        st.complete_tier(selected_slot, &mut events);
        let settled = if st.state.status != AssistantStatus::PendingSelection && st.state.pending_tier.is_some() {
            AssistantStatus::PendingSelection
        } else if st.state.pending_tier.is_none() && st.state.player.is_some() {
            AssistantStatus::WaitingForTier
        } else if st.state.player.is_none() {
            AssistantStatus::WaitingForGame
        } else {
            st.state.status
        };
        st.state.status = settled;
        proof {
            let (s1, e1) = resume_step(s0);
            let (s2, e2) = player_step(s1, iv.player);
            let (s3, e3) = panel_step(s2, iv.panel);
            let (s4, e4) = tier_step(s3);
            let (s5, e5) = choices_step(s4, iv.choices);
            let (s6, e6) = completion_step(s5, iv.selected_slot);
            assert(events_view(events@) =~= e1 + e2 + e3 + e4 + e5 + e6);
            assert(st.state@ =~= spec_apply(s0, iv).0);
            lemma_apply_preserves_well_formed(s0, iv);
            lemma_running_step_settles(s0, iv);
        }
        self.state = st.state;
        events
    }
}


// ---------------------------------------------------------------------------
// Laws
// ---------------------------------------------------------------------------

/// The status a running (not paused) machine settles in.
pub open spec fn running_status(s: StateModel) -> AssistantStatus {
    if s.pending_tier is Some {
        AssistantStatus::PendingSelection
    } else if s.player is Some {
        AssistantStatus::WaitingForTier
    } else {
        AssistantStatus::WaitingForGame
    }
}

/// The invariant of every reachable state.
pub open spec fn well_formed(s: StateModel) -> bool {
    &&& (s.pause_reason is Some <==> s.status == AssistantStatus::Paused)
    &&& s.pending_tiers == player_pending_tiers(s.player, s.completed)
    &&& s.pending_tier == first_of(s.pending_tiers)
    &&& (s.panel == PanelState::Collapsed ==> s.visible == Map::<u8, Seq<char>>::empty())
    &&& (s.status != AssistantStatus::Paused ==> s.status == running_status(s))
}

/// The facts about the pending tiers of a level: each was reached and not
/// completed, every such tier is listed, and they ascend.
pub proof fn lemma_pending_tiers_facts(level: u8, completed: Set<u8>)
    ensures
        ({
            let r = spec_pending_tiers(level, completed);
            &&& r.len() <= 4
            &&& forall|i: int| 0 <= i < r.len() ==> augment_tiers().contains(#[trigger] r[i]) && level >= r[i]
                && !completed.contains(r[i])
            &&& forall|i: int, j: int| 0 <= i < j < r.len() ==> r[i] < r[j]
            &&& forall|t: u8| augment_tiers().contains(t) && level >= t && !completed.contains(t)
                ==> #[trigger] r.contains(t)
        }),
{
    reveal_with_fuel(Seq::<u8>::filter, 5);
    let tiers = augment_tiers();
    assert(tiers.drop_last() =~= seq![3u8, 7u8, 11u8]);
    assert(tiers.drop_last().drop_last() =~= seq![3u8, 7u8]);
    assert(tiers.drop_last().drop_last().drop_last() =~= seq![3u8]);
    assert(tiers.drop_last().drop_last().drop_last().drop_last() =~= Seq::<u8>::empty());
    let r = spec_pending_tiers(level, completed);
    assert forall|t: u8| augment_tiers().contains(t) && level >= t && !completed.contains(t) implies #[trigger] r.contains(t) by {
        let k = choose|k: int| 0 <= k < tiers.len() && tiers[k] == t;
        if k == 0 {
            assert(r[0] == t);
        } else if k == 1 {
            assert(r[r.len() - 1 - (if level >= 11 && !completed.contains(11u8) {1int} else {0}) - (if level >= 15 && !completed.contains(15u8) {1int} else {0})] == t);
        } else if k == 2 {
            assert(r[r.len() - 1 - (if level >= 15 && !completed.contains(15u8) {1int} else {0})] == t);
        } else {
            assert(r[r.len() - 1] == t);
        }
    }
}

/// The machine starts well formed.
pub proof fn lemma_initial_well_formed()
    ensures
        well_formed(initial_state()),
{
    let s = initial_state();
    lemma_pending_tiers_facts(0, Set::empty());
    assert(s.pending_tiers =~= player_pending_tiers(s.player, s.completed));
}

/// Every step keeps the machine well formed.
pub proof fn lemma_apply_preserves_well_formed(s: StateModel, input: InputModel)
    requires
        well_formed(s),
    ensures
        well_formed(spec_apply(s, input).0),
{
    match input.pause_reason {
        Some(_) => {},
        None => {
            let (s1, e1) = resume_step(s);
            let (s2, e2) = player_step(s1, input.player);
            let (s3, e3) = panel_step(s2, input.panel);
            let (s4, e4) = tier_step(s3);
            let (s5, e5) = choices_step(s4, input.choices);
            let (s6, e6) = completion_step(s5, input.selected_slot);
            assert(s4.pending_tiers == player_pending_tiers(s4.player, s4.completed));
            assert(s4.pending_tier == first_of(s4.pending_tiers));
            if s6.pending_tier is Some {
                assert(s6.pending_tiers.len() > 0);
                assert(s6.player is Some);
            }
        },
    }
}

/// A step without a pause takes over the reported player and panel state,
/// clears any pause, lists exactly the tiers the player reached and has not
/// completed (ascending), has the lowest of them awaiting a choice, and settles
/// in the status that follows from these.
pub proof fn lemma_running_step_settles(s: StateModel, input: InputModel)
    requires
        well_formed(s),
        input.pause_reason is None,
    ensures
        ({
            let next = spec_apply(s, input).0;
            &&& next.player == input.player
            &&& next.panel == input.panel
            &&& next.pause_reason is None
            &&& next.pending_tiers == player_pending_tiers(next.player, next.completed)
            &&& next.pending_tier == first_of(next.pending_tiers)
            &&& next.status == running_status(next)
        }),
{
    lemma_apply_preserves_well_formed(s, input);
}

/// The completed tiers a step starts from: none after a change of champion,
/// the earlier ones otherwise.
pub open spec fn completion_base(s: StateModel, player: Option<PlayerModel>) -> Set<u8> {
    match (s.player, player) {
        (Some(prev), Some(next)) => if prev.champion != next.champion {
            Set::empty()
        } else {
            s.completed
        },
        _ => s.completed,
    }
}

/// The events that report a completed tier, in order.
pub open spec fn completions(events: Seq<EventModel>) -> Seq<EventModel> {
    events.filter(|e: EventModel| e.kind == StateEventKind::TierCompleted)
}

/// Whether some reported choice stands in `slot`.
pub open spec fn choice_in_slot(choices: Seq<(u8, Seq<char>)>, slot: u8) -> bool {
    exists|i: int| 0 <= i < choices.len() && (#[trigger] choices[i]).0 == slot
}

proof fn lemma_choices_map_keys(choices: Seq<(u8, Seq<char>)>, slot: u8)
    ensures
        choices_map(choices).contains_key(slot) <==> choice_in_slot(choices, slot),
    decreases choices.len(),
{
    if choices.len() > 0 {
        let rest = choices.drop_last();
        lemma_choices_map_keys(rest, slot);
        if choice_in_slot(rest, slot) {
            let i = choose|i: int| 0 <= i < rest.len() && (#[trigger] rest[i]).0 == slot;
            assert(choices[i] == rest[i]);
        }
        if choice_in_slot(choices, slot) && choices.last().0 != slot {
            let i = choose|i: int| 0 <= i < choices.len() && (#[trigger] choices[i]).0 == slot;
            assert(rest[i] == choices[i]);
        }
        if choices.last().0 == slot {
            assert(choices[choices.len() - 1].0 == slot);
        }
    }
}

proof fn lemma_no_completion(events: Seq<EventModel>)
    requires
        forall|i: int| 0 <= i < events.len() ==> (#[trigger] events[i]).kind != StateEventKind::TierCompleted,
    ensures
        completions(events) == Seq::<EventModel>::empty(),
{
    let pred = |e: EventModel| e.kind == StateEventKind::TierCompleted;
    let f = events.filter(pred);
    if f.len() > 0 {
        events.lemma_filter_pred(pred, 0);
        assert(f.contains(f[0]));
        events.lemma_filter_contains_rev(pred, f[0]);
    }
    assert(f =~= Seq::<EventModel>::empty());
}

proof fn lemma_filter_concat_quiet(a: Seq<EventModel>, b: Seq<EventModel>)
    requires
        completions(a) == Seq::<EventModel>::empty(),
        completions(b) == Seq::<EventModel>::empty(),
    ensures
        completions(a + b) == Seq::<EventModel>::empty(),
{
    Seq::filter_distributes_over_add(a, b, |e: EventModel| e.kind == StateEventKind::TierCompleted);
    assert(Seq::<EventModel>::empty() + Seq::<EventModel>::empty() =~= Seq::<EventModel>::empty());
}

proof fn lemma_completion_filter(a: Seq<EventModel>, b: Seq<EventModel>)
    requires
        completions(a) == Seq::<EventModel>::empty(),
        b.len() <= 1,
        b.len() == 1 ==> b[0].kind == StateEventKind::TierCompleted,
    ensures
        completions(a + b) == b,
{
    Seq::filter_distributes_over_add(a, b, |e: EventModel| e.kind == StateEventKind::TierCompleted);
    reveal_with_fuel(Seq::filter, 2);
    if b.len() == 1 {
        assert(b.drop_last() =~= Seq::<EventModel>::empty());
    } else {
        assert(b =~= Seq::<EventModel>::empty());
    }
    assert(Seq::<EventModel>::empty() + b =~= b);
}

proof fn lemma_resume_quiet(s: StateModel)
    ensures
        completions(resume_step(s).1) == Seq::<EventModel>::empty(),
{
    lemma_no_completion(resume_step(s).1);
}

proof fn lemma_player_quiet(s: StateModel, player: Option<PlayerModel>)
    ensures
        completions(player_step(s, player).1) == Seq::<EventModel>::empty(),
{
    lemma_no_completion(player_step(s, player).1);
}

proof fn lemma_panel_quiet(s: StateModel, panel: PanelState)
    ensures
        completions(panel_step(s, panel).1) == Seq::<EventModel>::empty(),
{
    lemma_no_completion(panel_step(s, panel).1);
}

proof fn lemma_tier_quiet(s: StateModel)
    ensures
        completions(tier_step(s).1) == Seq::<EventModel>::empty(),
{
    lemma_no_completion(tier_step(s).1);
}

proof fn lemma_choices_quiet(s: StateModel, choices: Seq<(u8, Seq<char>)>)
    ensures
        completions(choices_step(s, choices).1) == Seq::<EventModel>::empty(),
{
    let e5 = choices_step(s, choices).1;
    assert forall|i: int| 0 <= i < e5.len() implies (#[trigger] e5[i]).kind != StateEventKind::TierCompleted by {
        if s.panel == PanelState::Expanded {
            let next = choices_map(choices);
            assert(e5[i] == refresh_event(s, next, changed_slots(s.visible, next, 256)[i]));
        }
    }
    lemma_no_completion(e5);
}

/// The events of a running step before the completion check report no completion.
proof fn lemma_step_prefix_quiet(s: StateModel, input: InputModel)
    ensures
        ({
            let (s1, e1) = resume_step(s);
            let (s2, e2) = player_step(s1, input.player);
            let (s3, e3) = panel_step(s2, input.panel);
            let (s4, e4) = tier_step(s3);
            let (s5, e5) = choices_step(s4, input.choices);
            completions(e1 + e2 + e3 + e4 + e5) == Seq::<EventModel>::empty()
        }),
{
    let (s1, e1) = resume_step(s);
    let (s2, e2) = player_step(s1, input.player);
    let (s3, e3) = panel_step(s2, input.panel);
    let (s4, e4) = tier_step(s3);
    let (s5, e5) = choices_step(s4, input.choices);
    lemma_resume_quiet(s);
    lemma_player_quiet(s1, input.player);
    lemma_panel_quiet(s2, input.panel);
    lemma_tier_quiet(s3);
    lemma_choices_quiet(s4, input.choices);
    lemma_filter_concat_quiet(e1, e2);
    lemma_filter_concat_quiet(e1 + e2, e3);
    lemma_filter_concat_quiet(e1 + e2 + e3, e4);
    lemma_filter_concat_quiet(e1 + e2 + e3 + e4, e5);
}

/// The tier a running step would complete: the lowest one the reported
/// player reached outside the completed tiers it starts from.
pub open spec fn completion_candidate(s: StateModel, input: InputModel) -> Option<u8> {
    first_of(player_pending_tiers(input.player, completion_base(s, input.player)))
}

/// Whether a running step completes a tier: the panel is expanded, a tier is
/// pending, and the selected slot holds a reported choice.
pub open spec fn completes_tier(s: StateModel, input: InputModel) -> bool {
    &&& input.panel == PanelState::Expanded
    &&& completion_candidate(s, input) is Some
    &&& input.selected_slot is Some
    &&& choice_in_slot(input.choices, input.selected_slot->0)
}

/// The pre-completion state of a running step.
proof fn lemma_before_completion(s: StateModel, input: InputModel)
    ensures
        ({
            let (s1, e1) = resume_step(s);
            let (s2, e2) = player_step(s1, input.player);
            let (s3, e3) = panel_step(s2, input.panel);
            let (s4, e4) = tier_step(s3);
            let (s5, e5) = choices_step(s4, input.choices);
            &&& s5.completed == completion_base(s, input.player)
            &&& s5.pending_tier == completion_candidate(s, input)
            &&& completes(s5, input.selected_slot) == completes_tier(s, input)
        }),
{
    let (s1, e1) = resume_step(s);
    let (s2, e2) = player_step(s1, input.player);
    let (s3, e3) = panel_step(s2, input.panel);
    let (s4, e4) = tier_step(s3);
    let (s5, e5) = choices_step(s4, input.choices);
    assert(s2.completed == completion_base(s, input.player));
    assert(s4.pending_tier == completion_candidate(s, input));
    if input.selected_slot is Some {
        lemma_choices_map_keys(input.choices, input.selected_slot->0);
    }
}

/// The tier-completion rule. Without a pause, a step completes a tier exactly
/// when the panel is expanded, some tier is pending after the player is taken
/// over, and the selected slot holds a reported choice. The tier completed is
/// the lowest one the player reached and has not completed (all progress
/// counts as lost after a change of champion); it is reported by exactly one
/// event, with the tier and the selected slot, and no other tier completes.
pub proof fn lemma_tier_completion_rule(s: StateModel, input: InputModel)
    requires
        input.pause_reason is None,
    ensures
        ({
            let base = completion_base(s, input.player);
            let t0 = completion_candidate(s, input);
            let done = completes_tier(s, input);
            let (next, events) = spec_apply(s, input);
            let completions = completions(events);
            &&& next.completed == (if done { base.insert(t0->0) } else { base })
            &&& completions.len() == (if done { 1int } else { 0int })
            &&& done ==> completions[0].tier == t0 && completions[0].slot == input.selected_slot
        }),
{
    let (s1, e1) = resume_step(s);
    let (s2, e2) = player_step(s1, input.player);
    let (s3, e3) = panel_step(s2, input.panel);
    let (s4, e4) = tier_step(s3);
    let (s5, e5) = choices_step(s4, input.choices);
    let (s6, e6) = completion_step(s5, input.selected_slot);
    lemma_before_completion(s, input);
    lemma_step_prefix_quiet(s, input);
    lemma_completion_filter(e1 + e2 + e3 + e4 + e5, e6);
    assert(spec_apply(s, input).1 == e1 + e2 + e3 + e4 + e5 + e6);
}

/// A pause freezes the machine: only the status and the pause reason change,
/// and the single reported event is the pause itself.
pub proof fn lemma_pause_freezes_progress(s: StateModel, input: InputModel)
    requires
        input.pause_reason is Some,
    ensures
        ({
            let (next, events) = spec_apply(s, input);
            &&& next == StateModel {
                status: AssistantStatus::Paused,
                pause_reason: input.pause_reason,
                ..s
            }
            &&& events.len() == 1
            &&& events[0].kind == StateEventKind::Paused
            &&& events[0].reason == input.pause_reason
        }),
{
}

/// Resuming after a pause reports the resumption first and clears the pause reason.
pub proof fn lemma_resume_is_reported(s: StateModel, input: InputModel)
    requires
        well_formed(s),
        s.status == AssistantStatus::Paused,
        input.pause_reason is None,
    ensures
        ({
            let (next, events) = spec_apply(s, input);
            &&& next.pause_reason is None
            &&& next.status != AssistantStatus::Paused
            &&& events.len() >= 1
            &&& events[0].kind == StateEventKind::Resumed
        }),
{
    lemma_apply_preserves_well_formed(s, input);
}

/// A collapsed panel never completes a tier: no tier becomes completed and no
/// completion is reported.
pub proof fn lemma_collapsed_panel_never_completes(s: StateModel, input: InputModel)
    requires
        input.panel == PanelState::Collapsed,
    ensures
        ({
            let (next, events) = spec_apply(s, input);
            &&& next.completed.subset_of(s.completed)
            &&& forall|i: int| 0 <= i < events.len() ==> (#[trigger] events[i]).kind != StateEventKind::TierCompleted
        }),
{
    match input.pause_reason {
        Some(_) => {},
        None => {
            let (s1, e1) = resume_step(s);
            let (s2, e2) = player_step(s1, input.player);
            let (s3, e3) = panel_step(s2, input.panel);
            let (s4, e4) = tier_step(s3);
            let (s5, e5) = choices_step(s4, input.choices);
            let (s6, e6) = completion_step(s5, input.selected_slot);
            assert(!completes(s5, input.selected_slot));
            let all = e1 + e2 + e3 + e4 + e5 + e6;
            assert forall|i: int| 0 <= i < all.len() implies (#[trigger] all[i]).kind != StateEventKind::TierCompleted by {
                if i < e1.len() {
                } else if i < e1.len() + e2.len() {
                    assert(all[i] == e2[i - e1.len()]);
                } else if i < e1.len() + e2.len() + e3.len() {
                    assert(all[i] == e3[i - e1.len() - e2.len()]);
                } else if i < e1.len() + e2.len() + e3.len() + e4.len() {
                    assert(all[i] == e4[i - e1.len() - e2.len() - e3.len()]);
                } else {
                    assert(e5.len() == 0 && e6.len() == 0);
                }
            }
        },
    }
}

/// A tier only becomes completed when the selected slot is shown on the
/// expanded panel.
pub proof fn lemma_completion_needs_visible_selection(s: StateModel, input: InputModel, tier: u8)
    requires
        spec_apply(s, input).0.completed.contains(tier),
        !s.completed.contains(tier),
    ensures
        input.pause_reason is None,
        input.panel == PanelState::Expanded,
        input.selected_slot is Some,
        choices_map(input.choices).contains_key(input.selected_slot->0),
{
}

/// A new champion starts the tier progress over: at most the lowest tier the
/// new champion has reached can be completed after the step.
pub proof fn lemma_new_champion_resets_progress(s: StateModel, input: InputModel, tier: u8)
    requires
        input.pause_reason is None,
        s.player is Some,
        input.player is Some,
        s.player->0.champion != input.player->0.champion,
        spec_apply(s, input).0.completed.contains(tier),
    ensures
        tier == spec_pending_tiers(input.player->0.level, Set::empty())[0],
{
}

/// Feeding the same observation twice changes nothing the second time and
/// reports no event, as long as it selects no slot, asks for no pause and a
/// tier is pending whenever the expanded panel shows choices.
pub proof fn lemma_repeated_input_is_quiet(s: StateModel, input: InputModel)
    requires
        well_formed(s),
        input.pause_reason is None,
        input.selected_slot is None,
        spec_apply(s, input).0.pending_tier is Some || input.panel == PanelState::Collapsed
            || input.choices.len() == 0,
    ensures
        spec_apply(spec_apply(s, input).0, input).0 == spec_apply(s, input).0,
        spec_apply(spec_apply(s, input).0, input).1.len() == 0,
{
    lemma_apply_preserves_well_formed(s, input);
    let t = spec_apply(s, input).0;
    let (s1, e1) = resume_step(t);
    let (s2, e2) = player_step(s1, input.player);
    let (s3, e3) = panel_step(s2, input.panel);
    let (s4, e4) = tier_step(s3);
    let (s5, e5) = choices_step(s4, input.choices);
    let (s6, e6) = completion_step(s5, input.selected_slot);
    assert(t.pause_reason is None);
    assert(s2 =~= t);
    assert(s3 =~= t);
    if t.panel == PanelState::Expanded {
        let next = choices_map(input.choices);
        assert(t.visible =~= next);
        if t.pending_tier is Some {
            assert(s4 =~= t);
            lemma_no_changed_slots(next, 256);
        } else {
            assert(input.choices.len() == 0);
            assert(next =~= Map::<u8, Seq<char>>::empty());
            assert(s4 =~= t);
            lemma_no_changed_slots(next, 256);
        }
        assert(s5 =~= t);
    } else {
        assert(s4.visible =~= t.visible);
        assert(s4 =~= t);
        assert(s5 =~= t);
    }
    assert(spec_apply(t, input).0 =~= t);
    assert(e1 + e2 + e3 + e4 + e5 + e6 =~= Seq::<EventModel>::empty());
}

proof fn lemma_no_changed_slots(m: Map<u8, Seq<char>>, n: nat)
    ensures
        changed_slots(m, m, n).len() == 0,
    decreases n,
{
    if n > 0 {
        lemma_no_changed_slots(m, (n - 1) as nat);
    }
}

/// The tier awaiting a choice is the lowest tier the player reached and did
/// not complete yet.
pub proof fn lemma_pending_tier_is_lowest(s: StateModel, t: u8)
    requires
        well_formed(s),
        s.pending_tier == Some(t),
    ensures
        s.player is Some,
        augment_tiers().contains(t),
        s.player->0.level >= t,
        !s.completed.contains(t),
        forall|u: u8|
            augment_tiers().contains(u) && s.player->0.level >= u && !s.completed.contains(u) ==> t <= u,
{
    match s.player {
        Some(p) => {
            lemma_pending_tiers_facts(p.level, s.completed);
            let r = spec_pending_tiers(p.level, s.completed);
            assert forall|u: u8| augment_tiers().contains(u) && p.level >= u && !s.completed.contains(u) implies t <= u by {
                assert(r.contains(u));
                let k = choose|k: int| 0 <= k < r.len() && r[k] == u;
                if k > 0 {
                    assert(r[0] < r[k]);
                }
            }
        },
        None => {},
    }
}


proof fn lemma_changed_slots_exact(old: Map<u8, Seq<char>>, next: Map<u8, Seq<char>>, n: nat)
    requires
        n <= 256,
    ensures
        forall|i: int| 0 <= i < changed_slots(old, next, n).len() ==> slot_changed(old, next, #[trigger] changed_slots(old, next, n)[i]),
        forall|k: u8| k < n && slot_changed(old, next, k) ==> #[trigger] changed_slots(old, next, n).contains(k),
        forall|i: int, j: int| 0 <= i < j < changed_slots(old, next, n).len() ==> changed_slots(old, next, n)[i] < changed_slots(old, next, n)[j],
        forall|i: int| 0 <= i < changed_slots(old, next, n).len() ==> changed_slots(old, next, n)[i] < n,
    decreases n,
{
    if n > 0 {
        lemma_changed_slots_exact(old, next, (n - 1) as nat);
        let prev = changed_slots(old, next, (n - 1) as nat);
        let k = (n - 1) as u8;
        assert(k as nat == n - 1);
        if slot_changed(old, next, k) {
            assert(changed_slots(old, next, n) == prev.push(k));
            assert forall|j: u8| j < n && slot_changed(old, next, j) implies #[trigger] changed_slots(old, next, n).contains(j) by {
                if j == k {
                    assert(prev.push(k)[prev.len() as int] == k);
                } else {
                    assert(prev.contains(j));
                    let w = choose|w: int| 0 <= w < prev.len() && prev[w] == j;
                    assert(prev.push(k)[w] == j);
                }
            }
        }
    }
}

/// A reroll refreshes only the slots whose augment changed: mirroring an
/// expanded panel reports one refresh per changed slot, in slot order, and
/// nothing for a slot that kept its augment.
pub proof fn lemma_reroll_refreshes_only_changed_slots(s: StateModel, choices: Seq<(u8, Seq<char>)>)
    requires
        s.panel == PanelState::Expanded,
    ensures
        ({
            let next = choices_map(choices);
            let events = choices_step(s, choices).1;
            &&& forall|i: int|
                0 <= i < events.len() ==> (#[trigger] events[i]).kind == StateEventKind::SlotRefreshed && (events[i].slot
                    matches Some(k) && slot_changed(s.visible, next, k))
            &&& forall|k: u8| slot_changed(s.visible, next, k) ==> exists|i: int| 0 <= i < events.len() && (#[trigger] events[i]).slot == Some(k)
            &&& forall|i: int, j: int| 0 <= i < j < events.len() ==> events[i].slot->0 < events[j].slot->0
        }),
{
    let next = choices_map(choices);
    lemma_changed_slots_exact(s.visible, next, 256);
    let cs = changed_slots(s.visible, next, 256);
    let events = choices_step(s, choices).1;
    assert(events == cs.map_values(|slot: u8| refresh_event(s, next, slot)));
    assert forall|k: u8| slot_changed(s.visible, next, k) implies exists|i: int| 0 <= i < events.len() && (#[trigger] events[i]).slot == Some(k) by {
        assert(cs.contains(k));
        let w = choose|w: int| 0 <= w < cs.len() && cs[w] == k;
        assert(events[w].slot == Some(k));
    }
}

} // verus!
