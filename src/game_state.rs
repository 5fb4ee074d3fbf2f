use vstd::prelude::*;

verus! {

/// What the reconciler receives from the upstream channel of game changes.
#[derive(Debug, Clone, Copy, PartialEq, Eq, Structural)]
pub enum UpstreamEvent {
    /// The running game is now this one (`None`: no game runs).
    Changed(Option<u64>),
    /// The producer is gone.
    Closed,
}

/// What the reconciler does after handling one upstream event.
#[derive(Debug, Clone, Copy, PartialEq, Eq, Structural)]
pub enum ReconcileStep {
    /// The value is stored: wake the tasks that wait for it, then wait for the next change.
    NotifyWaiters,
    /// The producer died before the hub: an invariant is broken and the reconciler stops.
    Halt,
}

/// The hub's state as mathematics: the active game, and whether any value has
/// been stored yet.
pub struct GameStateModel {
    pub active_game: Option<u64>,
    pub ready: bool,
}

impl GameStateModel {
    pub open spec fn initial() -> GameStateModel {
        GameStateModel { active_game: None, ready: false }
    }

    /// The state after the reconciler handles `event`.
    pub open spec fn reconciled(self, event: UpstreamEvent) -> GameStateModel {
        match event {
            UpstreamEvent::Changed(game) => GameStateModel { active_game: game, ready: true },
            UpstreamEvent::Closed => self,
        }
    }

    pub open spec fn step_for(event: UpstreamEvent) -> ReconcileStep {
        match event {
            UpstreamEvent::Changed(_) => ReconcileStep::NotifyWaiters,
            UpstreamEvent::Closed => ReconcileStep::Halt,
        }
    }
}

/// The cell that holds the active game. One reconciler writes it, through
/// `reconcile`; request handlers read it with `read_active_game`.
pub struct GameStateHub {
    active_game: Option<u64>,
    ready: bool,
}

impl View for GameStateHub {
    type V = GameStateModel;

    closed spec fn view(&self) -> GameStateModel {
        GameStateModel { active_game: self.active_game, ready: self.ready }
    }
}

impl GameStateHub {
    /// An empty cell: no game, and no value received yet.
    pub fn new() -> (r: Self)
        ensures
            r@ == GameStateModel::initial(),
    {
        GameStateHub { active_game: None, ready: false }
    }

    /// One turn of the reconciler: a change is stored and the waiters are to be
    /// woken; a closed producer halts the reconciler and leaves the cell as it is.
    pub fn reconcile(&mut self, event: UpstreamEvent) -> (r: ReconcileStep)
        ensures
            final(self)@ == old(self)@.reconciled(event),
            r == GameStateModel::step_for(event),
    {
        match event {
            UpstreamEvent::Changed(game) => {
                self.active_game = game;
                self.ready = true;
                ReconcileStep::NotifyWaiters
            },
            UpstreamEvent::Closed => ReconcileStep::Halt,
        }
    }

    /// The game that is active now.
    pub fn read_active_game(&self) -> (r: Option<u64>)
        ensures
            r == self@.active_game,
    {
        self.active_game
    }

    /// Whether a first value has been stored.
    pub fn is_ready(&self) -> (r: bool)
        ensures
            r == self@.ready,
    {
        self.ready
    }
}

/// Once the reconciler has stored a change to `game` and signalled it, a read
/// returns `game`, and the hub counts as ready.
pub proof fn lemma_read_after_change(h: GameStateModel, game: Option<u64>)
    ensures
        h.reconciled(UpstreamEvent::Changed(game)).active_game == game,
        h.reconciled(UpstreamEvent::Changed(game)).ready,
        GameStateModel::step_for(UpstreamEvent::Changed(game)) == ReconcileStep::NotifyWaiters,
{
}

/// A later change wins: after two changes a read returns the second.
pub proof fn lemma_last_change_wins(h: GameStateModel, first: Option<u64>, second: Option<u64>)
    ensures
        h.reconciled(UpstreamEvent::Changed(first)).reconciled(
            UpstreamEvent::Changed(second),
        ).active_game == second,
{
}

} // verus!
