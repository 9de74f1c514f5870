//! Detection of the win: the electron overlapping the exit.

use vstd::prelude::*;

verus! {

/// Overall state of the game.
#[derive(Debug, Clone, Copy, PartialEq, Eq, Hash, Structural)]
pub enum AppState {
    InGame,
    Victory,
}

impl Default for AppState {
    /// A game starts in play.
    fn default() -> (state: Self)
        ensures
            state == AppState::InGame,
    {
        AppState::InGame
    }
}

/// The request that leaves `Victory`: a won game goes straight back into play,
/// and a game in play asks for nothing.
pub fn transition_to_in_game(state: AppState) -> (request: Option<AppState>)
    ensures
        request == if state == AppState::Victory {
            Some(AppState::InGame)
        } else {
            None::<AppState>
        },
{
    match state {
        AppState::Victory => Some(AppState::InGame),
        AppState::InGame => None,
    }
}

/// Whether the electron overlaps the exit, from what the physics side reports:
/// both must exist, and the intersection query must answer yes.
pub open spec fn overlapping(exit_found: bool, electron_found: bool, intersection: Option<bool>) -> bool {
    exit_found && electron_found && intersection == Some(true)
}

/// Whether a tick requests the victory: the overlap has just begun.
pub open spec fn victory_fires(was_overlapping: bool, overlaps: bool) -> bool {
    overlaps && !was_overlapping
}

/// What the detector remembers after having seen `overlaps`, one entry for
/// each tick, when it remembered `was_overlapping` before.
pub open spec fn overlapping_after(was_overlapping: bool, overlaps: Seq<bool>) -> bool {
    if overlaps.len() == 0 {
        was_overlapping
    } else {
        overlaps.last()
    }
}

/// Number of victory requests over the ticks of `overlaps`, for a detector
/// that remembered `was_overlapping` before the first of them.
pub open spec fn victories(was_overlapping: bool, overlaps: Seq<bool>) -> nat
    decreases overlaps.len(),
{
    if overlaps.len() == 0 {
        0
    } else {
        let earlier = overlaps.drop_last();
        let fired: nat = if victory_fires(overlapping_after(was_overlapping, earlier), overlaps.last()) {
            1
        } else {
            0
        };
        victories(was_overlapping, earlier) + fired
    }
}

/// Remembers from one tick to the next whether the electron overlaps the exit.
#[derive(Debug, Clone, Copy, PartialEq, Eq)]
pub struct WinDetector {
    overlapping: bool,
}

impl WinDetector {
    /// Whether the electron overlapped the exit at the last tick.
    pub closed spec fn was_overlapping(&self) -> bool {
        self.overlapping
    }

    /// A detector for a fresh level: nothing overlaps yet.
    pub fn new() -> (detector: Self)
        ensures
            !detector.was_overlapping(),
    {
        WinDetector { overlapping: false }
    }

    /// Whether the electron overlapped the exit at the last tick.
    pub fn is_overlapping(&self) -> (overlaps: bool)
        ensures
            overlaps == self.was_overlapping(),
    {
        self.overlapping
    }
}

/// One tick of the win detector.
///
/// `exit_found` and `electron_found` tell whether each of the two exists, and
/// `intersection` is the answer of the intersection query for the pair. The
/// victory is requested on the tick at which the overlap begins and on no
/// other: an overlap that lasts asks once.
pub fn handle_exit(
    detector: &mut WinDetector,
    exit_found: bool,
    electron_found: bool,
    intersection: Option<bool>,
) -> (request: Option<AppState>)
    ensures
        final(detector).was_overlapping() == overlapping(exit_found, electron_found, intersection),
        request == if victory_fires(
            old(detector).was_overlapping(),
            overlapping(exit_found, electron_found, intersection),
        ) {
            Some(AppState::Victory)
        } else {
            None::<AppState>
        },
{
    let overlaps = exit_found && electron_found && match intersection {
        Some(answer) => answer,
        None => false,
    };
    let fires = overlaps && !detector.overlapping;
    detector.overlapping = overlaps;
    if fires {
        Some(AppState::Victory)
    } else {
        None
    }
}

/// Before the overlap begins nothing has fired; from its first tick on, one
/// victory has.
proof fn lemma_victories_prefix(overlaps: Seq<bool>, start: int, end: int, k: int)
    requires
        0 <= start < end <= overlaps.len(),
        forall|i: int| 0 <= i < overlaps.len() ==> (#[trigger] overlaps[i] <==> start <= i < end),
        0 <= k <= overlaps.len(),
    ensures
        victories(false, overlaps.take(k)) == if k > start {
            1nat
        } else {
            0nat
        },
    decreases k,
{
    if k > 0 {
        lemma_victories_prefix(overlaps, start, end, k - 1);
        let earlier = overlaps.take(k).drop_last();
        assert(earlier =~= overlaps.take(k - 1));
        assert(overlaps.take(k).last() == overlaps[k - 1]);
        if k > 1 {
            assert(earlier.last() == overlaps[k - 2]);
        }
    }
}

/// A single unbroken overlap requests the victory exactly once, however many
/// ticks it lasts: `overlaps` is true from tick `start` up to, not including,
/// tick `end`, and false before and after.
pub proof fn lemma_one_victory_per_overlap(overlaps: Seq<bool>, start: int, end: int)
    requires
        0 <= start < end <= overlaps.len(),
        forall|i: int| 0 <= i < overlaps.len() ==> (#[trigger] overlaps[i] <==> start <= i < end),
    ensures
        victories(false, overlaps) == 1,
{
    lemma_victories_prefix(overlaps, start, end, overlaps.len() as int);
    assert(overlaps.take(overlaps.len() as int) =~= overlaps);
}

} // verus!
