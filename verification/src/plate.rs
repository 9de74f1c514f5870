//! Plates, their polarity and the indicator that mirrors the selected one.

use vstd::prelude::*;

verus! {

/// Polarity of a plate.
#[derive(Copy, Clone, Debug, PartialEq, Eq, Structural)]
pub enum PlateState {
    Positive,
    Negative,
    Off,
}

/// Polarity after a toggle: the two charged polarities swap, and a plate that
/// is off becomes positive.
pub open spec fn toggled(state: PlateState) -> PlateState {
    match state {
        PlateState::Positive => PlateState::Negative,
        PlateState::Negative => PlateState::Positive,
        PlateState::Off => PlateState::Positive,
    }
}

/// Sign with which a plate of the given polarity acts on the electron, along
/// the direction from the electron to the plate: a positive plate pulls, a
/// negative plate pushes, a plate that is off does nothing.
pub open spec fn pull_sign(state: PlateState) -> int {
    match state {
        PlateState::Positive => 1,
        PlateState::Negative => -1,
        PlateState::Off => 0,
    }
}

/// Text that the indicator shows for a polarity: `OFF`, `+` or `-`.
pub open spec fn polarity_text(state: PlateState) -> Seq<char> {
    match state {
        PlateState::Off => seq!['O', 'F', 'F'],
        PlateState::Positive => seq!['+'],
        PlateState::Negative => seq!['-'],
    }
}

/// Fixed first part of the indicator's label: `POLARITY` and a space.
pub open spec fn polarity_heading_text() -> Seq<char> {
    seq!['P', 'O', 'L', 'A', 'R', 'I', 'T', 'Y', ' ']
}

impl PlateState {
    /// The factor, `1`, `-1` or `0`, by which this polarity scales the force
    /// that points from the electron to the plate.
    pub fn pull(self) -> (sign: i8)
        ensures
            sign == pull_sign(self),
    {
        match self {
            PlateState::Positive => 1,
            PlateState::Negative => -1,
            PlateState::Off => 0,
        }
    }
}

/// A charged plate.
///
/// `id` is stable and counts from one. `selected` marks the one plate that
/// receives polarity input, and `visible` is what a renderer should show: only
/// the selected plate ever blinks.
#[derive(Copy, Clone, Debug, PartialEq, Eq, Structural)]
pub struct Plate {
    pub id: usize,
    pub state: PlateState,
    pub selected: bool,
    pub visible: bool,
}

impl Plate {
    /// A plate as a level starts with it: off, visible, and selected exactly
    /// when it is the first plate.
    pub fn new(id: usize) -> (plate: Self)
        ensures
            plate == (Plate { id, state: PlateState::Off, selected: id == 1, visible: true }),
    {
        Plate { id, state: PlateState::Off, selected: id == 1, visible: true }
    }

    /// Toggles the polarity; everything else stays.
    pub fn toggle(&mut self)
        ensures
            *final(self) == (Plate { state: toggled(old(self).state), ..*old(self) }),
    {
        self.state = match self.state {
            PlateState::Positive => PlateState::Negative,
            PlateState::Negative => PlateState::Positive,
            PlateState::Off => PlateState::Positive,
        }
    }

    /// Switches the plate off, whatever its polarity was; everything else stays.
    pub fn off(&mut self)
        ensures
            *final(self) == (Plate { state: PlateState::Off, ..*old(self) }),
    {
        self.state = PlateState::Off
    }
}

/// From a plate that is off, toggling reaches `Positive` and from then on
/// alternates between `Negative` and `Positive`: a toggle never switches a
/// plate off, and two toggles bring a charged plate back to where it was.
pub proof fn lemma_toggle_cycle(state: PlateState)
    ensures
        toggled(PlateState::Off) == PlateState::Positive,
        toggled(PlateState::Positive) == PlateState::Negative,
        toggled(PlateState::Negative) == PlateState::Positive,
        toggled(state) != PlateState::Off,
        state != PlateState::Off ==> toggled(toggled(state)) == state,
        toggled(toggled(toggled(state))) == toggled(state),
{
}

/// Mirror of the selected plate's polarity, kept for display.
#[derive(Copy, Clone, Debug, PartialEq, Eq, Structural)]
pub struct PolarityIndicatorBoard {
    pub polarity: PlateState,
}

/// The second part of the indicator's label: the text for the polarity that
/// the board mirrors.
pub fn polarity_indicator_board_system(
    polarity_indicator_board: &PolarityIndicatorBoard,
) -> (value: String)
    ensures
        value@ == polarity_text(polarity_indicator_board.polarity),
{
    proof {
        reveal_strlit("OFF");
        reveal_strlit("+");
        reveal_strlit("-");
    }
    let value = match polarity_indicator_board.polarity {
        PlateState::Off => "OFF".to_owned(),
        PlateState::Positive => "+".to_owned(),
        PlateState::Negative => "-".to_owned(),
    };
    assert(value@ =~= polarity_text(polarity_indicator_board.polarity));
    value
}

/// The first part of the indicator's label, which never changes.
pub fn polarity_heading() -> (heading: String)
    ensures
        heading@ == polarity_heading_text(),
{
    proof {
        reveal_strlit("POLARITY ");
    }
    let heading = "POLARITY ".to_owned();
    assert(heading@ =~= polarity_heading_text());
    heading
}

} // verus!
