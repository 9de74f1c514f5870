//! The plate registry and the state machine that the four direction keys drive.

use crate::plate::{toggled, Plate, PlateState, PolarityIndicatorBoard};
use crate::selection::{
    id_after_lefts, id_after_rights, lemma_full_round_returns, lemma_next_id, lemma_previous_id,
    previous_id, selection_after, selection_after_keys,
};
use crate::timer::{elapsed_after_tick, period_completed, PlateSelectedAnimationTimer};
use vstd::prelude::*;

verus! {

/// The direction keys that went down during one tick.
#[derive(Copy, Clone, Debug, PartialEq, Eq, Structural)]
pub struct DirectionalInput {
    pub up: bool,
    pub down: bool,
    pub left: bool,
    pub right: bool,
}

/// A sound that the state machine asks for.
#[derive(Copy, Clone, Debug, PartialEq, Eq, Structural)]
pub enum AudioIntent {
    /// The selected plate was toggled.
    Toggle,
    /// The selected plate was switched off.
    Off,
    /// The selection was moved.
    Select,
}

/// `s` is the index of the one plate that is selected.
pub open spec fn is_selection(plates: Seq<Plate>, s: int) -> bool {
    &&& 0 <= s < plates.len()
    &&& forall|j: int| 0 <= j < plates.len() ==> ((#[trigger] plates[j]).selected <==> j == s)
}

/// Index of the selected plate, where exactly one is selected.
pub open spec fn selected_index(plates: Seq<Plate>) -> int {
    choose|s: int| is_selection(plates, s)
}

/// What holds of the plates of a registry at all times: the ids count up from
/// one, exactly one plate is selected unless there is none at all, and a plate
/// that is not selected is visible.
pub open spec fn well_formed(plates: Seq<Plate>) -> bool {
    &&& forall|i: int| 0 <= i < plates.len() ==> (#[trigger] plates[i]).id == i + 1
    &&& forall|i: int| 0 <= i < plates.len() && !(#[trigger] plates[i]).selected ==> plates[i].visible
    &&& plates.len() > 0 ==> exists|s: int| is_selection(plates, s)
}

/// The plates of a fresh level: each as `Plate::new` makes it.
pub open spec fn initial_plates(count: nat) -> Seq<Plate> {
    Seq::new(
        count,
        |i: int| Plate { id: (i + 1) as usize, state: PlateState::Off, selected: i == 0, visible: true },
    )
}

/// Polarity of the selected plate after the keys of one tick: `up` toggles
/// first, then `down` switches off.
pub open spec fn polarity_after_keys(state: PlateState, up: bool, down: bool) -> PlateState {
    if down {
        PlateState::Off
    } else if up {
        toggled(state)
    } else {
        state
    }
}

/// The plates after one tick with the given keys, where `blink` tells whether
/// the animation timer just finished.
///
/// The polarity keys act on the plate that was selected before the tick. The
/// selection then moves, the newly selected plate flips its visibility on a
/// blink and keeps it otherwise, and every other plate is made visible.
pub open spec fn plates_after_tick(
    plates: Seq<Plate>,
    input: DirectionalInput,
    blink: bool,
) -> Seq<Plate> {
    if plates.len() == 0 {
        plates
    } else {
        let chosen = selection_after_keys(
            selected_index(plates) + 1,
            plates.len() as int,
            input.left,
            input.right,
        );
        Seq::new(
            plates.len(),
            |i: int|
                Plate {
                    id: plates[i].id,
                    state: if plates[i].selected {
                        polarity_after_keys(plates[i].state, input.up, input.down)
                    } else {
                        plates[i].state
                    },
                    selected: i + 1 == chosen,
                    visible: if i + 1 == chosen {
                        if blink {
                            !plates[i].visible
                        } else {
                            plates[i].visible
                        }
                    } else {
                        true
                    },
                },
        )
    }
}

/// The sounds of one tick, in the order in which they are asked for: one for
/// each key that went down. Without a plate no key does anything, and nothing
/// sounds.
pub open spec fn intents_of(input: DirectionalInput, any_plate: bool) -> Seq<AudioIntent> {
    if !any_plate {
        Seq::<AudioIntent>::empty()
    } else {
        let toggle = if input.up {
            seq![AudioIntent::Toggle]
        } else {
            Seq::<AudioIntent>::empty()
        };
        let off = if input.down {
            seq![AudioIntent::Off]
        } else {
            Seq::<AudioIntent>::empty()
        };
        let back = if input.left {
            seq![AudioIntent::Select]
        } else {
            Seq::<AudioIntent>::empty()
        };
        let forward = if input.right {
            seq![AudioIntent::Select]
        } else {
            Seq::<AudioIntent>::empty()
        };
        toggle + off + back + forward
    }
}

/// Number of plates that are selected.
pub open spec fn selected_count(plates: Seq<Plate>) -> nat
    decreases plates.len(),
{
    if plates.len() == 0 {
        0
    } else {
        let rest = selected_count(plates.drop_last());
        if plates.last().selected {
            rest + 1
        } else {
            rest
        }
    }
}

/// A tick maps well-formed plates to well-formed plates, and the plate that
/// is selected afterwards is the one that the selection keys lead to.
pub proof fn lemma_tick_keeps_well_formed(plates: Seq<Plate>, input: DirectionalInput, blink: bool)
    requires
        well_formed(plates),
    ensures
        well_formed(plates_after_tick(plates, input, blink)),
        plates_after_tick(plates, input, blink).len() == plates.len(),
        plates.len() > 0 ==> selected_index(plates_after_tick(plates, input, blink)) + 1
            == selection_after_keys(
            selected_index(plates) + 1,
            plates.len() as int,
            input.left,
            input.right,
        ),
{
    if plates.len() > 0 {
        let count = plates.len() as int;
        let id = selected_index(plates) + 1;
        let stepped_back = if input.left {
            previous_id(id, count)
        } else {
            id
        };
        lemma_previous_id(id, count);
        lemma_next_id(stepped_back, count);
        let chosen = selection_after_keys(id, count, input.left, input.right);
        let after = plates_after_tick(plates, input, blink);
        assert(is_selection(after, chosen - 1));
        assert(after[chosen - 1].selected);
    }
}

/// The plates after one tick for each entry of `blinks`, every one of them
/// with the same keys; `blinks` tells for each tick whether the animation
/// timer just finished.
pub open spec fn plates_after_ticks(
    plates: Seq<Plate>,
    input: DirectionalInput,
    blinks: Seq<bool>,
) -> Seq<Plate>
    decreases blinks.len(),
{
    if blinks.len() == 0 {
        plates
    } else {
        plates_after_tick(
            plates_after_ticks(plates, input, blinks.drop_last()),
            input,
            blinks.last(),
        )
    }
}

/// Any number of ticks keeps the plates well formed and their number the same.
pub proof fn lemma_ticks_keep_well_formed(
    plates: Seq<Plate>,
    input: DirectionalInput,
    blinks: Seq<bool>,
)
    requires
        well_formed(plates),
    ensures
        well_formed(plates_after_ticks(plates, input, blinks)),
        plates_after_ticks(plates, input, blinks).len() == plates.len(),
    decreases blinks.len(),
{
    if blinks.len() > 0 {
        lemma_ticks_keep_well_formed(plates, input, blinks.drop_last());
        lemma_tick_keeps_well_formed(
            plates_after_ticks(plates, input, blinks.drop_last()),
            input,
            blinks.last(),
        );
    }
}

/// Ticks with only the right key move the selection as `id_after_rights`
/// says, and ticks with only the left key as `id_after_lefts` says.
proof fn lemma_selection_after_ticks(plates: Seq<Plate>, input: DirectionalInput, blinks: Seq<bool>)
    requires
        well_formed(plates),
        plates.len() > 0,
        input.left != input.right,
    ensures
        selected_index(plates_after_ticks(plates, input, blinks)) + 1 == if input.right {
            id_after_rights(selected_index(plates) + 1, plates.len() as int, blinks.len())
        } else {
            id_after_lefts(selected_index(plates) + 1, plates.len() as int, blinks.len())
        },
    decreases blinks.len(),
{
    if blinks.len() > 0 {
        let earlier = plates_after_ticks(plates, input, blinks.drop_last());
        lemma_selection_after_ticks(plates, input, blinks.drop_last());
        lemma_ticks_keep_well_formed(plates, input, blinks.drop_last());
        lemma_tick_keeps_well_formed(earlier, input, blinks.last());
    }
}

/// With at least one plate, pressing the right key once in each of as many
/// ticks as there are plates returns the selection to the plate it started
/// from, and so does pressing the left key; whether the polarity keys go down
/// too, and when the timer blinks, makes no difference.
pub proof fn lemma_selection_returns(plates: Seq<Plate>, input: DirectionalInput, blinks: Seq<bool>)
    requires
        well_formed(plates),
        plates.len() > 0,
        input.left != input.right,
        blinks.len() == plates.len(),
    ensures
        selected_index(plates_after_ticks(plates, input, blinks)) == selected_index(plates),
{
    lemma_selection_after_ticks(plates, input, blinks);
    assert(is_selection(plates, selected_index(plates)));
    lemma_full_round_returns(selected_index(plates) + 1, plates.len() as int);
}

/// Among the first `k` plates, one is selected if the selected plate is among
/// them, and none otherwise.
proof fn lemma_selected_count_prefix(plates: Seq<Plate>, k: int)
    requires
        0 <= k <= plates.len(),
        is_selection(plates, selected_index(plates)),
    ensures
        selected_count(plates.take(k)) == if selected_index(plates) < k {
            1nat
        } else {
            0nat
        },
    decreases k,
{
    if k > 0 {
        lemma_selected_count_prefix(plates, k - 1);
        assert(plates.take(k).drop_last() =~= plates.take(k - 1));
        assert(plates.take(k).last() == plates[k - 1]);
    }
}

/// Well-formed plates, unless there are none, have exactly one plate selected.
pub proof fn lemma_exactly_one_selected(plates: Seq<Plate>)
    requires
        well_formed(plates),
        plates.len() > 0,
    ensures
        selected_count(plates) == 1,
        plates[selected_index(plates)].selected,
        forall|i: int|
            0 <= i < plates.len() && i != selected_index(plates) ==> !(#[trigger] plates[i]).selected,
{
    assert(is_selection(plates, selected_index(plates)));
    lemma_selected_count_prefix(plates, plates.len() as int);
    assert(plates.take(plates.len() as int) =~= plates);
}

/// The plates of a level, in the order of their ids.
///
/// The registry keeps its plates well formed: see `well_formed`.
pub struct PlateRegistry {
    plates: Vec<Plate>,
}

impl View for PlateRegistry {
    type V = Seq<Plate>;

    closed spec fn view(&self) -> Seq<Plate> {
        self.plates@
    }
}

impl PlateRegistry {
    #[verifier::type_invariant]
    spec fn plates_well_formed(self) -> bool {
        well_formed(self.plates@)
    }

    /// A registry of `count` plates with the ids `1` to `count`, all off and
    /// visible, the first one selected.
    pub fn new(count: usize) -> (registry: Self)
        ensures
            registry@ == initial_plates(count as nat),
            well_formed(registry@),
    {
        let mut plates: Vec<Plate> = Vec::new();
        let mut i: usize = 0;
        while i < count
            invariant
                i <= count,
                plates@ == initial_plates(i as nat),
            decreases count - i,
        {
            plates.push(Plate::new(i + 1));
            i += 1;
            assert(plates@ =~= initial_plates(i as nat));
        }
        assert(well_formed(plates@)) by {
            if count > 0 {
                assert(is_selection(plates@, 0));
            }
        }
        PlateRegistry { plates }
    }

    /// A registry of the given plates, where they are well formed: ids that
    /// count up from one, exactly one plate selected unless there is none,
    /// and every other plate visible. `None` for any other plates.
    pub fn from_plates(plates: Vec<Plate>) -> (registry: Option<Self>)
        ensures
            registry is Some <==> well_formed(plates@),
            registry matches Some(accepted) ==> accepted@ == plates@,
    {
        let count = plates.len();
        let mut found: Option<usize> = None;
        let mut i: usize = 0;
        while i < count
            invariant
                i <= count,
                count == plates@.len(),
                forall|j: int| 0 <= j < i ==> (#[trigger] plates@[j]).id == j + 1,
                forall|j: int| 0 <= j < i && !(#[trigger] plates@[j]).selected ==> plates@[j].visible,
                match found {
                    Some(s) => s < i && forall|j: int|
                        0 <= j < i ==> ((#[trigger] plates@[j]).selected <==> j == s),
                    None => forall|j: int| 0 <= j < i ==> !(#[trigger] plates@[j]).selected,
                },
            decreases count - i,
        {
            let plate = plates[i];
            if plate.id != i + 1 {
                return None;
            }
            if plate.selected {
                if let Some(s) = found {
                    assert(plates@[s as int].selected && plates@[i as int].selected);
                    return None;
                }
                found = Some(i);
            } else if !plate.visible {
                return None;
            }
            i += 1;
        }
        match found {
            Some(s) => {
                assert(is_selection(plates@, s as int));
                Some(PlateRegistry { plates })
            },
            None => {
                if count == 0 {
                    Some(PlateRegistry { plates })
                } else {
                    assert(!well_formed(plates@)) by {
                        if well_formed(plates@) {
                            assert(plates@[selected_index(plates@)].selected);
                        }
                    }
                    None
                }
            },
        }
    }

    /// Number of plates.
    pub fn len(&self) -> (count: usize)
        ensures
            count == self@.len(),
            well_formed(self@),
    {
        proof {
            use_type_invariant(self);
        }
        self.plates.len()
    }

    /// The plate with the given id, if there is one.
    pub fn get(&self, id: usize) -> (plate: Option<Plate>)
        ensures
            plate == if 1 <= id <= self@.len() {
                Some(self@[id - 1])
            } else {
                None
            },
    {
        if 1 <= id && id <= self.plates.len() {
            Some(self.plates[id - 1])
        } else {
            None
        }
    }

    /// Id of the selected plate; `None` only where there is no plate.
    pub fn selected_id(&self) -> (id: Option<usize>)
        ensures
            well_formed(self@),
            id == if self@.len() > 0 {
                Some((selected_index(self@) + 1) as usize)
            } else {
                None
            },
    {
        proof {
            use_type_invariant(self);
        }
        if self.plates.len() == 0 {
            None
        } else {
            Some(find_selected(&self.plates) + 1)
        }
    }

    /// The plates after a tick: see `plates_after_tick`.
    fn plates_after(&self, keyboard_input: DirectionalInput, blink: bool) -> (plates: Vec<Plate>)
        requires
            self@.len() > 0,
        ensures
            plates@ == plates_after_tick(self@, keyboard_input, blink),
            well_formed(plates@),
    {
        proof {
            use_type_invariant(self);
            lemma_tick_keeps_well_formed(self@, keyboard_input, blink);
        }
        let count = self.plates.len();
        let index = find_selected(&self.plates);
        let chosen = selection_after(index + 1, count, keyboard_input.left, keyboard_input.right);
        let ghost after = plates_after_tick(self@, keyboard_input, blink);
        let mut plates: Vec<Plate> = Vec::new();
        let mut i: usize = 0;
        while i < count
            invariant
                i <= count,
                count == self.plates@.len(),
                well_formed(self.plates@),
                is_selection(self.plates@, index as int),
                index == selected_index(self.plates@),
                chosen == selection_after_keys(
                    index + 1,
                    count as int,
                    keyboard_input.left,
                    keyboard_input.right,
                ),
                after == plates_after_tick(self.plates@, keyboard_input, blink),
                plates@.len() == i,
                forall|j: int| 0 <= j < i ==> plates@[j] == after[j],
            decreases count - i,
        {
            let mut plate = self.plates[i];
            if plate.selected {
                if keyboard_input.up {
                    plate.toggle();
                }
                if keyboard_input.down {
                    plate.off();
                }
            }
            plate.selected = chosen == plate.id;
            if plate.selected {
                if blink {
                    plate.visible = !plate.visible;
                }
            } else {
                plate.visible = true;
            }
            plates.push(plate);
            i += 1;
        }
        assert(plates@ =~= after);
        plates
    }
}

/// Index of the selected plate.
fn find_selected(plates: &Vec<Plate>) -> (index: usize)
    requires
        plates@.len() > 0,
        well_formed(plates@),
    ensures
        index == selected_index(plates@),
        is_selection(plates@, index as int),
{
    let mut index: usize = 0;
    while !plates[index].selected
        invariant
            index < plates.len(),
            is_selection(plates@, selected_index(plates@)),
            forall|j: int| 0 <= j < index ==> !(#[trigger] plates@[j]).selected,
        decreases plates.len() - index,
    {
        assert(plates@[selected_index(plates@)].selected);
        index += 1;
    }
    assert(plates@[index as int].selected);
    index
}

/// The sounds of one tick: see `intents_of`.
fn sounds(keyboard_input: DirectionalInput, any_plate: bool) -> (intents: Vec<AudioIntent>)
    ensures
        intents@ == intents_of(keyboard_input, any_plate),
{
    let mut intents: Vec<AudioIntent> = Vec::new();
    if any_plate {
        if keyboard_input.up {
            intents.push(AudioIntent::Toggle);
        }
        if keyboard_input.down {
            intents.push(AudioIntent::Off);
        }
        if keyboard_input.left {
            intents.push(AudioIntent::Select);
        }
        if keyboard_input.right {
            intents.push(AudioIntent::Select);
        }
    }
    assert(intents@ =~= intents_of(keyboard_input, any_plate));
    intents
}

/// One tick of the plate control state machine.
///
/// With no plate in the registry the tick does nothing: nothing changes and
/// nothing sounds. Otherwise, in this order: `up` toggles the selected plate and `down`
/// switches it off; `left` and `right` move the selection round the ids; the
/// animation timer advances by `delta_nanos`, and where it just finished the
/// newly selected plate flips its visibility, while every other plate is made
/// visible; the board takes the polarity of the newly selected plate. The
/// result lists the sounds asked for: a polarity key sounds even where it
/// leaves the polarity as it was.
pub fn plate_control_system(
    registry: &mut PlateRegistry,
    keyboard_input: DirectionalInput,
    delta_nanos: u64,
    animation_timer: &mut PlateSelectedAnimationTimer,
    polarity_indicator_board: &mut PolarityIndicatorBoard,
) -> (intents: Vec<AudioIntent>)
    ensures
        well_formed(final(registry)@),
        final(registry)@ == plates_after_tick(
            old(registry)@,
            keyboard_input,
            period_completed(
                old(animation_timer).spec_period(),
                old(animation_timer).spec_elapsed(),
                delta_nanos as int,
            ),
        ),
        final(animation_timer).spec_period() == old(animation_timer).spec_period(),
        final(animation_timer).spec_elapsed() == if old(registry)@.len() > 0 {
            elapsed_after_tick(
                old(animation_timer).spec_period(),
                old(animation_timer).spec_elapsed(),
                delta_nanos as int,
            )
        } else {
            old(animation_timer).spec_elapsed()
        },
        final(polarity_indicator_board).polarity == if old(registry)@.len() > 0 {
            final(registry)@[selected_index(final(registry)@)].state
        } else {
            old(polarity_indicator_board).polarity
        },
        intents@ == intents_of(keyboard_input, old(registry)@.len() > 0),
{
    proof {
        use_type_invariant(&*registry);
    }
    let any_plate = registry.plates.len() > 0;
    let intents = sounds(keyboard_input, any_plate);
    if any_plate {
        let blink = animation_timer.tick(delta_nanos);
        let plates = registry.plates_after(keyboard_input, blink);
        let chosen = find_selected(&plates);
        polarity_indicator_board.polarity = plates[chosen].state;
        registry.plates = plates;
    }
    intents
}

} // verus!
