use electroplating::plate::{
    polarity_heading, polarity_indicator_board_system, Plate, PlateState, PolarityIndicatorBoard,
};

#[test]
fn new_plate_is_off_and_visible() {
    let plate = Plate::new(2);
    assert_eq!(plate.id, 2);
    assert_eq!(plate.state, PlateState::Off);
    assert!(plate.visible);
    assert!(!plate.selected);
}

#[test]
fn only_the_first_plate_starts_selected() {
    assert!(Plate::new(1).selected);
    assert!(!Plate::new(0).selected);
    assert!(!Plate::new(3).selected);
}

#[test]
fn toggle_from_off_then_alternates() {
    let mut plate = Plate::new(1);
    plate.toggle();
    assert_eq!(plate.state, PlateState::Positive);
    plate.toggle();
    assert_eq!(plate.state, PlateState::Negative);
    plate.toggle();
    assert_eq!(plate.state, PlateState::Positive);
    plate.toggle();
    assert_eq!(plate.state, PlateState::Negative);
}

#[test]
fn toggle_keeps_id_selection_and_visibility() {
    let mut plate = Plate { id: 7, state: PlateState::Negative, selected: true, visible: false };
    plate.toggle();
    assert_eq!(
        plate,
        Plate { id: 7, state: PlateState::Positive, selected: true, visible: false }
    );
}

#[test]
fn off_from_every_polarity() {
    for state in [PlateState::Positive, PlateState::Negative, PlateState::Off] {
        let mut plate = Plate { id: 1, state, selected: true, visible: true };
        plate.off();
        assert_eq!(plate.state, PlateState::Off);
        plate.off();
        assert_eq!(plate.state, PlateState::Off);
        assert_eq!(plate.id, 1);
        assert!(plate.selected);
        assert!(plate.visible);
    }
}

#[test]
fn pull_is_the_sign_of_the_polarity() {
    assert_eq!(PlateState::Positive.pull(), 1);
    assert_eq!(PlateState::Negative.pull(), -1);
    assert_eq!(PlateState::Off.pull(), 0);
}

#[test]
fn indicator_text_for_each_polarity() {
    let off = PolarityIndicatorBoard { polarity: PlateState::Off };
    let positive = PolarityIndicatorBoard { polarity: PlateState::Positive };
    let negative = PolarityIndicatorBoard { polarity: PlateState::Negative };
    assert_eq!(polarity_indicator_board_system(&off), "OFF");
    assert_eq!(polarity_indicator_board_system(&positive), "+");
    assert_eq!(polarity_indicator_board_system(&negative), "-");
}

#[test]
fn indicator_label_has_two_parts() {
    let board = PolarityIndicatorBoard { polarity: PlateState::Off };
    let label = format!("{}{}", polarity_heading(), polarity_indicator_board_system(&board));
    assert_eq!(label, "POLARITY OFF");
}
