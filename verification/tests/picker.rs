use perch::app::picker::{
    find_first_open, first_ticks, meant_row, open_rows, picked_after, ticked_after, visible_rows,
    PickKey, PickState, PickStep, TickStep,
};
use perch::app::signs::{status_signs, Sign};
use perch::talk::{Picked, Row};

fn row(name: &str, selectable: bool, ticked: bool) -> Row {
    Row {
        name: name.to_string(),
        detail: String::new(),
        selectable,
        ticked,
    }
}

/// `a` and `d` can be selected; `b` was ticked and cannot be.
fn rows() -> Vec<Row> {
    vec![
        row("a", true, false),
        row("b", false, true),
        row("c", false, false),
        row("d", true, true),
    ]
}

fn state(filter: &str, at: Option<usize>) -> PickState {
    PickState {
        filter: filter.to_string(),
        at,
    }
}

#[test]
fn a_worktree_shows_the_signs_that_hold_of_it() {
    assert_eq!(status_signs(false, 0, 0), []);
    assert_eq!(
        status_signs(true, 2, 1),
        [Sign::Dirty, Sign::Ahead(2), Sign::Behind(1)]
    );
    assert_eq!(status_signs(false, 0, 7), [Sign::Behind(7)]);
    assert_eq!(Sign::Dirty.text(), "●");
    assert_eq!(Sign::Ahead(12).text(), "↑12");
    assert_eq!(Sign::Behind(3).text(), "↓3");
}

#[test]
fn a_list_opens_on_what_can_be_selected() {
    assert_eq!(first_ticks(&rows()), [false, false, false, true]);
    assert_eq!(find_first_open(&open_rows(&rows())), 0);
    assert_eq!(find_first_open(&[false, false, true]), 2);
    assert_eq!(find_first_open(&[false]), 0);
    assert_eq!(find_first_open(&[]), 0);
}

#[test]
fn arrows_pass_over_what_cannot_be_selected() {
    let ticks = first_ticks(&rows());
    for (at, key, to) in [
        (0, PickKey::Down, 3),
        (3, PickKey::Down, 0),
        (0, PickKey::Up, 3),
        (3, PickKey::Up, 0),
        (9, PickKey::Up, 9),
    ] {
        assert_eq!(
            ticked_after(&rows(), &ticks, at, key),
            TickStep::Show {
                ticked: ticks.clone(),
                at: to
            }
        );
    }
    let shut = [row("x", false, false)];
    assert_eq!(
        ticked_after(&shut, &[false], 0, PickKey::Down),
        TickStep::Show {
            ticked: vec![false],
            at: 0
        }
    );
}

#[test]
fn keys_tick_untick_and_take() {
    let ticked = |before: &[bool], at: usize, key: PickKey| {
        match ticked_after(&rows(), before, at, key) {
            TickStep::Show { ticked, .. } => ticked,
            other => panic!("{other:?}"),
        }
    };
    let none = [false; 4];
    let space = PickKey::Char(' ');
    assert_eq!(ticked(&none, 0, space), [true, false, false, false]);
    assert_eq!(ticked(&[true, false, false, false], 0, space), none);
    assert_eq!(ticked(&none, 1, space), none);
    assert_eq!(ticked(&none, 0, PickKey::Char('x')), none);
    assert_eq!(ticked(&none, 0, PickKey::Right), [true, false, false, true]);
    assert_eq!(ticked(&[true; 4], 0, PickKey::Left), none);
    assert_eq!(
        ticked_after(&rows(), &[true; 4], 0, PickKey::Enter),
        TickStep::Chosen(vec![0, 3])
    );
    assert_eq!(
        ticked_after(&rows(), &none, 0, PickKey::Escape),
        TickStep::Quit
    );
    assert_eq!(
        ticked_after(&rows(), &none, 0, PickKey::Interrupt),
        TickStep::Interrupted
    );
}

#[test]
fn a_filter_is_found_in_order_whatever_stands_between() {
    let rows = [
        row("feature/login", true, false),
        row("Fix-Typo", true, false),
        row("main", true, true),
    ];
    assert_eq!(visible_rows(&rows, ""), [0, 1, 2]);
    assert_eq!(visible_rows(&rows, "fl"), [0]);
    assert_eq!(visible_rows(&rows, "FT"), [0, 1]);
    assert_eq!(visible_rows(&rows, "typo"), [1]);
    assert_eq!(visible_rows(&rows, "nm"), []);
    assert_eq!(visible_rows(&rows, "mainn"), []);
}

#[test]
fn the_marked_row_is_meant_until_something_is_typed() {
    let rows = [
        row("held", false, false),
        row("hot", true, false),
        row("here", true, true),
    ];
    assert_eq!(meant_row(&rows, &state("", None)), Some(2));
    assert_eq!(meant_row(&rows, &state("h", None)), Some(1));
    assert_eq!(meant_row(&rows, &state("held", None)), Some(0));
    assert_eq!(meant_row(&rows, &state("", Some(0))), Some(0));
    assert_eq!(meant_row(&rows, &state("h", Some(7))), Some(1));
    assert_eq!(meant_row(&rows, &state("none", None)), None);
}

#[test]
fn enter_takes_a_row_or_a_new_name() {
    let rows = [row("held", false, false), row("hot", true, false)];
    let after = |filter: &str, key, create| picked_after(&rows, &state(filter, None), key, create);
    assert_eq!(
        after("", PickKey::Enter, false),
        PickStep::Done(Picked::Existing("hot".to_string()))
    );
    assert_eq!(
        after("held", PickKey::Enter, true),
        PickStep::Show(state("held", None))
    );
    assert_eq!(
        after("brand-new", PickKey::Enter, true),
        PickStep::Done(Picked::Create("brand-new".to_string()))
    );
    assert_eq!(
        after("brand-new", PickKey::Enter, false),
        PickStep::Show(state("brand-new", None))
    );
    assert_eq!(
        picked_after(&[], &state("", None), PickKey::Enter, true),
        PickStep::Show(state("", None))
    );
    assert_eq!(after("", PickKey::Escape, true), PickStep::Quit);
    assert_eq!(after("", PickKey::Interrupt, true), PickStep::Interrupted);
}

#[test]
fn typing_narrows_and_arrows_move_among_what_is_shown() {
    let rows = [
        row("alpha", true, false),
        row("beta", false, false),
        row("beat", true, false),
    ];
    assert_eq!(
        picked_after(&rows, &state("b", Some(1)), PickKey::Char('e'), false),
        PickStep::Show(state("be", None))
    );
    assert_eq!(
        picked_after(&rows, &state("bé", Some(1)), PickKey::Backspace, false),
        PickStep::Show(state("b", None))
    );
    assert_eq!(
        picked_after(&rows, &state("", None), PickKey::Backspace, false),
        PickStep::Show(state("", None))
    );
    assert_eq!(
        picked_after(&rows, &state("", Some(0)), PickKey::Down, false),
        PickStep::Show(state("", Some(2)))
    );
    assert_eq!(
        picked_after(&rows, &state("be", None), PickKey::Up, false),
        PickStep::Show(state("be", Some(1)))
    );
    assert_eq!(
        picked_after(&rows, &state("zz", None), PickKey::Down, false),
        PickStep::Show(state("zz", None))
    );
}
