use kaf9s::tui::app::{App, AppAction, AppContext, AppEvent, Key, KeyInput, KeyKind};
use kaf9s::tui::root::{layout, size_constraints, Area, Direction, Root, SelectedTab, SizeConstraint};
use kaf9s::tui::traceroute::TracerouteTab;

fn press(code: Key) -> KeyInput {
    KeyInput { code, kind: KeyKind::Press, shift: false }
}

fn shifted(code: Key) -> KeyInput {
    KeyInput { code, kind: KeyKind::Press, shift: true }
}

fn app_at(tab: usize, row: usize) -> App {
    let mut app = App::new();
    app.context = AppContext { tab_index: tab, row_index: row };
    app
}

#[test]
fn new_app_state() {
    let app = App::new();
    assert!(app.running);
    assert_eq!(app.counter, 0);
    assert_eq!(app.context, AppContext { tab_index: 0, row_index: 0 });
    assert_eq!(AppContext::default(), AppContext { tab_index: 0, row_index: 0 });
    app.tick();
}

#[test]
fn quit_stops() {
    let mut app = App::new();
    app.quit();
    assert!(!app.running);
}

#[test]
fn counter_saturates() {
    let mut app = App::new();
    app.decrement_counter();
    assert_eq!(app.counter, 0);
    app.increment_counter();
    app.increment_counter();
    assert_eq!(app.counter, 2);
    app.decrement_counter();
    assert_eq!(app.counter, 1);
    app.counter = 255;
    app.increment_counter();
    assert_eq!(app.counter, 255);
}

#[test]
fn counter_round_trip() {
    for c in [0u8, 1, 100, 254] {
        let mut app = App::new();
        app.counter = c;
        app.increment_counter();
        app.decrement_counter();
        assert_eq!(app.counter, c);
    }
    for c in [1u8, 100, 255] {
        let mut app = App::new();
        app.counter = c;
        app.decrement_counter();
        app.increment_counter();
        assert_eq!(app.counter, c);
    }
}

#[test]
fn digit_keys() {
    for (c, n) in [('0', 0), ('1', 1), ('2', 2), ('3', 3), ('4', 4), ('8', 8), ('9', 9)] {
        assert_eq!(Key::Char(c).to_number(), Some(n));
    }
    assert_eq!(Key::Char('a').to_number(), None);
    assert_eq!(Key::Tab.to_number(), None);
}

#[test]
fn number_keys_select_tab() {
    let mut app = app_at(0, 5);
    app.handle_key_event(press(Key::Char('3')));
    assert_eq!(app.context, AppContext { tab_index: 2, row_index: 0 });
    app.handle_key_event(press(Key::Char('1')));
    assert_eq!(app.context, AppContext { tab_index: 0, row_index: 0 });
    let mut app = app_at(1, 4);
    app.handle_key_event(press(Key::Char('4')));
    app.handle_key_event(press(Key::Char('0')));
    assert_eq!(app.context, AppContext { tab_index: 1, row_index: 4 });
}

#[test]
fn quit_keys() {
    let mut app = App::new();
    app.handle_key_event(press(Key::Char('q')));
    assert!(!app.running);
    let mut app = App::new();
    app.handle_key_event(press(Key::Esc));
    assert!(!app.running);
    let mut app = App::new();
    app.handle_key_event(KeyInput { code: Key::Esc, kind: KeyKind::Release, shift: false });
    assert!(app.running);
}

#[test]
fn only_presses_count() {
    let mut app = app_at(1, 3);
    app.handle_key_event(KeyInput { code: Key::Tab, kind: KeyKind::Repeat, shift: false });
    app.handle_key_event(KeyInput { code: Key::Char('2'), kind: KeyKind::Release, shift: false });
    assert_eq!(app.context, AppContext { tab_index: 1, row_index: 3 });
    assert!(app.running);
}

#[test]
fn tab_keys_go_round() {
    let mut app = app_at(2, 7);
    app.handle_key_event(press(Key::Tab));
    assert_eq!(app.context, AppContext { tab_index: 0, row_index: 0 });
    app.handle_key_event(press(Key::BackTab));
    assert_eq!(app.context.tab_index, 1);
    app.handle_key_event(shifted(Key::Tab));
    assert_eq!(app.context.tab_index, 0);
    app.handle_key_event(shifted(Key::BackTab));
    assert_eq!(app.context.tab_index, 2);
    for t in 0..3 {
        let mut app = app_at(t, 1);
        app.handle_key_event(press(Key::Tab));
        app.handle_key_event(shifted(Key::Tab));
        assert_eq!(app.context, AppContext { tab_index: t, row_index: 0 });
        app.handle_key_event(press(Key::Tab));
        app.handle_key_event(press(Key::Tab));
        app.handle_key_event(press(Key::Tab));
        assert_eq!(app.context.tab_index, t);
    }
}

#[test]
fn tab_index_out_of_range() {
    let mut app = app_at(7, 2);
    app.handle_key_event(press(Key::Tab));
    assert_eq!(app.context.tab_index, 2);
    let mut app = app_at(7, 2);
    app.handle_key_event(shifted(Key::Tab));
    assert_eq!(app.context.tab_index, 0);
    let mut app = app_at(usize::MAX, 2);
    app.handle_key_event(press(Key::Tab));
    assert_eq!(app.context.tab_index, usize::MAX % 3);
}

#[test]
fn row_keys() {
    let mut app = app_at(0, 0);
    app.handle_key_event(press(Key::Up));
    assert_eq!(app.context.row_index, 0);
    app.handle_key_event(press(Key::Down));
    app.handle_key_event(press(Key::Char('j')));
    assert_eq!(app.context.row_index, 2);
    app.handle_key_event(press(Key::Char('k')));
    assert_eq!(app.context.row_index, 1);
    let mut app = app_at(0, usize::MAX);
    app.handle_key_event(press(Key::Down));
    assert_eq!(app.context.row_index, usize::MAX);
    app.handle_key_event(press(Key::Other));
    assert_eq!(app.context, AppContext { tab_index: 0, row_index: usize::MAX });
    assert!(app.running);
}

#[test]
fn events() {
    let mut app = app_at(0, 1);
    assert_eq!(app.handle_events(AppEvent::Key(press(Key::Down))), AppAction::Nothing);
    assert_eq!(app.context.row_index, 2);
    assert_eq!(
        app.handle_events(AppEvent::Resize(80, 24)),
        AppAction::ResizeTerminal(Area { x: 0, y: 0, width: 80, height: 24 })
    );
    assert_eq!(app.handle_events(AppEvent::Other), AppAction::Nothing);
    assert_eq!(app.context.row_index, 2);
    assert!(app.running);
}

#[test]
fn root_selects_tab() {
    let expected = [SelectedTab::Recipe(4), SelectedTab::Email(4), SelectedTab::Traceroute(4)];
    for t in 0..3 {
        let mut context = AppContext { tab_index: t, row_index: 4 };
        let mut root = Root::new(&mut context);
        assert_eq!(root.select_tab(), expected[t]);
        assert_eq!(context, AppContext { tab_index: t, row_index: 4 });
    }
    let mut context = AppContext { tab_index: 3, row_index: 4 };
    let mut root = Root::new(&mut context);
    assert_eq!(root.select_tab(), SelectedTab::About(4));
    assert_eq!(context, AppContext { tab_index: 0, row_index: 0 });
}

fn tiles(area: Area, vertical: bool, parts: &[Area]) -> bool {
    let (start, size) = if vertical { (area.y as u32, area.height as u32) } else { (area.x as u32, area.width as u32) };
    let mut at = start;
    for p in parts {
        let (s, z, across) = if vertical {
            (p.y as u32, p.height as u32, p.x == area.x && p.width == area.width)
        } else {
            (p.x as u32, p.width as u32, p.y == area.y && p.height == area.height)
        };
        if s != at || !across {
            return false;
        }
        at = s + z;
    }
    parts.is_empty() || at == (start + size).min(u16::MAX as u32)
}

#[test]
fn layout_parts_tile_the_area() {
    let area = Area { x: 3, y: 4, width: 40, height: 1 };
    let parts = layout(area, Direction::Vertical, vec![1, 0, 1]);
    assert_eq!(parts.len(), 3);
    assert!(tiles(area, true, &parts));
    let parts = layout(Area { x: 0, y: 0, width: 7, height: 6 }, Direction::Vertical, vec![5, 5]);
    assert!(tiles(Area { x: 0, y: 0, width: 7, height: 6 }, true, &parts));
    let edge = Area { x: 65530, y: 0, width: 20, height: 2 };
    let parts = layout(edge, Direction::Horizontal, vec![3, 0]);
    assert!(tiles(edge, false, &parts));
}

#[test]
fn layout_splits_screen() {
    let area = Area { x: 0, y: 0, width: 10, height: 10 };
    let parts = layout(area, Direction::Vertical, vec![1, 0, 1]);
    assert_eq!(
        parts,
        vec![
            Area { x: 0, y: 0, width: 10, height: 1 },
            Area { x: 0, y: 1, width: 10, height: 8 },
            Area { x: 0, y: 9, width: 10, height: 1 },
        ]
    );
    let parts = layout(Area { x: 2, y: 3, width: 100, height: 5 }, Direction::Horizontal, vec![0, 48]);
    assert_eq!(
        parts,
        vec![Area { x: 2, y: 3, width: 52, height: 5 }, Area { x: 54, y: 3, width: 48, height: 5 }]
    );
    assert!(layout(area, Direction::Vertical, vec![]).is_empty());
    assert_eq!(
        size_constraints(&vec![3, 0]),
        vec![SizeConstraint::Length(3), SizeConstraint::Min(0)]
    );
}

#[test]
fn traceroute_areas() {
    let tab = TracerouteTab::new(3);
    assert_eq!(tab.selected_row, 3);
    let area = Area { x: 0, y: 0, width: 20, height: 10 };
    assert_eq!(TracerouteTab::content_area(area), Area { x: 2, y: 1, width: 16, height: 8 });
    assert!(tiles(Area { x: 2, y: 1, width: 16, height: 8 }, false, &TracerouteTab::halves(area)));
    assert_eq!(
        TracerouteTab::halves(area),
        vec![Area { x: 2, y: 1, width: 8, height: 8 }, Area { x: 10, y: 1, width: 8, height: 8 }]
    );
    assert_eq!(
        TracerouteTab::content_area(Area { x: 65534, y: 65535, width: 10, height: 10 }),
        Area { x: 65535, y: 65535, width: 6, height: 8 }
    );
    assert_eq!(
        TracerouteTab::content_area(Area { x: 5, y: 5, width: 3, height: 10 }),
        Area { x: 0, y: 0, width: 0, height: 0 }
    );
}

#[test]
fn layout_keeps_positive_heights() {
    let area = Area { x: 1, y: 2, width: 30, height: 12 };
    let parts = layout(area, Direction::Vertical, vec![3, 0, 4, 2]);
    assert!(tiles(area, true, &parts));
    assert_eq!(parts[0].height, 3);
    assert_eq!(parts[1].height, 3);
    assert_eq!(parts[2].height, 4);
    assert_eq!(parts[3].height, 2);
}

#[test]
fn traceroute_halves_of_odd_width() {
    let area = Area { x: 0, y: 0, width: 21, height: 10 };
    let halves = TracerouteTab::halves(area);
    assert_eq!(halves[0].width, 9);
    assert_eq!(halves[1].width, 8);
    assert!(tiles(Area { x: 2, y: 1, width: 17, height: 8 }, false, &halves));
}
