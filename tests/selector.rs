use ofc_viewer::file_container::FileContainer;
use ofc_viewer::selector::{cell_at, cell_rect, Screen};
use ofc_viewer::state::{is_select_flag, Screen as Mode, State};
use ofc_viewer::viewer::NavError;

fn grid(n: usize) -> Screen {
    Screen::new((0..n).map(|i| format!("p{i}")).collect())
}

fn one_entry() -> FileContainer {
    let mut data = b"ofc\0".to_vec();
    data.extend_from_slice(&1u32.to_le_bytes());
    data.extend_from_slice(&1u64.to_le_bytes());
    data.push(7);
    FileContainer::open(&data).unwrap()
}

#[test]
fn pages_clamp_at_both_ends() {
    let mut s = grid(13);
    assert_eq!(Screen::page_size(), 12);
    assert_eq!(s.page_count(), 2);
    assert_eq!(s.current_page().len(), 12);
    s.previous_page();
    assert_eq!(s.page_index, 0);
    s.next_page();
    assert_eq!(s.page_index, 1);
    assert_eq!(s.current_page().len(), 1);
    assert_eq!(s.current_page()[0].path, "p12");
    s.next_page();
    assert_eq!(s.page_index, 1);
}

#[test]
fn empty_grid_stays_on_first_page() {
    let mut s = grid(0);
    assert_eq!(s.page_count(), 0);
    s.next_page();
    assert_eq!(s.page_index, 0);
    assert_eq!(s.current_page().len(), 0);
    assert_eq!(grid(12).page_count(), 1);
    assert_eq!(grid(24).page_count(), 2);
    assert_eq!(grid(25).page_count(), 3);
}

#[test]
fn click_maps_to_cell() {
    assert_eq!(cell_at(150, 120, 400, 300), Some((1, 1)));
    assert_eq!(cell_at(399, 299, 400, 300), Some((3, 2)));
    assert_eq!(cell_at(10, 10, 0, 300), None);
    let mut s = grid(13);
    s.on_click(150, 120, 400, 300);
    let picked: Vec<usize> = (0..13).filter(|&i| s.ofcs[i].selected).collect();
    assert_eq!(picked, vec![5]);
    s.on_click(150, 120, 400, 300);
    assert!(s.ofcs.iter().all(|o| !o.selected));
}

#[test]
fn click_on_later_page_and_past_the_end() {
    let mut s = grid(13);
    s.next_page();
    s.on_click(10, 10, 400, 300);
    assert!(s.ofcs[12].selected);
    s.on_click(150, 10, 400, 300);
    assert_eq!(s.ofcs.iter().filter(|o| o.selected).count(), 1);
    s.on_click(150, 10, 400, 0);
    assert_eq!(s.ofcs.iter().filter(|o| o.selected).count(), 1);
}

fn click_index(s: &mut Screen, i: usize) {
    // centre of cell i on a 400 by 300 view
    let col = (i % 4) as u32;
    let row = (i / 4) as u32;
    s.on_click(col * 100 + 50, row * 100 + 50, 400, 300);
}

#[test]
fn selection_keeps_grid_order() {
    let mut s = grid(13);
    for i in [5, 1, 9] {
        click_index(&mut s, i);
    }
    assert_eq!(s.selected_paths(), vec!["p1", "p5", "p9"]);
    let mut state = State::new(Mode::Selector(s));
    assert_eq!((state.width, state.height), (0, 0));
    state.move_to_viewer(one_entry()).unwrap();
    let Mode::Viewer(v) = &state.screen else {
        panic!("still in the grid");
    };
    let paths: Vec<&str> = (0..v.path_count()).map(|i| v.path(i).as_str()).collect();
    assert_eq!(paths, vec!["p1", "p5", "p9"]);
    assert_eq!((v.container_index(), v.entry_index()), (0, 0));
}

#[test]
fn empty_selection_is_refused() {
    let mut state = State::new(Mode::Selector(grid(3)));
    assert_eq!(state.move_to_viewer(one_entry()), Err(NavError::NoPaths));
    assert!(matches!(state.screen, Mode::Selector(_)));
}

#[test]
fn cells_tile_the_screen() {
    let r = cell_rect(5, 400, 300);
    assert_eq!((r.x, r.y, r.width, r.height), (100, 100, 100, 100));
    let r = cell_rect(11, 1001, 302);
    assert_eq!((r.x, r.y, r.width, r.height), (750, 200, 250, 100));
}

#[test]
fn select_flags() {
    assert!(is_select_flag(b"--select"));
    assert!(is_select_flag(b"-s"));
    assert!(!is_select_flag(b"-S"));
    assert!(!is_select_flag(b"--selects"));
    assert!(!is_select_flag(b""));
}
