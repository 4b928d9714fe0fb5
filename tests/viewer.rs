use ofc_viewer::file_container::{ContainerError, FileContainer};
use ofc_viewer::viewer::{Arrival, NavError, OpenRequest, Screen, Step};

fn build(entries: &[&[u8]]) -> Vec<u8> {
    let mut out = b"ofc\0".to_vec();
    out.extend_from_slice(&(entries.len() as u32).to_le_bytes());
    let mut end = 0u64;
    for e in entries {
        end += e.len() as u64;
        out.extend_from_slice(&end.to_le_bytes());
    }
    for e in entries {
        out.extend_from_slice(e);
    }
    out
}

struct Files {
    data: Vec<Vec<u8>>,
}

impl Files {
    fn two() -> Files {
        Files {
            data: vec![build(&[b"a0", b"a1", b"a2"]), build(&[b"b0", b"b1"])],
        }
    }

    fn open(&self, i: usize) -> FileContainer {
        FileContainer::open(&self.data[i]).unwrap()
    }

    fn screen(&self) -> Screen {
        let paths = (0..self.data.len()).map(|i| format!("file{i}")).collect();
        Screen::new(paths, self.open(0)).unwrap()
    }

    fn follow(&self, s: &mut Screen, step: Step) {
        if let Step::Open(req) = step {
            s.enter_container(req, self.open(req.container)).unwrap();
        }
    }
}

fn at(s: &Screen) -> (usize, usize) {
    (s.container_index(), s.entry_index())
}

#[test]
fn next_image_walks_both_containers() {
    let files = Files::two();
    let mut s = files.screen();
    assert_eq!(at(&s), (0, 0));
    let mut seen = Vec::new();
    for _ in 0..4 {
        let step = s.next_image();
        files.follow(&mut s, step);
        seen.push(at(&s));
    }
    assert_eq!(seen, vec![(0, 1), (0, 2), (1, 0), (1, 1)]);
    assert_eq!(s.next_image(), Step::Stayed);
    assert_eq!(at(&s), (1, 1));
}

#[test]
fn previous_image_walks_back() {
    let files = Files::two();
    let mut s = files.screen();
    s.enter_container(OpenRequest { container: 1, arrival: Arrival::Last }, files.open(1))
        .unwrap();
    assert_eq!(at(&s), (1, 1));
    let mut seen = Vec::new();
    for _ in 0..4 {
        let step = s.previous_image();
        files.follow(&mut s, step);
        seen.push(at(&s));
    }
    assert_eq!(seen, vec![(1, 0), (0, 2), (0, 1), (0, 0)]);
    assert_eq!(s.previous_image(), Step::Stayed);
    assert_eq!(at(&s), (0, 0));
}

#[test]
fn crossing_back_asks_for_last_entry() {
    let files = Files::two();
    let mut s = files.screen();
    s.enter_container(OpenRequest { container: 1, arrival: Arrival::First }, files.open(1))
        .unwrap();
    assert_eq!(
        s.previous_image(),
        Step::Open(OpenRequest { container: 0, arrival: Arrival::Last })
    );
    // nothing moves until the container is handed in
    assert_eq!(at(&s), (1, 0));
}

#[test]
fn file_jumps_go_the_way_the_list_is_walked() {
    let files = Files::two();
    let s = files.screen();
    assert_eq!(s.next_file(), Step::Stayed);
    assert_eq!(
        s.previous_file(),
        Step::Open(OpenRequest { container: 1, arrival: Arrival::First })
    );
    let mut s = files.screen();
    let step = s.previous_file();
    files.follow(&mut s, step);
    assert_eq!(at(&s), (1, 0));
    assert_eq!(s.previous_file(), Step::Stayed);
    assert_eq!(
        s.next_file(),
        Step::Open(OpenRequest { container: 0, arrival: Arrival::First })
    );
}

#[test]
fn failed_entry_keeps_position() {
    let files = Files::two();
    let mut s = files.screen();
    s.next_image();
    let empty = FileContainer::open(&build(&[])).unwrap();
    let r = s.enter_container(OpenRequest { container: 1, arrival: Arrival::First }, empty);
    assert_eq!(r, Err(NavError::EmptyContainer));
    assert_eq!(at(&s), (0, 1));
    assert_eq!(s.file().len(), 3);
}

#[test]
fn new_needs_paths_and_entries() {
    let files = Files::two();
    assert_eq!(Screen::new(Vec::new(), files.open(0)).err(), Some(NavError::NoPaths));
    let empty = FileContainer::open(&build(&[])).unwrap();
    assert_eq!(
        Screen::new(vec!["x".to_string()], empty).err(),
        Some(NavError::EmptyContainer)
    );
    let s = files.screen();
    assert_eq!(s.path_count(), 2);
    assert_eq!(s.path(1), "file1");
    assert!(!s.show_progress());
}

#[test]
fn current_image_bytes_follow_position() {
    let files = Files::two();
    let mut s = files.screen();
    assert_eq!(s.current_image_bytes(&files.data[0]).unwrap(), b"a0".to_vec());
    s.next_image();
    assert_eq!(s.current_image_bytes(&files.data[0]).unwrap(), b"a1".to_vec());
    let span = s.current_span().unwrap();
    assert_eq!((span.start, span.len), (8 + 24 + 2, 2));
    assert_eq!(
        s.current_image_bytes(&files.data[0][..30]).err(),
        Some(ContainerError::ShortRead)
    );
}

#[test]
fn toggle_progress_flips() {
    let files = Files::two();
    let mut s = files.screen();
    s.toggle_progress_display();
    assert!(s.show_progress());
    s.toggle_progress_display();
    assert!(!s.show_progress());
}
