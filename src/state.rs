//! The application's state: the window size and which of the two screens
//! is up, the grid to pick containers or the viewer.
use vstd::prelude::*;

use crate::file_container::FileContainer;
use crate::selector;
use crate::selector::selected_of;
use crate::viewer;
use crate::viewer::{NavError, NavView};

verus! {

pub enum Screen {
    Selector(selector::Screen),
    Viewer(viewer::Screen),
}

pub struct State {
    pub width: u32,
    pub height: u32,
    pub screen: Screen,
}

/// `--select`, which starts in the grid.
pub open spec fn long_select_flag() -> Seq<u8> {
    seq![0x2du8, 0x2du8, 0x73u8, 0x65u8, 0x6cu8, 0x65u8, 0x63u8, 0x74u8]
}

/// `-s`, the short form of `--select`.
pub open spec fn short_select_flag() -> Seq<u8> {
    seq![0x2du8, 0x73u8]
}

/// Whether the first argument asks to start in the grid.
pub fn is_select_flag(arg: &[u8]) -> (r: bool)
    ensures
        r == (arg@ == long_select_flag() || arg@ == short_select_flag()),
{
    let long: [u8; 8] = [0x2d, 0x2d, 0x73, 0x65, 0x6c, 0x65, 0x63, 0x74];
    let short: [u8; 2] = [0x2d, 0x73];
    assert(long@ =~= long_select_flag());
    assert(short@ =~= short_select_flag());
    same_bytes(arg, long.as_slice()) || same_bytes(arg, short.as_slice())
}

fn same_bytes(a: &[u8], b: &[u8]) -> (r: bool)
    ensures
        r == (a@ == b@),
{
    if a.len() != b.len() {
        return false;
    }
    let mut i: usize = 0;
    while i < a.len()
        invariant
            a@.len() == b@.len(),
            i <= a@.len(),
            forall|j: int| 0 <= j < i ==> a@[j] == b@[j],
        decreases a@.len() - i,
    {
        if a[i] != b[i] {
            return false;
        }
        i += 1;
    }
    assert(a@ =~= b@);
    true
}

impl State {
    /// A state showing `screen`, before the window has a size.
    pub fn new(screen: Screen) -> (r: State)
        ensures
            r.width == 0,
            r.height == 0,
            r.screen == screen,
    {
        State { width: 0, height: 0, screen }
    }

    /// Whether a viewer on screen has its position in range.
    pub open spec fn wf(&self) -> bool {
        match self.screen {
            Screen::Viewer(v) => v@.valid(),
            Screen::Selector(_) => true,
        }
    }

    /// Leaves the grid for a viewer over the picked containers, in the
    /// order of the grid, on the first entry of the first of them, whose
    /// table the caller read into `first`. With nothing picked, or an empty
    /// first container, the grid stays up and the error says why. On the
    /// viewer this does nothing.
    pub fn move_to_viewer(&mut self, first: FileContainer) -> (r: Result<(), NavError>)
        ensures
            old(self).screen is Viewer ==> r is Ok && *final(self) == *old(self),
            old(self).screen matches Screen::Selector(s) ==> {
                let picked = selected_of(s.ofcs@);
                &&& picked.len() == 0 ==> r == Err::<(), NavError>(NavError::NoPaths)
                    && *final(self) == *old(self)
                &&& picked.len() > 0 && first@.len() == 0 ==> r == Err::<(), NavError>(
                    NavError::EmptyContainer,
                ) && *final(self) == *old(self)
                &&& picked.len() > 0 && first@.len() > 0 ==> r is Ok
                    && final(self).width == old(self).width
                    && final(self).height == old(self).height
                    && (final(self).screen matches Screen::Viewer(v) && v@ == (NavView {
                    paths: picked,
                    container: 0,
                    entry: 0,
                    offsets: first@,
                    show_progress: false,
                }))
            },
            old(self).wf() ==> final(self).wf(),
    {
        let paths = match &self.screen {
            Screen::Selector(s) => s.selected_paths(),
            Screen::Viewer(_) => return Ok(()),
        };
        let viewer = viewer::Screen::new(paths, first)?;
        self.screen = Screen::Viewer(viewer);
        Ok(())
    }
}

} // verus!
