//! The linear viewer: a two-level position over a list of containers and
//! the entries of the one that is open.
//!
//! Opening a container is work for the caller. A move that crosses into
//! another container leaves the position as it is and returns an
//! [`OpenRequest`]; the caller opens that container and hands its table to
//! [`Screen::enter_container`]. A failed open thus never leaves the position
//! half changed.
use vstd::prelude::*;

use crate::file_container::{entry_ordered, entry_of, entry_start, header_len, payload_of};
use crate::file_container::{ContainerError, FileContainer, Span};

verus! {

/// Why the viewer could not be set up or moved.
#[derive(Debug, Clone, Copy, PartialEq, Eq, Structural)]
pub enum NavError {
    /// There is no container to show.
    NoPaths,
    /// The container holds no entry, so no position lies in it.
    EmptyContainer,
}

/// Which entry to show when a container is entered.
#[derive(Debug, Clone, Copy, PartialEq, Eq, Structural)]
pub enum Arrival {
    First,
    Last,
}

/// A container that a move needs opened, and where to land in it.
#[derive(Debug, Clone, Copy, PartialEq, Eq, Structural)]
pub struct OpenRequest {
    pub container: usize,
    pub arrival: Arrival,
}

/// The outcome of a move.
#[derive(Debug, Clone, Copy, PartialEq, Eq, Structural)]
pub enum Step {
    /// The position moved within the open container.
    Moved,
    /// The position is at the end in that direction; nothing changed.
    Stayed,
    /// The move goes on in another container, which the caller must open.
    Open(OpenRequest),
}

/// The list of containers and the position in it.
pub struct Paths {
    data: Vec<String>,
    /// The index into `data` of the container on display.
    index: usize,
}

/// The open container and the position in it.
pub struct CurrentFile {
    file: FileContainer,
    /// The index of the entry on display.
    index: usize,
}

pub struct Screen {
    show_progress: bool,
    paths: Paths,
    current_file: CurrentFile,
}

/// What a viewer is: its containers, the position, the open container's
/// offsets table and whether progress is shown.
pub struct NavView {
    pub paths: Seq<String>,
    pub container: nat,
    pub entry: nat,
    pub offsets: Seq<u64>,
    pub show_progress: bool,
}

impl NavView {
    /// The position lies in the list and in the open container.
    pub open spec fn valid(self) -> bool {
        self.paths.len() > 0 && self.container < self.paths.len() && self.entry
            < self.offsets.len()
    }
}

impl View for Screen {
    type V = NavView;

    closed spec fn view(&self) -> NavView {
        NavView {
            paths: self.paths.data@,
            container: self.paths.index as nat,
            entry: self.current_file.index as nat,
            offsets: self.current_file.file@,
            show_progress: self.show_progress,
        }
    }
}

impl Screen {
    /// A viewer on the first entry of the first of `paths`, whose table is
    /// `first`.
    pub fn new(paths: Vec<String>, first: FileContainer) -> (r: Result<Screen, NavError>)
        ensures
            paths@.len() == 0 ==> r == Err::<Screen, NavError>(NavError::NoPaths),
            paths@.len() > 0 && first@.len() == 0 ==> r == Err::<Screen, NavError>(
                NavError::EmptyContainer,
            ),
            paths@.len() > 0 && first@.len() > 0 ==> r is Ok,
            r matches Ok(s) ==> s@ == (NavView {
                paths: paths@,
                container: 0,
                entry: 0,
                offsets: first@,
                show_progress: false,
            }),
    {
        if paths.len() == 0 {
            return Err(NavError::NoPaths);
        }
        if first.len() == 0 {
            return Err(NavError::EmptyContainer);
        }
        Ok(Screen {
            show_progress: false,
            paths: Paths { data: paths, index: 0 },
            current_file: CurrentFile { file: first, index: 0 },
        })
    }

    /// The path of container `i`.
    pub fn path(&self, i: usize) -> (r: &String)
        requires
            i < self@.paths.len(),
        ensures
            *r == self@.paths[i as int],
    {
        &self.paths.data[i]
    }

    /// The number of containers.
    pub fn path_count(&self) -> (r: usize)
        ensures
            r == self@.paths.len(),
    {
        self.paths.data.len()
    }

    /// The index of the container on display.
    pub fn container_index(&self) -> (r: usize)
        ensures
            r == self@.container,
    {
        self.paths.index
    }

    /// The index of the entry on display within its container.
    pub fn entry_index(&self) -> (r: usize)
        ensures
            r == self@.entry,
    {
        self.current_file.index
    }

    /// The offsets table of the open container.
    pub fn file(&self) -> (r: &FileContainer)
        ensures
            r@ == self@.offsets,
    {
        &self.current_file.file
    }

    /// Whether the progress markers are shown.
    pub fn show_progress(&self) -> (r: bool)
        ensures
            r == self@.show_progress,
    {
        self.show_progress
    }

    /// Where the entry on display lies in its container file; `None` where
    /// the table is corrupt there.
    pub fn current_span(&self) -> (r: Option<Span>)
        requires
            self@.valid(),
        ensures
            r is Some <==> entry_ordered(self@.offsets, self@.entry as int) && header_len(
                self@.offsets.len(),
            ) + self@.offsets[self@.entry as int] <= u64::MAX,
            r matches Some(s) ==> s.start == header_len(self@.offsets.len()) + entry_start(
                self@.offsets,
                self@.entry as int,
            ) && s.len == self@.offsets[self@.entry as int] - entry_start(
                self@.offsets,
                self@.entry as int,
            ),
    {
        self.current_file.file.entry_span(self.current_file.index)
    }

    /// The bytes of the entry on display, taken from `data`, the whole file
    /// of the open container.
    pub fn current_image_bytes(&self, data: &[u8]) -> (r: Result<Vec<u8>, ContainerError>)
        requires
            self@.valid(),
        ensures
            !entry_ordered(self@.offsets, self@.entry as int) ==> r == Err::<
                Vec<u8>,
                ContainerError,
            >(ContainerError::CorruptTable),
            entry_ordered(self@.offsets, self@.entry as int) && header_len(self@.offsets.len())
                + self@.offsets[self@.entry as int] > data@.len() ==> r == Err::<
                Vec<u8>,
                ContainerError,
            >(ContainerError::ShortRead),
            entry_ordered(self@.offsets, self@.entry as int) && header_len(self@.offsets.len())
                + self@.offsets[self@.entry as int] <= data@.len() ==> (r matches Ok(v) && v@
                == entry_of(
                self@.offsets,
                payload_of(data@, self@.offsets.len()),
                self@.entry as int,
            )),
    {
        self.current_file.file.read_at(data, self.current_file.index)
    }

    /// Moves one entry forward: within the open container, or to the first
    /// entry of the next container, or nowhere at the very end.
    pub fn next_image(&mut self) -> (r: Step)
        requires
            old(self)@.valid(),
        ensures
            old(self)@.entry + 1 < old(self)@.offsets.len() ==> r == Step::Moved && final(self)@
                == (NavView { entry: old(self)@.entry + 1, ..old(self)@ }),
            old(self)@.entry + 1 == old(self)@.offsets.len() && old(self)@.container + 1
                < old(self)@.paths.len() ==> r == Step::Open(
                OpenRequest { container: (old(self)@.container + 1) as usize, arrival: Arrival::First },
            ) && final(self)@ == old(self)@,
            old(self)@.entry + 1 == old(self)@.offsets.len() && old(self)@.container + 1
                == old(self)@.paths.len() ==> r == Step::Stayed && final(self)@ == old(self)@,
            final(self)@.valid(),
    {
        if self.current_file.index == self.current_file.file.len() - 1 {
            if self.paths.index == self.paths.data.len() - 1 {
                return Step::Stayed;
            }
            Step::Open(OpenRequest { container: self.paths.index + 1, arrival: Arrival::First })
        } else {
            self.current_file.index += 1;
            Step::Moved
        }
    }

    /// Moves one entry back: within the open container, or to the last entry
    /// of the previous container, or nowhere at the very start.
    pub fn previous_image(&mut self) -> (r: Step)
        requires
            old(self)@.valid(),
        ensures
            old(self)@.entry > 0 ==> r == Step::Moved && final(self)@ == (NavView {
                entry: (old(self)@.entry - 1) as nat,
                ..old(self)@
            }),
            old(self)@.entry == 0 && old(self)@.container > 0 ==> r == Step::Open(
                OpenRequest { container: (old(self)@.container - 1) as usize, arrival: Arrival::Last },
            ) && final(self)@ == old(self)@,
            old(self)@.entry == 0 && old(self)@.container == 0 ==> r == Step::Stayed
                && final(self)@ == old(self)@,
            final(self)@.valid(),
    {
        if self.current_file.index == 0 {
            if self.paths.index == 0 {
                return Step::Stayed;
            }
            Step::Open(OpenRequest { container: self.paths.index - 1, arrival: Arrival::Last })
        } else {
            self.current_file.index -= 1;
            Step::Moved
        }
    }

    /// Jumps to the first entry of the container before the open one in the
    /// list (the key that goes "next" walks the list backwards), or nowhere
    /// at the start of the list.
    pub fn next_file(&self) -> (r: Step)
        requires
            self@.valid(),
        ensures
            self@.container > 0 ==> r == Step::Open(
                OpenRequest { container: (self@.container - 1) as usize, arrival: Arrival::First },
            ),
            self@.container == 0 ==> r == Step::Stayed,
    {
        if self.paths.index == 0 {
            return Step::Stayed;
        }
        Step::Open(OpenRequest { container: self.paths.index - 1, arrival: Arrival::First })
    }

    /// Jumps to the first entry of the container after the open one in the
    /// list, or nowhere at the end of the list.
    pub fn previous_file(&self) -> (r: Step)
        requires
            self@.valid(),
        ensures
            self@.container + 1 < self@.paths.len() ==> r == Step::Open(
                OpenRequest { container: (self@.container + 1) as usize, arrival: Arrival::First },
            ),
            self@.container + 1 == self@.paths.len() ==> r == Step::Stayed,
    {
        if self.paths.index == self.paths.data.len() - 1 {
            return Step::Stayed;
        }
        Step::Open(OpenRequest { container: self.paths.index + 1, arrival: Arrival::First })
    }

    /// Completes a move into container `req.container`, whose table the
    /// caller read into `file`. An empty container is refused and the
    /// position stays as it was.
    pub fn enter_container(&mut self, req: OpenRequest, file: FileContainer) -> (r: Result<
        (),
        NavError,
    >)
        requires
            old(self)@.valid(),
            req.container < old(self)@.paths.len(),
        ensures
            file@.len() == 0 ==> r == Err::<(), NavError>(NavError::EmptyContainer)
                && final(self)@ == old(self)@,
            file@.len() > 0 ==> r is Ok && final(self)@ == (NavView {
                container: req.container as nat,
                entry: if req.arrival == Arrival::First {
                    0
                } else {
                    (file@.len() - 1) as nat
                },
                offsets: file@,
                ..old(self)@
            }),
            final(self)@.valid(),
    {
        let len = file.len();
        if len == 0 {
            return Err(NavError::EmptyContainer);
        }
        let entry = match req.arrival {
            Arrival::First => 0,
            Arrival::Last => len - 1,
        };
        self.paths.index = req.container;
        self.current_file = CurrentFile { file, index: entry };
        Ok(())
    }

    /// Shows the progress markers if they were hidden, and hides them if
    /// they were shown.
    pub fn toggle_progress_display(&mut self)
        ensures
            final(self)@ == (NavView { show_progress: !old(self)@.show_progress, ..old(self)@ }),
    {
        self.show_progress = !self.show_progress;
    }
}

} // verus!
