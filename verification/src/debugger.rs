//! Where a debugger overlay puts its panels on a terminal, and which part of
//! a program its listing shows.

use vstd::prelude::*;

verus! {

/// The most lines that the listing of a program shows at once.
pub const LISTING_ROWS: u16 = 30;

/// The places of the panels, each a column and a row of the terminal.
#[derive(Debug, Clone, Copy)]
pub struct DebugLocations {
    pub reg_locations: (usize, usize),
    pub code_locations: (usize, usize),
    pub large_reg_location: (usize, usize),
    pub stack_location: (usize, usize),
    pub clock_location: (usize, usize),
}

/// A debugger overlay.
pub struct Debugger {
    locations: DebugLocations,
}

impl View for Debugger {
    type V = DebugLocations;

    closed spec fn view(&self) -> DebugLocations {
        self.locations
    }
}

/// The number of lines of the listing of a program of `length` instructions:
/// all of them, up to `LISTING_ROWS`.
pub open spec fn listing_rows(length: int) -> int {
    if length < 30 {
        length
    } else {
        30
    }
}

/// The first instruction of the page of the listing that shows instruction
/// `pc`: pages start at the multiples of the number of lines.
pub open spec fn page_start(length: int, pc: int) -> int {
    pc - pc % listing_rows(length)
}

/// The number of lines of the page from `start` on that hold an
/// instruction: those whose index lies within the program.
pub open spec fn lines_shown(length: int, start: int) -> int {
    if start >= length {
        0
    } else if length - start >= listing_rows(length) {
        listing_rows(length)
    } else {
        length - start
    }
}

impl Debugger {
    /// An overlay with its panels at `locations`.
    pub fn new(locations: DebugLocations) -> (debugger: Self)
        ensures
            debugger@ == locations,
    {
        Self { locations }
    }

    /// The places of the panels.
    pub fn locations(&self) -> (locations: DebugLocations)
        ensures
            locations == self@,
    {
        self.locations
    }

    /// The page of the listing that shows instruction `pc` of a program of
    /// `length` instructions: the index of its first line and the number of
    /// its lines that hold an instruction. `None` for an empty program,
    /// which has no listing. The page holds no line where `pc` lies behind
    /// the program by a page or more.
    pub fn code_window(length: usize, pc: u16) -> (window: Option<(u16, u16)>)
        requires
            length <= u16::MAX,
        ensures
            length == 0 <==> window is None,
            window matches Some((start, shown)) ==> {
                &&& start == page_start(length as int, pc as int)
                &&& start <= pc < start + listing_rows(length as int)
                &&& shown == lines_shown(length as int, start as int)
            },
    {
        if length == 0 {
            return None;
        }
        let list_len: u16 = if 30 > length {
            length as u16
        } else {
            30
        };
        let within: u16 = pc % list_len;
        assert(within <= pc && within < list_len) by (nonlinear_arith)
            requires
                within == pc % list_len,
                list_len > 0,
        ;
        let disp_start: u16 = pc - within;
        let shown: u16 = if disp_start as usize >= length {
            0
        } else if length - disp_start as usize >= list_len as usize {
            list_len
        } else {
            (length - disp_start as usize) as u16
        };
        Some((disp_start, shown))
    }
}

} // verus!
