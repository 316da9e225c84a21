//! The boards the framework knows, as the command line tool lists them.

use vstd::prelude::*;
use crate::text::str_eq;

verus! {

/// One supported board: the name a user selects it by, the cargo feature
/// that wires it into the application, the probe's chip name, and the
/// compilation target.
#[derive(Clone, Copy, Debug)]
pub struct BoardSpec {
    pub name: &'static str,
    pub feature: &'static str,
    pub chip: &'static str,
    pub target: &'static str,
}

/// A board entry taken as character sequences.
pub struct BoardView {
    pub name: Seq<char>,
    pub feature: Seq<char>,
    pub chip: Seq<char>,
    pub target: Seq<char>,
}

impl View for BoardSpec {
    type V = BoardView;

    open spec fn view(&self) -> BoardView {
        BoardView {
            name: self.name@,
            feature: self.feature@,
            chip: self.chip@,
            target: self.target@,
        }
    }
}

/// The board table, in the order in which the tool lists it.
pub open spec fn board_table() -> Seq<BoardView> {
    seq![
        BoardView {
            name: "microbit"@,
            feature: "ferrino/board+microbit"@,
            chip: "nRF52833_xxAA"@,
            target: "thumbv7em-none-eabihf"@,
        },
        BoardView {
            name: "rpi-pico"@,
            feature: "ferrino/board+rpi-pico"@,
            chip: "RP2040"@,
            target: "thumbv6m-none-eabi"@,
        },
        BoardView {
            name: "rpi-pico-w"@,
            feature: "ferrino/board+rpi-pico-w"@,
            chip: "RP2040"@,
            target: "thumbv6m-none-eabi"@,
        },
    ]
}

/// The entry of `table` whose name is `name`; where several carry that
/// name, the last of them.
pub open spec fn lookup_board(table: Seq<BoardView>, name: Seq<char>) -> Option<BoardView>
    decreases table.len(),
{
    if table.len() == 0 {
        None
    } else if table.last().name == name {
        Some(table.last())
    } else {
        lookup_board(table.drop_last(), name)
    }
}

/// The names of the entries of `table`, in order.
pub open spec fn board_names(table: Seq<BoardView>) -> Seq<Seq<char>> {
    table.map_values(|b: BoardView| b.name)
}

/// The supported boards, in listing order.
pub fn boards() -> (v: Vec<BoardSpec>)
    ensures
        v@.map_values(|b: BoardSpec| b@) == board_table(),
{
    let mut v: Vec<BoardSpec> = Vec::new();
    v.push(BoardSpec {
        name: "microbit",
        feature: "ferrino/board+microbit",
        chip: "nRF52833_xxAA",
        target: "thumbv7em-none-eabihf",
    });
    v.push(BoardSpec {
        name: "rpi-pico",
        feature: "ferrino/board+rpi-pico",
        chip: "RP2040",
        target: "thumbv6m-none-eabi",
    });
    v.push(BoardSpec {
        name: "rpi-pico-w",
        feature: "ferrino/board+rpi-pico-w",
        chip: "RP2040",
        target: "thumbv6m-none-eabi",
    });
    assert(v@.map_values(|b: BoardSpec| b@) =~= board_table());
    v
}

/// Looks a board up by name, going through the table from first to last
/// and keeping the last entry whose name matches.
pub fn find_board(name: &str) -> (r: Option<BoardSpec>)
    ensures
        match r {
            Some(b) => lookup_board(board_table(), name@) == Some(b@),
            None => lookup_board(board_table(), name@) is None,
        },
{
    let table: Vec<BoardSpec> = boards();
    let ghost views = table@.map_values(|b: BoardSpec| b@);
    let mut found: Option<BoardSpec> = None;
    let mut i: usize = 0;
    while i < table.len()
        invariant
            views == table@.map_values(|b: BoardSpec| b@),
            views == board_table(),
            i <= table.len(),
            match found {
                Some(b) => lookup_board(views.take(i as int), name@) == Some(b@),
                None => lookup_board(views.take(i as int), name@) is None,
            },
        decreases table.len() - i,
    {
        let b: BoardSpec = table[i];
        assert(views.take(i + 1).drop_last() =~= views.take(i as int));
        assert(views.take(i + 1).last() == b@);
        if str_eq(b.name, name) {
            found = Some(b);
        }
        i = i + 1;
    }
    assert(views.take(table.len() as int) =~= views);
    found
}

} // verus!
