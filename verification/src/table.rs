//! The table in which a tree is shown: how wide its columns are, where they
//! begin, where a value is written, and what the keys mean.

use vstd::prelude::*;
use crate::board::{Outcome, Player};
use crate::tree_view::COL_SPACING;

verus! {

/// A rectangle of the screen.
#[derive(Clone, Copy, Debug, PartialEq, Eq, Structural)]
pub struct Area {
    pub x: u16,
    pub y: u16,
    pub width: u16,
    pub height: u16,
}

impl Area {
    /// The column after the last one, or the last column there is.
    pub open spec fn right_spec(self) -> int {
        if self.x + self.width > u16::MAX {
            u16::MAX as int
        } else {
            self.x + self.width
        }
    }

    /// The row after the last one, or the last row there is.
    pub open spec fn bottom_spec(self) -> int {
        if self.y + self.height > u16::MAX {
            u16::MAX as int
        } else {
            self.y + self.height
        }
    }

    /// Whether the cell in column `x` and row `y` lies in the rectangle.
    pub open spec fn contains_spec(self, x: u16, y: u16) -> bool {
        self.x <= x < self.right_spec() && self.y <= y < self.bottom_spec()
    }

    /// Whether the cell in column `x` and row `y` lies in the rectangle.
    /// Text is written only where this holds of its first cell.
    pub fn contains(self, x: u16, y: u16) -> (r: bool)
        ensures
            r == self.contains_spec(x, y),
    {
        let right = self.x.saturating_add(self.width);
        let bottom = self.y.saturating_add(self.height);
        self.x <= x && x < right && self.y <= y && y < bottom
    }
}

/// The greater of two widths.
pub open spec fn wider(a: int, b: int) -> int {
    if a >= b {
        a
    } else {
        b
    }
}

/// The greatest width in column `col` of `rows`, zero if there is no row.
pub open spec fn widest_in(rows: Seq<Vec<u16>>, col: int) -> int
    decreases rows.len(),
{
    if rows.len() == 0 {
        0
    } else {
        wider(widest_in(rows.drop_last(), col), rows.last()@[col] as int)
    }
}

/// The width of column `col`: the greatest of the width it has at least,
/// the widths of its two headers and the widths of its values.
pub open spec fn column_size(
    least: Seq<u16>,
    headers: Seq<(u16, u16)>,
    rows: Seq<Vec<u16>>,
    col: int,
) -> int {
    wider(
        wider(least[col] as int, wider(headers[col].0 as int, headers[col].1 as int)),
        widest_in(rows, col),
    )
}

/// Where column `col` begins when the first begins at `x`: after all
/// columns before it, each followed by the spacing.
pub open spec fn column_start(x: int, sizes: Seq<u16>, col: int) -> int
    decreases col,
{
    if col <= 0 {
        x
    } else {
        column_start(x, sizes, col - 1) + sizes[col - 1] + COL_SPACING
    }
}

/// Every row has one value for each header.
pub open spec fn rows_match(headers: Seq<(u16, u16)>, rows: Seq<Vec<u16>>) -> bool {
    forall|r: int| 0 <= r < rows.len() ==> (#[trigger] rows[r])@.len() == headers.len()
}

/// The widths of the columns of a table: one for each header, then an empty
/// column.
pub open spec fn table_sizes(least: Seq<u16>, headers: Seq<(u16, u16)>, rows: Seq<Vec<u16>>) -> Seq<
    u16,
> {
    Seq::new(
        headers.len() + 1,
        |i: int|
            if i < headers.len() {
                column_size(least, headers, rows, i) as u16
            } else {
                0u16
            },
    )
}

/// The columns in which the columns of a table begin.
pub open spec fn table_starts(
    x: u16,
    least: Seq<u16>,
    headers: Seq<(u16, u16)>,
    rows: Seq<Vec<u16>>,
) -> Seq<u16> {
    Seq::new(
        headers.len() + 1,
        |i: int| column_start(x as int, table_sizes(least, headers, rows), i) as u16,
    )
}

/// The column after the table: where a column after the last would begin.
pub open spec fn table_end(x: u16, least: Seq<u16>, headers: Seq<(u16, u16)>, rows: Seq<Vec<u16>>) -> int {
    column_start(x as int, table_sizes(least, headers, rows), headers.len() as int + 1)
}

/// The widths and the first columns of the columns of a table.
#[derive(Debug, PartialEq, Eq)]
pub struct Columns {
    pub sizes: Vec<u16>,
    pub starts: Vec<u16>,
}

/// The widths of a table and where its columns begin, for a table at column
/// `x` with the given least widths, header widths and value widths.
///
/// There is one column more than there are headers; the last one is empty.
/// `None` if the least widths are not one for each header, if a row has not
/// one value for each header, or if the table ends beyond the last column a
/// screen can have.
pub fn compute_col_starts(
    x: u16,
    least: &Vec<u16>,
    headers: &Vec<(u16, u16)>,
    rows: &Vec<Vec<u16>>,
) -> (r: Option<Columns>)
    ensures
        r.is_some() <==> {
            &&& least@.len() == headers@.len()
            &&& rows_match(headers@, rows@)
            &&& table_end(x, least@, headers@, rows@) <= u16::MAX
        },
        r matches Some(c) ==> {
            &&& c.sizes@ == table_sizes(least@, headers@, rows@)
            &&& c.starts@ == table_starts(x, least@, headers@, rows@)
        },
{
    let n = headers.len();
    if least.len() != n {
        return None;
    }
    let mut r: usize = 0;
    while r < rows.len()
        invariant
            r <= rows@.len(),
            n == headers@.len(),
            forall|k: int| 0 <= k < r ==> (#[trigger] rows@[k])@.len() == n,
        decreases rows@.len() - r,
    {
        if rows[r].len() != n {
            return None;
        }
        r = r + 1;
    }
    let mut sizes: Vec<u16> = Vec::new();
    let mut col: usize = 0;
    while col < n
        invariant
            col <= n,
            n == headers@.len(),
            n == least@.len(),
            rows_match(headers@, rows@),
            sizes@.len() == col,
            forall|i: int|
                0 <= i < col ==> (#[trigger] sizes@[i]) == column_size(least@, headers@, rows@, i),
        decreases n - col,
    {
        let mut size: u16 = least[col];
        if headers[col].0 > size {
            size = headers[col].0;
        }
        if headers[col].1 > size {
            size = headers[col].1;
        }
        let ghost top = wider(
            least@[col as int] as int,
            wider(headers@[col as int].0 as int, headers@[col as int].1 as int),
        );
        let mut k: usize = 0;
        while k < rows.len()
            invariant
                k <= rows@.len(),
                col < n,
                n == headers@.len(),
                rows_match(headers@, rows@),
                size == wider(top, widest_in(rows@.take(k as int), col as int)),
            decreases rows@.len() - k,
        {
            assert(rows@.take(k + 1).drop_last() =~= rows@.take(k as int));
            assert(rows@.take(k + 1).last() == rows@[k as int]);
            let row = &rows[k];
            if row[col] > size {
                size = row[col];
            }
            k = k + 1;
        }
        assert(rows@.take(k as int) =~= rows@);
        sizes.push(size);
        col = col + 1;
    }
    sizes.push(0);
    assert(sizes@ =~= table_sizes(least@, headers@, rows@));
    let total = sizes.len();
    let mut starts: Vec<u16> = Vec::new();
    let mut at: u16 = x;
    let mut i: usize = 0;
    while i < total
        invariant
            i <= n + 1,
            total == n + 1,
            n == headers@.len(),
            sizes@.len() == n + 1,
            sizes@ == table_sizes(least@, headers@, rows@),
            starts@.len() == i,
            at == column_start(x as int, sizes@, i as int),
            forall|j: int|
                0 <= j < i ==> (#[trigger] starts@[j]) == column_start(x as int, sizes@, j),
        decreases n + 1 - i,
    {
        starts.push(at);
        let step = match sizes[i].checked_add(COL_SPACING) {
            Some(s) => s,
            None => {
                proof {
                    lemma_column_start_grows(x as int, sizes@, i + 1, n + 1);
                }
                return None;
            },
        };
        at = match at.checked_add(step) {
            Some(a) => a,
            None => {
                proof {
                    lemma_column_start_grows(x as int, sizes@, i + 1, n + 1);
                }
                return None;
            },
        };
        i = i + 1;
    }
    assert(starts@ =~= table_starts(x, least@, headers@, rows@));
    Some(Columns { sizes, starts })
}

/// Columns begin further right the later they come.
pub proof fn lemma_column_start_grows(x: int, sizes: Seq<u16>, a: int, b: int)
    requires
        0 <= a <= b,
    ensures
        column_start(x, sizes, a) <= column_start(x, sizes, b),
    decreases b - a,
{
    if a < b {
        lemma_column_start_grows(x, sizes, a, b - 1);
    }
}

/// The column in which a value of `width` cells begins in a table column
/// that begins at `start` and is `size` cells wide: at the start, or, if the
/// value is set to the right, so that it ends with the table column. `None`
/// for a value that is wider than its table column and set to the right.
pub fn justified_x(start: u16, size: u16, width: u16, right: bool) -> (r: Option<u16>)
    ensures
        r == (if !right {
            Some(start)
        } else if width <= size && start + (size - width) <= u16::MAX {
            Some((start + (size - width)) as u16)
        } else {
            None
        }),
{
    if !right {
        Some(start)
    } else if width <= size {
        start.checked_add(size - width)
    } else {
        None
    }
}

/// The colour of a label.
#[derive(Clone, Copy, Debug, PartialEq, Eq, Structural)]
pub enum LabelColor {
    /// The colour of the column.
    Column,
    Green,
    Red,
    DarkGray,
}

/// A short text in a colour.
#[derive(Clone, Copy, Debug, PartialEq, Eq, Structural)]
pub struct Label {
    pub text: char,
    pub color: LabelColor,
}

/// The mark in front of a node: `v` if it is expanded, `>` if not.
pub fn arrow(expanded: bool) -> (r: char)
    ensures
        r == (if expanded {
            'v'
        } else {
            '>'
        }),
{
    if expanded {
        'v'
    } else {
        '>'
    }
}

/// The label of the player to move.
pub fn player_label(player: Player) -> (r: Label)
    ensures
        r == (match player {
            Player::A => Label { text: 'A', color: LabelColor::Green },
            Player::B => Label { text: 'B', color: LabelColor::Red },
        }),
{
    match player {
        Player::A => Label { text: 'A', color: LabelColor::Green },
        Player::B => Label { text: 'B', color: LabelColor::Red },
    }
}

/// What is known of the end of the game at a node.
#[derive(Clone, Copy, Debug, PartialEq, Eq, Structural)]
pub enum Terminal {
    /// The node has not been looked at.
    Unknown,
    /// The game goes on.
    Open,
    /// The game is over.
    Over(Outcome),
}

/// The label of what is known of the end of the game.
pub fn terminal_label(terminal: Terminal) -> (r: Label)
    ensures
        r == (match terminal {
            Terminal::Unknown => Label { text: '?', color: LabelColor::Column },
            Terminal::Open => Label { text: ' ', color: LabelColor::Column },
            Terminal::Over(Outcome::WonBy(Player::A)) => Label { text: 'A', color: LabelColor::Green },
            Terminal::Over(Outcome::Draw) => Label { text: 'D', color: LabelColor::DarkGray },
            Terminal::Over(Outcome::WonBy(Player::B)) => Label { text: 'B', color: LabelColor::Red },
        }),
{
    match terminal {
        Terminal::Unknown => Label { text: '?', color: LabelColor::Column },
        Terminal::Open => Label { text: ' ', color: LabelColor::Column },
        Terminal::Over(Outcome::WonBy(Player::A)) => Label { text: 'A', color: LabelColor::Green },
        Terminal::Over(Outcome::Draw) => Label { text: 'D', color: LabelColor::DarkGray },
        Terminal::Over(Outcome::WonBy(Player::B)) => Label { text: 'B', color: LabelColor::Red },
    }
}

/// What a key asks of the search.
#[derive(Clone, Copy, Debug, PartialEq, Eq, Structural)]
pub enum KeyCommand {
    /// Leave.
    Quit,
    /// Ask the tree for one leaf and keep the request, if one comes.
    Gather,
    /// Answer the oldest request and fold the answer back.
    ApplyOne,
    /// Answer all requests, then take one whole step: gather and apply.
    Step,
    /// Answer all requests, then search until the root has one visit more.
    Batch,
    /// Nothing.
    Nothing,
}

/// What the key `key` asks for, pressed with or without `Alt`.
pub fn key_command(key: char, alt: bool) -> (r: KeyCommand)
    ensures
        r == (if key == 'q' {
            KeyCommand::Quit
        } else if key == 'g' {
            KeyCommand::Gather
        } else if key == 'a' {
            KeyCommand::ApplyOne
        } else if key == 's' {
            if alt {
                KeyCommand::Batch
            } else {
                KeyCommand::Step
            }
        } else {
            KeyCommand::Nothing
        }),
{
    if key == 'q' {
        KeyCommand::Quit
    } else if key == 'g' {
        KeyCommand::Gather
    } else if key == 'a' {
        KeyCommand::ApplyOne
    } else if key == 's' {
        if alt {
            KeyCommand::Batch
        } else {
            KeyCommand::Step
        }
    } else {
        KeyCommand::Nothing
    }
}

} // verus!
