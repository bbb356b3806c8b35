//! Line-wrap arithmetic: where text of given column widths comes to stand in
//! a block of a given width.
//!
//! A character that does not fit into what is left of a line moves to the
//! next line whole, and the columns it leaves behind stay empty.

use vstd::prelude::*;

verus! {

/// The columns taken after a character of width `w` was put behind text
/// that takes `width` columns: where the character would straddle the end
/// of a line, the columns it leaves empty count too.
pub open spec fn occupied_step(width: nat, w: nat, editor_width: nat) -> nat {
    let spill = (width + w) % editor_width;
    if width + w <= editor_width || spill >= w {
        width + w
    } else {
        width + w + spill
    }
}

/// The columns that a text takes in a block, empty ends of lines included.
pub open spec fn occupied_width(widths: Seq<u8>, editor_width: nat) -> nat
    decreases widths.len(),
{
    if widths.len() == 0 {
        0
    } else {
        occupied_step(
            occupied_width(widths.drop_last(), editor_width),
            widths.last() as nat,
            editor_width,
        )
    }
}

/// A longer text takes no fewer columns than its beginning.
pub proof fn lemma_occupied_grows(widths: Seq<u8>, editor_width: nat, len: int)
    requires
        editor_width > 0,
        0 <= len <= widths.len(),
    ensures
        occupied_width(widths.take(len), editor_width) <= occupied_width(widths, editor_width),
    decreases widths.len() - len,
{
    if len == widths.len() {
        assert(widths.take(len) == widths);
    } else {
        lemma_occupied_grows(widths.drop_last(), editor_width, len);
        assert(widths.drop_last().take(len) == widths.take(len));
    }
}

/// Each character adds less than twice its own width.
pub proof fn lemma_occupied_bound(widths: Seq<u8>, editor_width: nat)
    requires
        editor_width > 0,
    ensures
        occupied_width(widths, editor_width) <= 2 * u8::MAX * widths.len(),
    decreases widths.len(),
{
    if widths.len() > 0 {
        lemma_occupied_bound(widths.drop_last(), editor_width);
    }
}

/// The columns that text of the given widths takes in a block that is
/// `editor_width` columns wide.
pub fn width_occupied(widths: &[u8], editor_width: u16) -> (width: usize)
    requires
        editor_width > 0,
        occupied_width(widths@, editor_width as nat) <= usize::MAX,
    ensures
        width == occupied_width(widths@, editor_width as nat),
{
    let block: usize = editor_width as usize;
    let mut width: usize = 0;
    let mut i: usize = 0;
    while i < widths.len()
        invariant
            i <= widths.len(),
            block == editor_width,
            block > 0,
            width == occupied_width(widths@.take(i as int), block as nat),
            occupied_width(widths@, block as nat) <= usize::MAX,
        decreases widths.len() - i,
    {
        let w: usize = widths[i] as usize;
        proof {
            let next = widths@.take(i + 1);
            assert(next.drop_last() == widths@.take(i as int));
            assert(next.last() == widths@[i as int]);
            lemma_occupied_grows(widths@, block as nat, i + 1);
        }
        let spill: usize = (width + w) % block;
        if width + w <= block || spill >= w {
            width = width + w;
        } else {
            width = width + w + spill;
        }
        i += 1;
    }
    assert(widths@.take(widths.len() as int) == widths@);
    width
}

/// The lines that are full and the columns taken in the line after them,
/// after a character of width `w` was put behind such a text.
pub open spec fn line_step(state: (nat, nat), w: nat, editor_width: nat) -> (nat, nat) {
    if state.1 + w < editor_width {
        (state.0, state.1 + w)
    } else {
        (state.0 + 1, (state.1 + w) % editor_width)
    }
}

/// The lines that a text fills and the columns it takes in the line after
/// them.
pub open spec fn line_walk(widths: Seq<u8>, editor_width: nat) -> (nat, nat)
    decreases widths.len(),
{
    if widths.len() == 0 {
        (0, 0)
    } else {
        line_step(line_walk(widths.drop_last(), editor_width), widths.last() as nat, editor_width)
    }
}

/// The lines that a text touches.
pub open spec fn occupied_lines(widths: Seq<u8>, editor_width: nat) -> nat {
    let (lines, rest) = line_walk(widths, editor_width);
    if rest > 0 {
        lines + 1
    } else {
        lines
    }
}

/// A text fills at most one line for each character, and the line after
/// them is never full.
pub proof fn lemma_line_walk_bound(widths: Seq<u8>, editor_width: nat)
    requires
        editor_width > 0,
    ensures
        line_walk(widths, editor_width).0 <= widths.len(),
        line_walk(widths, editor_width).1 < editor_width,
        occupied_lines(widths, editor_width) <= widths.len() + 1,
    decreases widths.len(),
{
    if widths.len() > 0 {
        lemma_line_walk_bound(widths.drop_last(), editor_width);
    }
}

/// The lines that text of the given widths touches in a block that is
/// `editor_width` columns wide.
pub fn lines_occupied(widths: &[u8], editor_width: u16) -> (lines: usize)
    requires
        editor_width > 0,
        widths.len() < usize::MAX,
    ensures
        lines == occupied_lines(widths@, editor_width as nat),
{
    let block: usize = editor_width as usize;
    let mut lines: usize = 0;
    let mut rest: usize = 0;
    let mut i: usize = 0;
    while i < widths.len()
        invariant
            i <= widths.len(),
            widths.len() < usize::MAX,
            block == editor_width,
            block > 0,
            (lines as nat, rest as nat) == line_walk(widths@.take(i as int), block as nat),
            lines <= i,
            rest < block,
        decreases widths.len() - i,
    {
        let w: usize = widths[i] as usize;
        proof {
            let next = widths@.take(i + 1);
            assert(next.drop_last() == widths@.take(i as int));
            assert(next.last() == widths@[i as int]);
        }
        if rest + w < block {
            rest = rest + w;
        } else {
            rest = (rest + w) % block;
            lines = lines + 1;
        }
        i += 1;
    }
    assert(widths@.take(widths.len() as int) == widths@);
    if rest > 0 {
        lines = lines + 1;
    }
    lines
}

/// How many characters the cursor passes on its way one line up, or `None`
/// where the way cannot be told.
///
/// `widths` are the widths of the characters before the cursor, `str_width`
/// is the width of that text as a whole, `moved` the columns that the
/// cursor has passed already. The cursor goes back one character at a time,
/// counting for each its width and the columns left empty before it, until
/// it has passed a line's width or reached the start. The way cannot be
/// told where the cursor would have passed more columns than the text has.
pub open spec fn up_walk(widths: Seq<u8>, str_width: nat, editor_width: nat, moved: nat) -> Option<
    nat,
>
    decreases widths.len(),
{
    if widths.len() == 0 {
        Some(0)
    } else if moved > str_width {
        None
    } else if moved >= editor_width {
        Some(0)
    } else {
        let w = widths.last() as nat;
        let rest = ((str_width - moved) % (editor_width as int)) as nat;
        let gap = if rest < w {
            rest
        } else {
            0
        };
        match up_walk(widths.drop_last(), str_width, editor_width, moved + w + gap) {
            Some(steps) => Some(steps + 1),
            None => None,
        }
    }
}

/// The cursor passes no more characters than stand before it.
pub proof fn lemma_up_walk_bound(widths: Seq<u8>, str_width: nat, editor_width: nat, moved: nat)
    ensures
        up_walk(widths, str_width, editor_width, moved) matches Some(steps) ==> steps
            <= widths.len(),
    decreases widths.len(),
{
    if widths.len() > 0 && moved <= str_width && moved < editor_width {
        let w = widths.last() as nat;
        let rest = ((str_width - moved) % (editor_width as int)) as nat;
        let gap = if rest < w {
            rest
        } else {
            0
        };
        lemma_up_walk_bound(widths.drop_last(), str_width, editor_width, moved + w + gap);
    }
}

/// How many characters the cursor passes on its way one line up, where
/// `widths` are the widths of the characters before it and `str_width` is
/// the width of that text as a whole.
pub fn steps_up(widths: &[u8], str_width: usize, editor_width: u16) -> (steps: Option<usize>)
    requires
        editor_width > 0,
    ensures
        match steps {
            Some(n) => up_walk(widths@, str_width as nat, editor_width as nat, 0) == Some(
                n as nat,
            ) && n <= widths@.len(),
            None => up_walk(widths@, str_width as nat, editor_width as nat, 0) is None,
        },
{
    let block: usize = editor_width as usize;
    let mut moved: usize = 0;
    let mut steps: usize = 0;
    let mut i: usize = widths.len();
    proof {
        assert(widths@.take(i as int) == widths@);
        lemma_up_walk_bound(widths@, str_width as nat, block as nat, 0);
    }
    while i > 0
        invariant
            i <= widths.len(),
            block == editor_width,
            block > 0,
            steps == widths.len() - i,
            moved <= 2 * (u8::MAX + block),
            up_walk(widths@, str_width as nat, block as nat, 0) == match up_walk(
                widths@.take(i as int),
                str_width as nat,
                block as nat,
                moved as nat,
            ) {
                Some(n) => Some((n + steps) as nat),
                None => None,
            },
        decreases i,
    {
        if moved > str_width {
            return None;
        }
        if moved >= block {
            return Some(steps);
        }
        let w: usize = widths[i - 1] as usize;
        let rest: usize = (str_width - moved) % block;
        let gap: usize = if rest < w {
            rest
        } else {
            0
        };
        proof {
            let here = widths@.take(i as int);
            assert(here.drop_last() == widths@.take(i - 1));
            assert(here.last() == widths@[i - 1]);
        }
        moved = moved + w + gap;
        steps = steps + 1;
        i -= 1;
    }
    Some(steps)
}

/// How many characters the cursor passes on its way one line down.
///
/// `widths` are the widths of the characters behind the cursor, `occupied`
/// the columns that the text before it takes, `moved` the columns that the
/// cursor has passed already. The cursor goes on one character at a time,
/// counting for each its width and the columns left empty before it, until
/// it has passed a line's width or reached the end.
pub open spec fn down_walk(widths: Seq<u8>, occupied: nat, editor_width: nat, moved: nat) -> nat
    decreases widths.len(),
{
    if widths.len() == 0 || moved >= editor_width {
        0
    } else {
        let w = widths.first() as nat;
        let rest = (moved + w + occupied) % editor_width;
        let gap = if rest < w {
            rest
        } else {
            0
        };
        1 + down_walk(widths.drop_first(), occupied, editor_width, moved + w + gap)
    }
}

/// The cursor passes no more characters than stand behind it.
pub proof fn lemma_down_walk_bound(widths: Seq<u8>, occupied: nat, editor_width: nat, moved: nat)
    ensures
        down_walk(widths, occupied, editor_width, moved) <= widths.len(),
    decreases widths.len(),
{
    if widths.len() > 0 && moved < editor_width {
        let w = widths.first() as nat;
        let rest = (moved + w + occupied) % editor_width;
        let gap = if rest < w {
            rest
        } else {
            0
        };
        lemma_down_walk_bound(widths.drop_first(), occupied, editor_width, moved + w + gap);
    }
}

/// How many characters the cursor passes on its way one line down, where
/// `widths` are the widths of the characters behind it and `occupied` is
/// what the text before it takes.
pub fn steps_down(widths: &[u8], occupied: usize, editor_width: u16) -> (steps: usize)
    requires
        editor_width > 0,
        occupied + 2 * editor_width + 2 * u8::MAX <= usize::MAX,
    ensures
        steps == down_walk(widths@, occupied as nat, editor_width as nat, 0),
        steps <= widths@.len(),
{
    let block: usize = editor_width as usize;
    let mut moved: usize = 0;
    let mut steps: usize = 0;
    proof {
        assert(widths@.skip(0) == widths@);
        lemma_down_walk_bound(widths@, occupied as nat, block as nat, 0);
    }
    while steps < widths.len() && moved < block
        invariant
            steps <= widths.len(),
            block == editor_width,
            block > 0,
            occupied + 2 * block + 2 * u8::MAX <= usize::MAX,
            moved <= 2 * (u8::MAX + block),
            down_walk(widths@, occupied as nat, block as nat, 0) == steps + down_walk(
                widths@.skip(steps as int),
                occupied as nat,
                block as nat,
                moved as nat,
            ),
        decreases widths.len() - steps,
    {
        let w: usize = widths[steps] as usize;
        let rest: usize = (moved + w + occupied) % block;
        let gap: usize = if rest < w {
            rest
        } else {
            0
        };
        proof {
            let here = widths@.skip(steps as int);
            assert(here.drop_first() == widths@.skip(steps + 1));
            assert(here.first() == widths@[steps as int]);
        }
        moved = moved + w + gap;
        steps = steps + 1;
    }
    steps
}

/// The number of lines as a screen coordinate holds it: its low 16 bits.
pub open spec fn screen_lines(lines: nat) -> nat {
    lines % 0x1_0000
}

/// How many lines of a text are scrolled out at the top of a block, so that
/// its last line shows at the bottom. The block is `block_height` lines
/// high, its border at the top and at the bottom included.
pub open spec fn scroll_lines(lines: nat, block_height: nat) -> nat {
    if screen_lines(lines) <= block_height - 2 {
        0
    } else {
        (screen_lines(lines) - (block_height - 2)) as nat
    }
}

/// How many lines to scroll a text of `lines` lines in a block that is
/// `block_height` lines high, so that the newest line shows.
pub fn scroll_offset(lines: usize, block_height: u16) -> (offset: u16)
    requires
        block_height >= 2,
    ensures
        offset == scroll_lines(lines as nat, block_height as nat),
{
    let shown: u16 = (lines % 0x1_0000) as u16;
    if shown <= block_height - 2 {
        0
    } else {
        shown - (block_height - 2)
    }
}

/// The cell of the screen in which the cursor stands: the column and the
/// line, in a block whose corner is at column `x` and line `y` and whose
/// inside is `editor_width` columns wide, behind text that takes `occupied`
/// columns there.
pub open spec fn cursor_at(x: nat, y: nat, occupied: nat, editor_width: nat) -> (nat, nat) {
    (x + occupied % editor_width + 1, y + screen_lines(occupied / editor_width) + 1)
}

/// The cell of the screen in which the cursor stands, or `None` where
/// that cell is off the screen: where its column or its line is no screen
/// coordinate.
pub fn cursor_cell(x: u16, y: u16, occupied: usize, editor_width: u16) -> (cell: Option<(u16, u16)>)
    requires
        editor_width > 0,
    ensures
        match cell {
            Some((column, line)) => (column as nat, line as nat) == cursor_at(
                x as nat,
                y as nat,
                occupied as nat,
                editor_width as nat,
            ),
            None => {
                let at = cursor_at(x as nat, y as nat, occupied as nat, editor_width as nat);
                at.0 > u16::MAX || at.1 > u16::MAX
            },
        },
{
    let block: usize = editor_width as usize;
    let column: u16 = (occupied % block) as u16;
    let line: u16 = ((occupied / block) % 0x1_0000) as u16;
    if column >= u16::MAX - x || line >= u16::MAX - y {
        None
    } else {
        Some((x + column + 1, y + line + 1))
    }
}

} // verus!
