//! Skill rows and the text shown for them.
use vstd::prelude::*;

use crate::grammar::{decimal, digit_char};
use crate::lexer::push_char;

verus! {

/// One persisted skill row: its name, its accumulated experience and its stored level.
pub struct SkillData {
    pub skill_name: String,
    pub total_exp: i32,
    pub level: i32,
}

/// `v` written in decimal, with a leading `-` when negative.
pub open spec fn int_text(v: int) -> Seq<char> {
    if v < 0 {
        seq!['-'] + decimal((-v) as nat)
    } else {
        decimal(v as nat)
    }
}

fn digit_of(d: u64) -> (c: char)
    requires
        d < 10,
    ensures
        c == digit_char(d as nat),
{
    match d {
        0 => '0',
        1 => '1',
        2 => '2',
        3 => '3',
        4 => '4',
        5 => '5',
        6 => '6',
        7 => '7',
        8 => '8',
        _ => '9',
    }
}

fn push_decimal(out: &mut String, n: u64)
    ensures
        final(out)@ == old(out)@ + decimal(n as nat),
    decreases n,
{
    if n >= 10 {
        push_decimal(out, n / 10);
    }
    push_char(out, digit_of(n % 10));
    assert(final(out)@ =~= old(out)@ + decimal(n as nat));
}

/// Appends `v` in decimal.
pub(crate) fn push_int(out: &mut String, v: i32)
    ensures
        final(out)@ == old(out)@ + int_text(v as int),
{
    if v < 0 {
        push_char(out, '-');
        push_decimal(out, (-(v as i64)) as u64);
        assert(final(out)@ =~= old(out)@ + int_text(v as int));
    } else {
        push_decimal(out, v as u64);
    }
}

/// The two detail lines of one skill: its experience and its level.
pub fn format_skill_details(skill_data: &SkillData) -> (r: Vec<String>)
    ensures
        r.len() == 2,
        r@[0]@ == "Experience - "@ + int_text(skill_data.total_exp as int),
        r@[1]@ == "Level - "@ + int_text(skill_data.level as int),
{
    let mut lines: Vec<String> = Vec::new();
    let mut experience_line = String::from_str("Experience - ");
    push_int(&mut experience_line, skill_data.total_exp);
    lines.push(experience_line);
    let mut level_line = String::from_str("Level - ");
    push_int(&mut level_line, skill_data.level);
    lines.push(level_line);
    lines
}

/// Most columns of skills shown side by side.
pub const MAX_NUM_COLS: i32 = 3;

/// Width of one column, counting the border it shares with its neighbour.
pub const COL_WIDTH: i32 = 25;

/// Least free space kept around the columns.
pub const MIN_SPACE: i32 = 6;

/// Width from which the most columns fit.
pub const MAX_WIDTH: i32 = 79;

/// How many columns fit in a window `width` characters wide (0 when none does).
pub open spec fn cols_that_fit(width: int) -> int {
    if width > MAX_WIDTH {
        MAX_NUM_COLS as int
    } else if width < COL_WIDTH + MIN_SPACE {
        0
    } else if (width - MIN_SPACE) / (COL_WIDTH as int) > MAX_NUM_COLS {
        MAX_NUM_COLS as int
    } else {
        (width - MIN_SPACE) / (COL_WIDTH as int)
    }
}

/// `n` copies of `c` (none when `n` is not positive).
pub open spec fn repeated(c: char, n: int) -> Seq<char> {
    Seq::new(if n > 0 { n as nat } else { 0 }, |_i: int| c)
}

/// A border line over `cols` columns: the left padding, a corner, the rule, a corner.
pub open spec fn boundary_text(cols: int, padding: Seq<char>, left: char, right: char) -> Seq<char> {
    padding + seq![left] + repeated('─', COL_WIDTH * cols - 1) + seq![right]
}

/// Spaces on each side of a text of `count` characters centred in a column,
/// one fewer on the left when `adjust_left`.
pub open spec fn paddings_text(count: int, adjust_left: bool) -> (Seq<char>, Seq<char>) {
    let base = if count >= COL_WIDTH {
        0
    } else {
        (COL_WIDTH - count) / 2
    };
    (repeated(' ', if adjust_left { base - 1 } else { base }), repeated(' ', base))
}

/// The level as shown: two digits at least.
pub open spec fn level_text(level: int) -> Seq<char> {
    if level < 10 {
        seq!['0'] + int_text(level)
    } else {
        int_text(level)
    }
}

/// The cell with a skill's name, centred.
pub open spec fn name_cell(row: SkillData) -> Seq<char> {
    let name = row.skill_name@;
    let p = paddings_text(name.len() as int, name.len() % 2 != 0);
    seq!['│'] + p.0 + name + p.1
}

/// The cell with a skill's level, centred.
pub open spec fn level_cell(row: SkillData) -> Seq<char> {
    let t = level_text(row.level as int);
    let p = paddings_text(t.len() as int, row.level < 10);
    seq!['│'] + p.0 + t + p.1
}

pub open spec fn name_cells(rows: Seq<SkillData>) -> Seq<char>
    decreases rows.len(),
{
    if rows.len() == 0 {
        Seq::empty()
    } else {
        name_cells(rows.drop_last()) + name_cell(rows.last())
    }
}

pub open spec fn level_cells(rows: Seq<SkillData>) -> Seq<char>
    decreases rows.len(),
{
    if rows.len() == 0 {
        Seq::empty()
    } else {
        level_cells(rows.drop_last()) + level_cell(rows.last())
    }
}

/// The four lines of one row of boxes: top border, names, levels, bottom border.
pub open spec fn box_lines(rows: Seq<SkillData>, padding: Seq<char>) -> Seq<Seq<char>> {
    seq![
        boundary_text(rows.len() as int, padding, '┌', '┐'),
        padding + name_cells(rows) + seq!['│'],
        padding + level_cells(rows) + seq!['│'],
        boundary_text(rows.len() as int, padding, '└', '┘'),
    ]
}

/// The lines for `rows` laid out `cols` to a row of boxes.
pub open spec fn grid_lines(rows: Seq<SkillData>, cols: int, padding: Seq<char>) -> Seq<Seq<char>>
    decreases rows.len(),
{
    if rows.len() == 0 || cols < 1 {
        Seq::empty()
    } else if rows.len() <= cols {
        box_lines(rows, padding)
    } else {
        box_lines(rows.take(cols), padding) + grid_lines(rows.skip(cols), cols, padding)
    }
}

/// The message shown when not even one column fits.
pub open spec fn too_small_text() -> Seq<char> {
    "Screen size too small to display skills"@
}

/// The skill summary for a window `col_len` characters wide.
pub open spec fn skill_summary(rows: Seq<SkillData>, col_len: int) -> Seq<Seq<char>> {
    let cols = cols_that_fit(col_len);
    if cols < 1 {
        seq![too_small_text()]
    } else {
        grid_lines(rows, cols, repeated(' ', (col_len - (cols * (COL_WIDTH - 1) + 1)) / 2))
    }
}

fn push_repeated(out: &mut String, c: char, n: i32)
    ensures
        final(out)@ == old(out)@ + repeated(c, n as int),
{
    let mut k: i32 = 0;
    while k < n
        invariant
            0 <= k,
            n > 0 ==> k <= n,
            n <= 0 ==> k == 0,
            out@ == old(out)@ + repeated(c, k as int),
        decreases n - k,
    {
        push_char(out, c);
        k += 1;
        assert(out@ =~= old(out)@ + repeated(c, k as int));
    }
    assert(repeated(c, k as int) =~= repeated(c, n as int));
}

fn get_num_cols(col_len: i32) -> (r: i32)
    ensures
        r == cols_that_fit(col_len as int),
{
    if col_len > MAX_WIDTH {
        return MAX_NUM_COLS;
    }
    if col_len < COL_WIDTH + MIN_SPACE {
        return 0;
    }
    let num_possible_cols = (col_len - MIN_SPACE) / COL_WIDTH;
    if num_possible_cols > MAX_NUM_COLS {
        return MAX_NUM_COLS;
    }
    num_possible_cols
}

fn create_boundary_line(num_cols: i32, global_padding: &str, left_corner: char, right_corner: char) -> (r:
    String)
    requires
        1 <= num_cols <= MAX_NUM_COLS,
    ensures
        r@ == boundary_text(num_cols as int, global_padding@, left_corner, right_corner),
{
    let mut line = String::from_str(global_padding);
    push_char(&mut line, left_corner);
    push_repeated(&mut line, '─', COL_WIDTH * num_cols - 1);
    push_char(&mut line, right_corner);
    line
}

fn get_paddings(char_count: i32, adjust_left: bool) -> (r: (String, String))
    requires
        char_count >= 0,
    ensures
        (r.0@, r.1@) == paddings_text(char_count as int, adjust_left),
{
    let base_padding = if char_count >= COL_WIDTH {
        0
    } else {
        (COL_WIDTH - char_count) / 2
    };
    let mut left_padding = String::new();
    push_repeated(
        &mut left_padding,
        ' ',
        if adjust_left {
            base_padding - 1
        } else {
            base_padding
        },
    );
    let mut right_padding = String::new();
    push_repeated(&mut right_padding, ' ', base_padding);
    (left_padding, right_padding)
}

fn get_global_left_padding(col_len: i32, num_cols: i32) -> (r: String)
    requires
        1 <= num_cols <= MAX_NUM_COLS,
        col_len >= num_cols * (COL_WIDTH - 1) + 1,
    ensures
        r@ == repeated(' ', (col_len - (num_cols * (COL_WIDTH - 1) + 1)) / 2),
{
    let full_box_width: i32 = (num_cols * COL_WIDTH) - num_cols + 1;
    let padding_amount: i32 = (col_len - full_box_width) / 2;
    let mut padding_space = String::new();
    push_repeated(&mut padding_space, ' ', padding_amount);
    padding_space
}

fn level_string(level: i32) -> (r: String)
    ensures
        r@ == level_text(level as int),
{
    let mut text = String::new();
    if level < 10 {
        push_char(&mut text, '0');
    }
    push_int(&mut text, level);
    assert(text@ =~= level_text(level as int));
    text
}

/// The character count of a text, as far as centring it needs: at most the column width.
fn centring_width(s: &str) -> (r: i32)
    ensures
        r == if s@.len() >= COL_WIDTH {
            COL_WIDTH as int
        } else {
            s@.len() as int
        },
{
    let n = s.unicode_len();
    if n >= COL_WIDTH as usize {
        COL_WIDTH
    } else {
        n as i32
    }
}

/// Appends the two cells of one skill to the name line and the level line.
fn push_cells(skill_line: &mut String, level_line: &mut String, skill: &SkillData)
    ensures
        final(skill_line)@ == old(skill_line)@ + name_cell(*skill),
        final(level_line)@ == old(level_line)@ + level_cell(*skill),
{
    push_char(skill_line, '│');
    push_char(level_line, '│');
    let skill_chars = skill.skill_name.as_str().unicode_len();
    let (skill_left_padding, skill_right_padding) = get_paddings(
        centring_width(skill.skill_name.as_str()),
        skill_chars % 2 != 0,
    );
    let level_str = level_string(skill.level);
    let (level_left_padding, level_right_padding) = get_paddings(
        centring_width(level_str.as_str()),
        skill.level < 10,
    );
    skill_line.append(skill_left_padding.as_str());
    skill_line.append(skill.skill_name.as_str());
    skill_line.append(skill_right_padding.as_str());
    level_line.append(level_left_padding.as_str());
    level_line.append(level_str.as_str());
    level_line.append(level_right_padding.as_str());
    assert(final(skill_line)@ =~= old(skill_line)@ + name_cell(*skill));
    assert(final(level_line)@ =~= old(level_line)@ + level_cell(*skill));
}

/// The name line and the level line of the rows `from..to`, before their closing borders.
fn cell_lines(skill_data: &[SkillData], from: usize, to: usize, padding: &str) -> (r: (String, String))
    requires
        from <= to <= skill_data@.len(),
    ensures
        r.0@ == padding@ + name_cells(skill_data@.subrange(from as int, to as int)),
        r.1@ == padding@ + level_cells(skill_data@.subrange(from as int, to as int)),
{
    let mut skill_line = String::from_str(padding);
    let mut level_line = String::from_str(padding);
    let mut j = from;
    assert(skill_data@.subrange(from as int, from as int) =~= Seq::<SkillData>::empty());
    while j < to
        invariant
            from <= j <= to <= skill_data@.len(),
            skill_line@ == padding@ + name_cells(skill_data@.subrange(from as int, j as int)),
            level_line@ == padding@ + level_cells(skill_data@.subrange(from as int, j as int)),
        decreases to - j,
    {
        assert(skill_data@.subrange(from as int, j + 1).drop_last() =~= skill_data@.subrange(
            from as int,
            j as int,
        ));
        push_cells(&mut skill_line, &mut level_line, &skill_data[j]);
        j += 1;
        assert(skill_line@ =~= padding@ + name_cells(skill_data@.subrange(from as int, j as int)));
        assert(level_line@ =~= padding@ + level_cells(skill_data@.subrange(from as int, j as int)));
    }
    (skill_line, level_line)
}

/// The skill summary: boxes of names and levels, as many columns to a row as
/// fit in `col_len` characters and centred there, or one line saying that the
/// window is too narrow.
pub fn format_skill_data(skill_data: &[SkillData], col_len: i32) -> (r: Vec<String>)
    ensures
        r@.map_values(|l: String| l@) == skill_summary(skill_data@, col_len as int),
{
    let num_cols = get_num_cols(col_len);
    let mut lines: Vec<String> = Vec::new();
    if num_cols < 1 {
        lines.push(String::from_str("Screen size too small to display skills"));
        assert(lines@.map_values(|l: String| l@) =~= seq![too_small_text()]);
        return lines;
    }
    assert(col_len >= num_cols * (COL_WIDTH - 1) + 1) by (nonlinear_arith)
        requires
            num_cols == cols_that_fit(col_len as int),
            1 <= num_cols <= 3,
    ;
    let global_padding = get_global_left_padding(col_len, num_cols);
    let ghost rows = skill_data@;
    let ghost pad = global_padding@;
    let n = skill_data.len();
    let cols = num_cols as usize;
    let mut i: usize = 0;
    assert(rows.subrange(0, n as int) =~= rows);
    while i < n
        invariant
            n == rows.len(),
            rows == skill_data@,
            pad == global_padding@,
            1 <= cols <= 3,
            cols == num_cols,
            i <= n,
            lines@.map_values(|l: String| l@) + grid_lines(rows.subrange(i as int, n as int), cols as int, pad)
                == grid_lines(rows, cols as int, pad),
        decreases n - i,
    {
        let end = if n - i > cols {
            i + cols
        } else {
            n
        };
        let ghost chunk = rows.subrange(i as int, end as int);
        let (mut skill_line, mut level_line) = cell_lines(skill_data, i, end, global_padding.as_str());
        push_char(&mut skill_line, '│');
        push_char(&mut level_line, '│');
        let width = (end - i) as i32;
        let ghost prev = lines@.map_values(|l: String| l@);
        lines.push(create_boundary_line(width, global_padding.as_str(), '┌', '┐'));
        lines.push(skill_line);
        lines.push(level_line);
        lines.push(create_boundary_line(width, global_padding.as_str(), '└', '┘'));
        proof {
            let rest = rows.subrange(i as int, n as int);
            let now = lines@.map_values(|l: String| l@);
            let b = box_lines(chunk, pad);
            assert(now.len() == prev.len() + 4);
            assert(now[prev.len() as int] == b[0]);
            assert(now[prev.len() as int + 1] == b[1]);
            assert(now[prev.len() as int + 2] == b[2]);
            assert(now[prev.len() as int + 3] == b[3]);
            assert(now =~= prev + b);
            if rest.len() > cols {
                assert(rest.take(cols as int) =~= chunk);
                assert(rest.skip(cols as int) =~= rows.subrange(end as int, n as int));
            } else {
                assert(rest =~= chunk);
                assert(rows.subrange(end as int, n as int) =~= Seq::<SkillData>::empty());
            }
            assert(lines@.map_values(|l: String| l@) + grid_lines(rows.subrange(end as int, n as int), cols as int, pad)
                =~= prev + grid_lines(rest, cols as int, pad));
        }
        i = end;
    }
    assert(rows.subrange(n as int, n as int) =~= Seq::<SkillData>::empty());
    assert(rows.subrange(0, n as int) =~= rows);
    lines
}

} // verus!
