//! Levels derived from experience, and the level changes a batch brings.
use vstd::prelude::*;

use crate::skill_data::{int_text, push_int, SkillData};

verus! {

/// Cumulative experience needed to complete `level` (1 to 99): the sum over
/// `l` in `1..=level` of `75 * 1.10409^l`, rounded down.
pub open spec fn xp_threshold(level: u32) -> int {
    match level {
        1 => 82, 2 => 174, 3 => 275, 4 => 386, 5 => 509, 6 => 645,
        7 => 795, 8 => 961, 9 => 1144, 10 => 1345, 11 => 1568, 12 => 1814,
        13 => 2086, 14 => 2386, 15 => 2717, 16 => 3083, 17 => 3487, 18 => 3933,
        19 => 4425, 20 => 4968, 21 => 5568, 22 => 6231, 23 => 6962, 24 => 7770,
        25 => 8661, 26 => 9646, 27 => 10733, 28 => 11933, 29 => 13258, 30 => 14720,
        31 => 16335, 32 => 18119, 33 => 20088, 34 => 22261, 35 => 24661, 36 => 27311,
        37 => 30237, 38 => 33467, 39 => 37034, 40 => 40971, 41 => 45319, 42 => 50119,
        43 => 55419, 44 => 61270, 45 => 67730, 46 => 74863, 47 => 82739, 48 => 91434,
        49 => 101034, 50 => 111634, 51 => 123336, 52 => 136257, 53 => 150523, 54 => 166274,
        55 => 183664, 56 => 202865, 57 => 224064, 58 => 247469, 59 => 273311, 60 => 301843,
        61 => 333345, 62 => 368126, 63 => 406527, 64 => 448925, 65 => 495736, 66 => 547421,
        67 => 604484, 68 => 667488, 69 => 737050, 70 => 813852, 71 => 898649, 72 => 992272,
        73 => 1095641, 74 => 1209769, 75 => 1335776, 76 => 1474900, 77 => 1628505, 78 => 1798099,
        79 => 1985346, 80 => 2192084, 81 => 2420341, 82 => 2672357, 83 => 2950605, 84 => 3257817,
        85 => 3597006, 86 => 3971501, 87 => 4384977, 88 => 4841492, 89 => 5345526, 90 => 5902025,
        91 => 6516449, 92 => 7194830, 93 => 7943822, 94 => 8770778, 95 => 9683811, 96 => 10691881,
        97 => 11804882, 98 => 13033735, 99 => 14390500,
        _ => 0,
    }
}

/// Smallest level `l` in `from..=98` whose threshold is at least `exp`, else 99.
pub open spec fn level_from(exp: int, from: int) -> int
    decreases 99 - from,
{
    if from >= 99 {
        99
    } else if exp <= xp_threshold(from as u32) {
        from
    } else {
        level_from(exp, from + 1)
    }
}

/// The level that `exp` experience gives: the smallest level `l` in `1..=99`
/// with `exp <= xp_threshold(l)`, and 99 when no threshold reaches `exp`.
pub open spec fn level_of(exp: int) -> int {
    level_from(exp, 1)
}

fn xp_threshold_exec(level: u32) -> (t: i64)
    requires
        1 <= level <= 98,
    ensures
        t == xp_threshold(level),
{
    match level {
        1 => 82, 2 => 174, 3 => 275, 4 => 386, 5 => 509, 6 => 645,
        7 => 795, 8 => 961, 9 => 1144, 10 => 1345, 11 => 1568, 12 => 1814,
        13 => 2086, 14 => 2386, 15 => 2717, 16 => 3083, 17 => 3487, 18 => 3933,
        19 => 4425, 20 => 4968, 21 => 5568, 22 => 6231, 23 => 6962, 24 => 7770,
        25 => 8661, 26 => 9646, 27 => 10733, 28 => 11933, 29 => 13258, 30 => 14720,
        31 => 16335, 32 => 18119, 33 => 20088, 34 => 22261, 35 => 24661, 36 => 27311,
        37 => 30237, 38 => 33467, 39 => 37034, 40 => 40971, 41 => 45319, 42 => 50119,
        43 => 55419, 44 => 61270, 45 => 67730, 46 => 74863, 47 => 82739, 48 => 91434,
        49 => 101034, 50 => 111634, 51 => 123336, 52 => 136257, 53 => 150523, 54 => 166274,
        55 => 183664, 56 => 202865, 57 => 224064, 58 => 247469, 59 => 273311, 60 => 301843,
        61 => 333345, 62 => 368126, 63 => 406527, 64 => 448925, 65 => 495736, 66 => 547421,
        67 => 604484, 68 => 667488, 69 => 737050, 70 => 813852, 71 => 898649, 72 => 992272,
        73 => 1095641, 74 => 1209769, 75 => 1335776, 76 => 1474900, 77 => 1628505, 78 => 1798099,
        79 => 1985346, 80 => 2192084, 81 => 2420341, 82 => 2672357, 83 => 2950605, 84 => 3257817,
        85 => 3597006, 86 => 3971501, 87 => 4384977, 88 => 4841492, 89 => 5345526, 90 => 5902025,
        91 => 6516449, 92 => 7194830, 93 => 7943822, 94 => 8770778, 95 => 9683811, 96 => 10691881,
        97 => 11804882, 98 => 13033735, 99 => 14390500,
        _ => 0,
    }
}

fn level_for(exp: i64) -> (r: i32)
    ensures
        r == level_of(exp as int),
{
    let mut level: u32 = 1;
    while level < 99 && exp > xp_threshold_exec(level)
        invariant
            1 <= level <= 99,
            level_from(exp as int, level as int) == level_of(exp as int),
        decreases 99 - level,
    {
        level = level + 1;
    }
    level as i32
}

/// Level reached with `exp` experience; zero or negative experience is level 1.
pub fn get_level_for_exp(exp: i32) -> (r: i32)
    ensures
        r == level_of(exp as int),
{
    level_for(exp as i64)
}

proof fn lemma_level_from_bounds(exp: int, from: int)
    requires
        1 <= from <= 99,
    ensures
        from <= level_from(exp, from) <= 99,
    decreases 99 - from,
{
    if from < 99 && exp > xp_threshold(from as u32) {
        lemma_level_from_bounds(exp, from + 1);
    }
}

proof fn lemma_level_from_monotonic(e1: int, e2: int, from: int)
    requires
        e1 <= e2,
        1 <= from <= 99,
    ensures
        level_from(e1, from) <= level_from(e2, from),
    decreases 99 - from,
{
    if from < 99 {
        lemma_level_from_bounds(e1, from);
        lemma_level_from_bounds(e2, from);
        if e2 > xp_threshold(from as u32) {
            if e1 > xp_threshold(from as u32) {
                lemma_level_from_monotonic(e1, e2, from + 1);
            } else {
                lemma_level_from_bounds(e2, from + 1);
            }
        }
    }
}

/// Levels stay within 1 to 99, and no more than 82 experience (in particular
/// zero or negative experience) is level 1.
pub proof fn lemma_level_bounds(exp: int)
    ensures
        1 <= level_of(exp) <= 99,
        exp <= 82 ==> level_of(exp) == 1,
{
    lemma_level_from_bounds(exp, 1);
}

/// More experience never gives a lower level.
pub proof fn lemma_level_monotonic(e1: int, e2: int)
    requires
        e1 <= e2,
    ensures
        level_of(e1) <= level_of(e2),
{
    lemma_level_from_monotonic(e1, e2, 1);
}

/// A name-keyed list of values seen as sequences and integers.
pub open spec fn pairs_view(v: Seq<(String, i32)>) -> Seq<(Seq<char>, int)> {
    v.map_values(|e: (String, i32)| (e.0@, e.1 as int))
}

/// The value of the first entry at or after `k` whose name is `name`.
pub open spec fn lookup_from(m: Seq<(Seq<char>, int)>, name: Seq<char>, k: int) -> Option<int>
    decreases m.len() - k,
{
    if k < 0 || k >= m.len() {
        None
    } else if m[k].0 == name {
        Some(m[k].1)
    } else {
        lookup_from(m, name, k + 1)
    }
}

/// The value recorded for `name`, if any.
pub open spec fn lookup(m: Seq<(Seq<char>, int)>, name: Seq<char>) -> Option<int> {
    lookup_from(m, name, 0)
}

/// For each row, in order, whose skill has experience in `delta`: its name and
/// the level of its total experience with the delta added.
pub open spec fn updated_levels(rows: Seq<SkillData>, delta: Seq<(Seq<char>, int)>) -> Seq<
    (Seq<char>, int),
>
    decreases rows.len(),
{
    if rows.len() == 0 {
        Seq::empty()
    } else {
        let prev = updated_levels(rows.drop_last(), delta);
        let row = rows.last();
        match lookup(delta, row.skill_name@) {
            Some(d) => prev.push((row.skill_name@, level_of(row.total_exp + d))),
            None => prev,
        }
    }
}

/// For each row, in order, whose new level in `new_levels` is above its stored
/// level: its name and the new level.
pub open spec fn levels_diff(rows: Seq<SkillData>, new_levels: Seq<(Seq<char>, int)>) -> Seq<
    (Seq<char>, int),
>
    decreases rows.len(),
{
    if rows.len() == 0 {
        Seq::empty()
    } else {
        let prev = levels_diff(rows.drop_last(), new_levels);
        let row = rows.last();
        match lookup(new_levels, row.skill_name@) {
            Some(l) => if l > row.level {
                prev.push((row.skill_name@, l))
            } else {
                prev
            },
            None => prev,
        }
    }
}

/// The value of the first entry of `m` named `name`.
fn find_value(m: &Vec<(String, i32)>, name: &String) -> (r: Option<i32>)
    ensures
        lookup(pairs_view(m@), name@) == match r {
            Some(v) => Some(v as int),
            None => None,
        },
{
    let ghost pv = pairs_view(m@);
    let mut j: usize = 0;
    while j < m.len()
        invariant
            j <= m.len(),
            pv == pairs_view(m@),
            lookup(pv, name@) == lookup_from(pv, name@, j as int),
        decreases m.len() - j,
    {
        if m[j].0 == *name {
            return Some(m[j].1);
        }
        j += 1;
    }
    None
}

/// New levels of the skills that gained experience: for each row whose name has
/// an entry in `batch_xp`, the level of its total experience plus that entry.
pub fn get_updated_levels(skill_data: &[SkillData], batch_xp: &Vec<(String, i32)>) -> (r: Vec<
    (String, i32),
>)
    ensures
        pairs_view(r@) == updated_levels(skill_data@, pairs_view(batch_xp@)),
{
    let mut r: Vec<(String, i32)> = Vec::new();
    let mut i: usize = 0;
    while i < skill_data.len()
        invariant
            i <= skill_data@.len(),
            pairs_view(r@) == updated_levels(skill_data@.take(i as int), pairs_view(batch_xp@)),
        decreases skill_data@.len() - i,
    {
        let data = &skill_data[i];
        let ghost before = r@;
        assert(skill_data@.take(i + 1).drop_last() =~= skill_data@.take(i as int));
        if let Some(exp) = find_value(batch_xp, &data.skill_name) {
            let level = level_for(data.total_exp as i64 + exp as i64);
            r.push((data.skill_name.clone(), level));
            assert(pairs_view(r@) =~= pairs_view(before).push((data.skill_name@, level as int)));
        }
        i += 1;
    }
    assert(skill_data@.take(i as int) =~= skill_data@);
    r
}

/// The skills that levelled up: for each row whose name has an entry in
/// `new_levels` above its stored level, the name and that new level.
pub fn get_levels_diff(skill_data: &[SkillData], new_levels: &Vec<(String, i32)>) -> (r: Vec<
    (String, i32),
>)
    ensures
        pairs_view(r@) == levels_diff(skill_data@, pairs_view(new_levels@)),
{
    let mut r: Vec<(String, i32)> = Vec::new();
    let mut i: usize = 0;
    while i < skill_data.len()
        invariant
            i <= skill_data@.len(),
            pairs_view(r@) == levels_diff(skill_data@.take(i as int), pairs_view(new_levels@)),
        decreases skill_data@.len() - i,
    {
        let old_data = &skill_data[i];
        let ghost before = r@;
        assert(skill_data@.take(i + 1).drop_last() =~= skill_data@.take(i as int));
        if let Some(new_level) = find_value(new_levels, &old_data.skill_name) {
            if new_level > old_data.level {
                r.push((old_data.skill_name.clone(), new_level));
                assert(pairs_view(r@) =~= pairs_view(before).push(
                    (old_data.skill_name@, new_level as int),
                ));
            }
        }
        i += 1;
    }
    assert(skill_data@.take(i as int) =~= skill_data@);
    r
}

/// No two rows share a skill name.
pub open spec fn names_unique(rows: Seq<SkillData>) -> bool {
    forall|i: int, j: int|
        0 <= i < j < rows.len() ==> rows[i].skill_name@ != rows[j].skill_name@
}

proof fn lemma_lookup_from_push(m: Seq<(Seq<char>, int)>, e: (Seq<char>, int), name: Seq<char>, k: int)
    requires
        0 <= k <= m.len(),
    ensures
        lookup_from(m.push(e), name, k) == match lookup_from(m, name, k) {
            Some(v) => Some(v),
            None => if e.0 == name {
                Some(e.1)
            } else {
                None
            },
        },
    decreases m.len() - k,
{
    if k < m.len() {
        assert(m.push(e)[k] == m[k]);
        lemma_lookup_from_push(m, e, name, k + 1);
    } else {
        assert(m.push(e)[k] == e);
        assert(lookup_from(m.push(e), name, k + 1) is None);
        assert(lookup_from(m, name, k) is None);
    }
}

/// Looking a name up after appending an entry finds an earlier entry first.
proof fn lemma_lookup_push(m: Seq<(Seq<char>, int)>, e: (Seq<char>, int), name: Seq<char>)
    ensures
        lookup(m.push(e), name) == match lookup(m, name) {
            Some(v) => Some(v),
            None => if e.0 == name {
                Some(e.1)
            } else {
                None
            },
        },
{
    lemma_lookup_from_push(m, e, name, 0);
}

/// Where no row is named `name`, neither list names it.
proof fn lemma_absent(rows: Seq<SkillData>, m: Seq<(Seq<char>, int)>, name: Seq<char>)
    requires
        forall|j: int| 0 <= j < rows.len() ==> (#[trigger] rows[j]).skill_name@ != name,
    ensures
        lookup(updated_levels(rows, m), name) is None,
        lookup(levels_diff(rows, m), name) is None,
    decreases rows.len(),
{
    if rows.len() > 0 {
        let prev = rows.drop_last();
        assert forall|j: int| 0 <= j < prev.len() implies (#[trigger] prev[j]).skill_name@
            != name by {
            assert(prev[j] == rows[j]);
        }
        lemma_absent(prev, m, name);
        let row = rows.last();
        lemma_lookup_push(updated_levels(prev, m), (row.skill_name@, 0), name);
        match lookup(m, row.skill_name@) {
            Some(d) => {
                lemma_lookup_push(updated_levels(prev, m), (row.skill_name@, level_of(row.total_exp + d)), name);
                lemma_lookup_push(levels_diff(prev, m), (row.skill_name@, d), name);
            },
            None => {},
        }
    }
}

/// Where row `i` has an entry `d` in `delta`, its new level is recorded under its name.
proof fn lemma_updated_level_of_row(rows: Seq<SkillData>, delta: Seq<(Seq<char>, int)>, i: int, d: int)
    requires
        names_unique(rows),
        0 <= i < rows.len(),
        lookup(delta, rows[i].skill_name@) == Some(d),
    ensures
        lookup(updated_levels(rows, delta), rows[i].skill_name@) == Some(
            level_of(rows[i].total_exp + d),
        ),
    decreases rows.len(),
{
    let name = rows[i].skill_name@;
    let prev = rows.drop_last();
    let row = rows.last();
    if i == rows.len() - 1 {
        assert forall|j: int| 0 <= j < prev.len() implies (#[trigger] prev[j]).skill_name@
            != name by {
            assert(prev[j] == rows[j]);
        }
        lemma_absent(prev, delta, name);
        lemma_lookup_push(updated_levels(prev, delta), (name, level_of(row.total_exp + d)), name);
    } else {
        assert(prev[i] == rows[i]);
        assert(names_unique(prev)) by {
            assert forall|a: int, b: int| 0 <= a < b < prev.len() implies prev[a].skill_name@
                != prev[b].skill_name@ by {
                assert(prev[a] == rows[a] && prev[b] == rows[b]);
            }
        }
        lemma_updated_level_of_row(prev, delta, i, d);
        match lookup(delta, row.skill_name@) {
            Some(e) => {
                lemma_lookup_push(updated_levels(prev, delta), (row.skill_name@, level_of(row.total_exp + e)), name);
            },
            None => {},
        }
    }
}

/// Where row `i` has new level `l` above its stored level, the diff records it.
proof fn lemma_diff_of_row(rows: Seq<SkillData>, new_levels: Seq<(Seq<char>, int)>, i: int, l: int)
    requires
        names_unique(rows),
        0 <= i < rows.len(),
        lookup(new_levels, rows[i].skill_name@) == Some(l),
        l > rows[i].level,
    ensures
        lookup(levels_diff(rows, new_levels), rows[i].skill_name@) == Some(l),
    decreases rows.len(),
{
    let name = rows[i].skill_name@;
    let prev = rows.drop_last();
    let row = rows.last();
    if i == rows.len() - 1 {
        assert forall|j: int| 0 <= j < prev.len() implies (#[trigger] prev[j]).skill_name@
            != name by {
            assert(prev[j] == rows[j]);
        }
        lemma_absent(prev, new_levels, name);
        lemma_lookup_push(levels_diff(prev, new_levels), (name, l), name);
    } else {
        assert(prev[i] == rows[i]);
        assert(names_unique(prev)) by {
            assert forall|a: int, b: int| 0 <= a < b < prev.len() implies prev[a].skill_name@
                != prev[b].skill_name@ by {
                assert(prev[a] == rows[a] && prev[b] == rows[b]);
            }
        }
        lemma_diff_of_row(prev, new_levels, i, l);
        match lookup(new_levels, row.skill_name@) {
            Some(e) => {
                lemma_lookup_push(levels_diff(prev, new_levels), (row.skill_name@, e), name);
            },
            None => {},
        }
    }
}

/// When a batch's experience lifts a skill above its stored level, the level
/// diff holds that skill with the level of its new total.
pub proof fn lemma_level_up_in_diff(rows: Seq<SkillData>, delta: Seq<(Seq<char>, int)>, i: int, d: int)
    requires
        names_unique(rows),
        0 <= i < rows.len(),
        lookup(delta, rows[i].skill_name@) == Some(d),
        level_of(rows[i].total_exp + d) > rows[i].level,
    ensures
        lookup(levels_diff(rows, updated_levels(rows, delta)), rows[i].skill_name@) == Some(
            level_of(rows[i].total_exp + d),
        ),
{
    lemma_updated_level_of_row(rows, delta, i, d);
    lemma_diff_of_row(rows, updated_levels(rows, delta), i, level_of(rows[i].total_exp + d));
}

/// The message announcing that skill `name` reached `level`.
pub open spec fn level_up_text(name: Seq<char>, level: int) -> Seq<char> {
    name + " reached level "@ + int_text(level) + "!"@
}

/// The level-up messages to show after a batch: one per entry of the diff, in
/// order, once the batch is committed, and none when the commit failed.
pub fn level_up_notifications(levels_diff: &Vec<(String, i32)>, committed: bool) -> (r: Vec<
    String,
>)
    ensures
        r.len() == if committed {
            levels_diff.len()
        } else {
            0
        },
        forall|k: int|
            0 <= k < r.len() ==> (#[trigger] r@[k])@ == level_up_text(
                levels_diff@[k].0@,
                levels_diff@[k].1 as int,
            ),
{
    let mut messages: Vec<String> = Vec::new();
    if !committed {
        return messages;
    }
    let mut k: usize = 0;
    while k < levels_diff.len()
        invariant
            k <= levels_diff.len(),
            messages.len() == k,
            forall|j: int|
                0 <= j < k ==> (#[trigger] messages@[j])@ == level_up_text(
                    levels_diff@[j].0@,
                    levels_diff@[j].1 as int,
                ),
        decreases levels_diff.len() - k,
    {
        let mut message = levels_diff[k].0.clone();
        message.append(" reached level ");
        push_int(&mut message, levels_diff[k].1);
        message.append("!");
        messages.push(message);
        k += 1;
    }
    messages
}

/// Every entry of the level diff is a skill whose new level is above the level
/// stored in its row.
pub proof fn lemma_diff_only_level_ups(rows: Seq<SkillData>, new_levels: Seq<(Seq<char>, int)>, k: int)
    requires
        0 <= k < levels_diff(rows, new_levels).len(),
    ensures
        exists|i: int|
            0 <= i < rows.len() && #[trigger] rows[i].skill_name@ == levels_diff(rows, new_levels)[k].0
                && lookup(new_levels, rows[i].skill_name@) == Some(levels_diff(rows, new_levels)[k].1)
                && levels_diff(rows, new_levels)[k].1 > rows[i].level,
    decreases rows.len(),
{
    let prev_rows = rows.drop_last();
    let prev = levels_diff(prev_rows, new_levels);
    let diff = levels_diff(rows, new_levels);
    if k < prev.len() {
        lemma_diff_only_level_ups(prev_rows, new_levels, k);
        let i = choose|i: int|
            0 <= i < prev_rows.len() && #[trigger] prev_rows[i].skill_name@ == prev[k].0
                && lookup(new_levels, prev_rows[i].skill_name@) == Some(prev[k].1)
                && prev[k].1 > prev_rows[i].level;
        assert(prev_rows[i] == rows[i]);
        assert(diff[k] == prev[k]);
        assert(rows[i].skill_name@ == diff[k].0);
    } else {
        let i = rows.len() - 1;
        assert(rows[i] == rows.last());
        assert(rows[i].skill_name@ == diff[k].0);
    }
}

} // verus!
