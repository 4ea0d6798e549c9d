//! The keystroke grammar, stated over character sequences.
//!
//! `lex_at(s, i)` is the token that starts at position `i` of `s`, with the
//! position just after it. Recorded keystrokes are literal characters, control
//! chords `<C-X>`, and named keys `|enter|`, `|escape|`, `|space|`, `|tab|`,
//! `|backspace|`; `<Esc>` is also read as escape.
use vstd::prelude::*;

use crate::token::TokenView;

verus! {

/// Largest repeat count a token carries.
pub const MAX_COUNT: i32 = 999;

/// The keys that the `%` motion is recorded as.
pub open spec fn matchit_keys() -> Seq<char> {
    ":<C-U>call<Space>matchit#Match_wrapper('',1,'n')|enter|m'zv"@
}

pub open spec fn is_digit(c: char) -> bool {
    '0' <= c && c <= '9'
}

pub open spec fn is_alnum(c: char) -> bool {
    is_digit(c) || ('a' <= c && c <= 'z') || ('A' <= c && c <= 'Z')
}

pub open spec fn digit_value(c: char) -> int {
    (c as int) - ('0' as int)
}

pub open spec fn starts_with(s: Seq<char>, i: int, w: Seq<char>) -> bool {
    0 <= i && i + w.len() <= s.len() && s.subrange(i, i + w.len()) == w
}

/// End of the run of digits that starts at `i`.
pub open spec fn digits_end(s: Seq<char>, i: int) -> int
    decreases s.len() - i,
{
    if 0 <= i < s.len() && is_digit(s[i]) {
        digits_end(s, i + 1)
    } else {
        i
    }
}

pub open spec fn saturate(v: int) -> int {
    if v > MAX_COUNT {
        MAX_COUNT as int
    } else {
        v
    }
}

/// The digits `s[i..j]` read as a number, pinned at 999.
pub open spec fn count_of(s: Seq<char>, i: int, j: int) -> int
    decreases j - i,
{
    if j <= i {
        0
    } else {
        saturate(count_of(s, i, j - 1) * 10 + digit_value(s[j - 1]))
    }
}

/// `<C-X>` at `p`.
pub open spec fn is_chord(s: Seq<char>, p: int) -> bool {
    starts_with(s, p, "<C-"@) && p + 4 < s.len() && s[p + 4] == '>'
}

/// Number of characters of the keystroke at `p`.
pub open spec fn key_len(s: Seq<char>, p: int) -> int {
    if is_chord(s, p) {
        5
    } else if starts_with(s, p, "<Esc>"@) {
        "<Esc>"@.len() as int
    } else if starts_with(s, p, "|enter|"@) {
        "|enter|"@.len() as int
    } else if starts_with(s, p, "|escape|"@) {
        "|escape|"@.len() as int
    } else if starts_with(s, p, "|space|"@) {
        "|space|"@.len() as int
    } else if starts_with(s, p, "|tab|"@) {
        "|tab|"@.len() as int
    } else if starts_with(s, p, "|backspace|"@) {
        "|backspace|"@.len() as int
    } else {
        1
    }
}

/// A single-character keystroke stands at `p`.
pub open spec fn is_plain(s: Seq<char>, p: int) -> bool {
    0 <= p < s.len() && key_len(s, p) == 1
}

/// What nothing recognises: the count typed before `p` if there is one,
/// otherwise the keystroke at `p`.
pub open spec fn unhandled_at(s: Seq<char>, start: int, p: int) -> (TokenView, int) {
    if start < p {
        (TokenView::Unhandled(s.subrange(start, p)), p)
    } else {
        (TokenView::Unhandled(s.subrange(p, p + key_len(s, p))), p + key_len(s, p))
    }
}

/// A two-key command at `p` whose second key is not recognised: the count if
/// there is one, otherwise both keys (or the first alone when no plain key follows).
pub open spec fn pair_fail(s: Seq<char>, start: int, p: int) -> (TokenView, int) {
    if start < p {
        unhandled_at(s, start, p)
    } else if is_plain(s, p + 1) {
        (TokenView::Unhandled(s.subrange(p, p + 2)), p + 2)
    } else {
        (TokenView::Unhandled(s.subrange(p, p + 1)), p + 1)
    }
}

pub open spec fn is_chunk_motion(c: char) -> bool {
    c == 'w' || c == 'W' || c == 'e' || c == 'E' || c == 'b' || c == 'B'
}

/// Motions an operator takes.
pub open spec fn is_motion(c: char) -> bool {
    is_chunk_motion(c) || c == '$' || c == '^' || c == '0' || c == 'j' || c == 'k' || c == 'h'
        || c == 'l'
}

/// Motions written after `g` that an operator takes.
pub open spec fn is_g_motion(c: char) -> bool {
    c == 'g' || c == 'j' || c == 'k' || c == 'e' || c == 'E'
}

pub open spec fn is_find(c: char) -> bool {
    c == 'f' || c == 'F' || c == 't' || c == 'T'
}

pub open spec fn is_text_object(c: char) -> bool {
    c == 'w' || c == 'W' || c == 's' || c == 'p' || c == '(' || c == ')' || c == '['
        || c == ']' || c == '{' || c == '}' || c == '<' || c == '>' || c == '"' || c == '\''
        || c == '`' || c == 'b' || c == 'B' || c == 't'
}

/// End of the run of `;` and `n` repeats that starts at `k`.
pub open spec fn repeats_end(s: Seq<char>, k: int) -> int
    decreases s.len() - k,
{
    if 0 <= k < s.len() && (s[k] == ';' || s[k] == 'n') {
        repeats_end(s, k + 1)
    } else {
        k
    }
}

/// The token an operator yields: deletes carry their count, yanks and changes do not.
pub open spec fn operator_token(op: char, n: int) -> TokenView {
    if op == 'd' {
        TokenView::DeleteText(n as i32)
    } else if op == 'y' {
        TokenView::YankPaste
    } else {
        TokenView::TextManipulationAdvanced
    }
}

/// End of the count typed after an operator at `q` (`q` itself when none).
pub open spec fn motion_count_end(s: Seq<char>, q: int) -> int {
    if 0 <= q < s.len() && is_digit(s[q]) && s[q] != '0' {
        digits_end(s, q)
    } else {
        q
    }
}

pub open spec fn motion_count(s: Seq<char>, q: int, r: int) -> int {
    if r > q {
        count_of(s, q, r)
    } else {
        1
    }
}

/// After the operator `op` (`d`, `y`, `c`, or the case operators `~`, `u`, `U`
/// of `g~`, `gu`, `gU`) with count `n`, the rest of the command starts at `q`.
pub open spec fn lex_operator(s: Seq<char>, start: int, q: int, op: char, n: int) -> (
    TokenView,
    int,
) {
    let r = motion_count_end(s, q);
    let total = saturate(n * motion_count(s, q, r));
    if r >= s.len() {
        unhandled_at(s, start, r)
    } else if s[r] == op || is_motion(s[r]) {
        (operator_token(op, total), r + 1)
    } else if (s[r] == 'i' || s[r] == 'a') && r + 1 < s.len() && is_text_object(s[r + 1]) {
        (operator_token(op, total), r + 2)
    } else if s[r] == 'g' && r + 1 < s.len() && is_g_motion(s[r + 1]) {
        (operator_token(op, total), r + 2)
    } else if is_find(s[r]) && is_plain(s, r + 1) {
        (operator_token(op, total), r + 2)
    } else {
        unhandled_at(s, start, r)
    }
}

/// First terminator at or after `k`: where it starts, where it ends, and
/// whether it is enter. Enter only counts when `enter_ends`.
pub open spec fn terminator_from(s: Seq<char>, k: int, enter_ends: bool) -> Option<
    (int, int, bool),
>
    decreases s.len() - k,
{
    if k < 0 || k >= s.len() {
        None
    } else if enter_ends && starts_with(s, k, "|enter|"@) {
        Some((k, k + "|enter|"@.len(), true))
    } else if starts_with(s, k, "|escape|"@) {
        Some((k, k + "|escape|"@.len(), false))
    } else if starts_with(s, k, "<Esc>"@) {
        Some((k, k + "<Esc>"@.len(), false))
    } else {
        terminator_from(s, k + 1, enter_ends)
    }
}

/// `b` is the word `w`, alone or followed by something that is not a letter or digit.
pub open spec fn is_word(b: Seq<char>, w: Seq<char>) -> bool {
    b.len() >= w.len() && b.subrange(0, w.len() as int) == w && (b.len() == w.len()
        || !is_alnum(b[w.len() as int]))
}

pub open spec fn all_digits(b: Seq<char>) -> bool {
    forall|k: int| 0 <= k < b.len() ==> is_digit(#[trigger] b[k])
}

/// The token of a finished command line with content `b`.
pub open spec fn command_token(b: Seq<char>, completed: bool) -> TokenView {
    if b.len() > 0 && all_digits(b) {
        TokenView::JumpToLineNumber(b)
    } else if is_word(b, "h"@) || is_word(b, "help"@) {
        TokenView::HelpPage(completed)
    } else if is_word(b, "w"@) || is_word(b, "w!"@) {
        TokenView::SaveFile(completed)
    } else {
        TokenView::Command(completed)
    }
}

/// A command line whose content starts at `q`.
pub open spec fn lex_command_line(s: Seq<char>, start: int, q: int) -> (TokenView, int) {
    match terminator_from(s, q, true) {
        None => (TokenView::Unhandled(s.subrange(start, s.len() as int)), s.len() as int),
        Some(t) => (command_token(s.subrange(q, t.0), t.2), t.1),
    }
}

/// A search whose pattern starts at `q`.
pub open spec fn lex_search(s: Seq<char>, start: int, q: int) -> (TokenView, int) {
    match terminator_from(s, q, true) {
        None => (TokenView::Unhandled(s.subrange(start, s.len() as int)), s.len() as int),
        Some(t) => (TokenView::CommandSearch(t.2), t.1),
    }
}

/// Replace mode, whose typed text starts at `q`; only escape ends it.
pub open spec fn lex_replace(s: Seq<char>, start: int, q: int) -> (TokenView, int) {
    match terminator_from(s, q, false) {
        None => (TokenView::Unhandled(s.subrange(start, s.len() as int)), s.len() as int),
        Some(t) => (TokenView::TextManipulationAdvanced, t.1),
    }
}

/// The chord `<C-X>` at `p`.
pub open spec fn lex_chord(s: Seq<char>, start: int, p: int, n: int) -> (TokenView, int) {
    let x = s[p + 3];
    if x == 'U' || x == 'D' {
        (TokenView::MoveVerticalChunk(n as i32), p + 5)
    } else if x == 'F' || x == 'B' {
        (TokenView::JumpToVertical, p + 5)
    } else if x == 'E' || x == 'Y' {
        (TokenView::CameraMovement, p + 5)
    } else if x == 'R' {
        (TokenView::UndoRedo, p + 5)
    } else if x == 'H' || x == 'J' || x == 'K' || x == 'L' {
        (TokenView::WindowManagement, p + 5)
    } else if x == 'W' && p + 5 < s.len() {
        (TokenView::WindowManagement, p + 6)
    } else {
        unhandled_at(s, start, p)
    }
}

/// `g` at `p`, with a key after it.
pub open spec fn lex_g(s: Seq<char>, start: int, p: int, n: int) -> (TokenView, int) {
    let c = s[p + 1];
    if c == 'g' {
        (TokenView::JumpToLineNumber(s.subrange(start, p)), p + 2)
    } else if c == 'j' || c == 'k' {
        (TokenView::MoveVerticalBasic(n as i32), p + 2)
    } else if c == 'J' {
        (TokenView::TextManipulationBasic(n as i32), p + 2)
    } else if c == '~' || c == 'u' || c == 'U' {
        lex_operator(s, start, p + 2, c, n)
    } else {
        pair_fail(s, start, p)
    }
}

/// The command at `p`, after a count `n` typed at `start..p` (1 when `start == p`).
pub open spec fn lex_command(s: Seq<char>, start: int, p: int, n: int) -> (TokenView, int) {
    let c = s[p];
    if c == 'j' || c == 'k' {
        (TokenView::MoveVerticalBasic(n as i32), p + 1)
    } else if c == 'h' || c == 'l' {
        (TokenView::MoveHorizontalBasic(n as i32), p + 1)
    } else if is_chunk_motion(c) {
        (TokenView::MoveHorizontalChunk(n as i32), p + 1)
    } else if c == 'G' {
        (TokenView::JumpToLineNumber(s.subrange(start, p)), p + 1)
    } else if c == 'x' {
        if starts_with(s, p + 1, "dl"@) {
            (TokenView::TextManipulationBasic(n as i32), p + 3)
        } else {
            (TokenView::DeleteText(n as i32), p + 1)
        }
    } else if c == 'J' {
        (TokenView::TextManipulationBasic(n as i32), p + 1)
    } else if c == 'r' && is_plain(s, p + 1) {
        (TokenView::TextManipulationBasic(n as i32), p + 2)
    } else if c == 'D' {
        (TokenView::DeleteText(n as i32), p + 1)
    } else if c == 'C' || c == 's' || c == 'S' {
        (TokenView::TextManipulationAdvanced, p + 1)
    } else if c == 'Y' || c == 'p' || c == 'P' {
        (TokenView::YankPaste, p + 1)
    } else if c == 'M' || c == 'H' || c == 'L' {
        (TokenView::JumpToVertical, p + 1)
    } else if c == 'u' || c == 'U' {
        (TokenView::UndoRedo, p + 1)
    } else if c == '.' {
        (TokenView::DotRepeat, p + 1)
    } else if is_find(c) && is_plain(s, p + 1) {
        (TokenView::JumpToHorizontal, repeats_end(s, p + 2))
    } else if c == 'g' && p + 1 < s.len() {
        lex_g(s, start, p, n)
    } else if c == 'z' && p + 1 < s.len() && (s[p + 1] == 'z' || s[p + 1] == 't' || s[p
        + 1] == 'b') {
        (TokenView::CameraMovement, p + 2)
    } else if is_chord(s, p) {
        lex_chord(s, start, p, n)
    } else if c == '"' && is_plain(s, p + 1) && digits_end(s, p + 2) < s.len() && (s[digits_end(
        s,
        p + 2,
    )] == 'p' || s[digits_end(s, p + 2)] == 'P') {
        (TokenView::YankPaste, digits_end(s, p + 2) + 1)
    } else if c == 'd' || c == 'y' || c == 'c' {
        lex_operator(s, start, p + 1, c, n)
    } else if c == 'R' {
        lex_replace(s, start, p + 1)
    } else if c == ':' {
        if starts_with(s, p, matchit_keys()) {
            (TokenView::JumpFromContext, p + matchit_keys().len())
        } else {
            lex_command_line(s, start, p + 1)
        }
    } else if c == '/' || c == '?' {
        lex_search(s, start, p + 1)
    } else if c == 'g' || c == 'z' || c == 'r' || is_find(c) {
        pair_fail(s, start, p)
    } else {
        unhandled_at(s, start, p)
    }
}

/// The token that starts at `i` and the position after it.
pub open spec fn lex_at(s: Seq<char>, i: int) -> (TokenView, int) {
    if s[i] == '0' {
        (TokenView::Unhandled(s.subrange(i, i + 1)), i + 1)
    } else if is_digit(s[i]) {
        let j = digits_end(s, i);
        if j >= s.len() {
            (TokenView::Unhandled(s.subrange(i, j)), j)
        } else {
            lex_command(s, i, j, count_of(s, i, j))
        }
    } else {
        lex_command(s, i, i, 1)
    }
}

/// The tokens of `s` from position `i` on.
pub open spec fn tokens_from(s: Seq<char>, i: int) -> Seq<TokenView>
    decreases s.len() - i,
{
    if 0 <= i < s.len() {
        let e = lex_at(s, i).1;
        if i < e <= s.len() {
            seq![lex_at(s, i).0] + tokens_from(s, e)
        } else {
            Seq::empty()
        }
    } else {
        Seq::empty()
    }
}

/// The tokens of the whole input.
pub open spec fn tokens_of(s: Seq<char>) -> Seq<TokenView> {
    tokens_from(s, 0)
}

/// The decimal digit for `d` (0 to 9).
pub open spec fn digit_char(d: nat) -> char {
    if d == 0 {
        '0'
    } else if d == 1 {
        '1'
    } else if d == 2 {
        '2'
    } else if d == 3 {
        '3'
    } else if d == 4 {
        '4'
    } else if d == 5 {
        '5'
    } else if d == 6 {
        '6'
    } else if d == 7 {
        '7'
    } else if d == 8 {
        '8'
    } else {
        '9'
    }
}

/// `n` written in decimal, without leading zeros.
pub open spec fn decimal(n: nat) -> Seq<char>
    decreases n,
{
    if n < 10 {
        seq![digit_char(n)]
    } else {
        decimal(n / 10).push(digit_char(n % 10))
    }
}

proof fn lemma_digit_char(d: nat)
    requires
        d < 10,
    ensures
        is_digit(digit_char(d)),
        digit_value(digit_char(d)) == d,
{
}

/// Every character of `decimal(n)` is a digit, and the first is not `0` when `n >= 1`.
proof fn lemma_decimal_digits(n: nat)
    ensures
        decimal(n).len() >= 1,
        forall|k: int| 0 <= k < decimal(n).len() ==> is_digit(#[trigger] decimal(n)[k]),
        n >= 1 ==> decimal(n)[0] != '0',
    decreases n,
{
    lemma_digit_char(n % 10);
    if n >= 10 {
        lemma_decimal_digits(n / 10);
        assert(decimal(n)[0] == decimal(n / 10)[0]);
    } else {
        lemma_digit_char(n);
    }
}

/// Reading the digits of `decimal(n)` at the start of `s` gives `n`, pinned at 999.
proof fn lemma_count_of_decimal(s: Seq<char>, n: nat)
    requires
        decimal(n).len() <= s.len(),
        s.subrange(0, decimal(n).len() as int) == decimal(n),
    ensures
        count_of(s, 0, decimal(n).len() as int) == if n > 999 {
            999
        } else {
            n as int
        },
    decreases n,
{
    let len = decimal(n).len() as int;
    assert(s[len - 1] == decimal(n)[len - 1]);
    lemma_digit_char(n % 10);
    if n < 10 {
        lemma_digit_char(n);
        assert(count_of(s, 0, 0) == 0);
    } else {
        let prev = decimal(n / 10);
        assert(s.subrange(0, prev.len() as int) =~= prev) by {
            assert(s.subrange(0, prev.len() as int) =~= s.subrange(0, len).subrange(
                0,
                prev.len() as int,
            ));
        }
        lemma_count_of_decimal(s, n / 10);
        let c = count_of(s, 0, len - 1);
        assert(n == (n / 10) * 10 + n % 10);
        if n / 10 > 999 {
            assert(c * 10 + digit_value(s[len - 1]) > 999);
        }
    }
}

/// Where every character of `s[i..j]` is a digit and `s[j]` is not, the digit run at `i` ends at `j`.
proof fn lemma_digits_end_at(s: Seq<char>, i: int, j: int)
    requires
        0 <= i <= j < s.len(),
        forall|k: int| i <= k < j ==> is_digit(#[trigger] s[k]),
        !is_digit(s[j]),
    ensures
        digits_end(s, i) == j,
    decreases j - i,
{
    if i < j {
        lemma_digits_end_at(s, i + 1, j);
    }
}

/// Where every character of `s[i..]` is a digit, the digit run at `i` ends with `s`.
proof fn lemma_digits_end_all(s: Seq<char>, i: int)
    requires
        0 <= i <= s.len(),
        forall|k: int| i <= k < s.len() ==> is_digit(#[trigger] s[k]),
    ensures
        digits_end(s, i) == s.len(),
    decreases s.len() - i,
{
    if i < s.len() {
        lemma_digits_end_all(s, i + 1);
    }
}

/// A count from 1 to 999 typed before a single-step motion (`j`, `k`, `h`, `l`)
/// gives exactly one token, which carries that count; a larger count has all its
/// digits consumed and gives the same token carrying 999.
pub proof fn lemma_count_prefix(n: nat, motion: char)
    requires
        n >= 1,
        motion == 'j' || motion == 'k' || motion == 'h' || motion == 'l',
    ensures
        tokens_of(decimal(n).push(motion)) == seq![
            if motion == 'j' || motion == 'k' {
                TokenView::MoveVerticalBasic(if n > 999 { 999i32 } else { n as i32 })
            } else {
                TokenView::MoveHorizontalBasic(if n > 999 { 999i32 } else { n as i32 })
            },
        ],
{
    let d = decimal(n);
    let s = d.push(motion);
    let len = d.len() as int;
    lemma_decimal_digits(n);
    assert(s.subrange(0, len) =~= d);
    assert forall|k: int| 0 <= k < len implies is_digit(#[trigger] s[k]) by {
        assert(s[k] == d[k]);
    }
    lemma_digits_end_at(s, 0, len);
    lemma_count_of_decimal(s, n);
    assert(s[0] == d[0]);
    let t = lex_at(s, 0);
    assert(t.1 == len + 1);
    assert(tokens_from(s, len + 1) == Seq::<TokenView>::empty());
    assert(tokens_of(s) =~= seq![t.0]);
}

/// Input made only of digits, not starting with `0`, is consumed whole as one
/// unhandled token carrying all of it.
pub proof fn lemma_digits_only(s: Seq<char>)
    requires
        s.len() >= 1,
        all_digits(s),
        s[0] != '0',
    ensures
        tokens_of(s) == seq![TokenView::Unhandled(s)],
{
    lemma_digits_end_all(s, 0);
    assert(s.subrange(0, s.len() as int) =~= s);
    let t = lex_at(s, 0);
    assert(t.1 == s.len());
    assert(tokens_from(s, s.len() as int) == Seq::<TokenView>::empty());
    assert(tokens_of(s) =~= seq![t.0]);
}

/// The digit run at `i` ends within `s`, and holds only digits.
pub proof fn lemma_digits_end(s: Seq<char>, i: int)
    requires
        0 <= i <= s.len(),
    ensures
        i <= digits_end(s, i) <= s.len(),
        forall|k: int| i <= k < digits_end(s, i) ==> is_digit(#[trigger] s[k]),
        digits_end(s, i) < s.len() ==> !is_digit(s[digits_end(s, i)]),
    decreases s.len() - i,
{
    if i < s.len() && is_digit(s[i]) {
        lemma_digits_end(s, i + 1);
    }
}

/// The lengths of the literal keys.
pub proof fn lemma_key_literals()
    ensures
        "<C-"@.len() == 3,
        "<Esc>"@.len() == 5,
        "|enter|"@.len() == 7,
        "|escape|"@.len() == 8,
        "|space|"@.len() == 7,
        "|tab|"@.len() == 5,
        "|backspace|"@.len() == 11,
        "dl"@.len() == 2,
        matchit_keys().len() == 59,
{
    reveal_strlit("<C-");
    reveal_strlit("<Esc>");
    reveal_strlit("|enter|");
    reveal_strlit("|escape|");
    reveal_strlit("|space|");
    reveal_strlit("|tab|");
    reveal_strlit("|backspace|");
    reveal_strlit("dl");
    reveal_strlit(":<C-U>call<Space>matchit#Match_wrapper('',1,'n')|enter|m'zv");
}

proof fn lemma_key_len_bounds(s: Seq<char>, p: int)
    requires
        0 <= p < s.len(),
    ensures
        1 <= key_len(s, p),
        p + key_len(s, p) <= s.len(),
{
    lemma_key_literals();
}

proof fn lemma_repeats_end_bounds(s: Seq<char>, k: int)
    requires
        0 <= k <= s.len(),
    ensures
        k <= repeats_end(s, k) <= s.len(),
    decreases s.len() - k,
{
    if k < s.len() && (s[k] == ';' || s[k] == 'n') {
        lemma_repeats_end_bounds(s, k + 1);
    }
}

proof fn lemma_terminator_bounds(s: Seq<char>, k: int, enter_ends: bool)
    requires
        0 <= k <= s.len(),
    ensures
        terminator_from(s, k, enter_ends) matches Some(t) ==> k <= t.0 < t.1 <= s.len(),
    decreases s.len() - k,
{
    lemma_key_literals();
    if k < s.len() {
        lemma_terminator_bounds(s, k + 1, enter_ends);
    }
}

proof fn lemma_operator_advances(s: Seq<char>, start: int, q: int, op: char, n: int)
    requires
        0 <= start < q <= s.len(),
    ensures
        start < lex_operator(s, start, q, op, n).1 <= s.len(),
{
    lemma_digits_end(s, q);
    let r = motion_count_end(s, q);
    if r + 1 < s.len() {
        lemma_key_len_bounds(s, r + 1);
    }
}

proof fn lemma_command_advances(s: Seq<char>, start: int, p: int, n: int)
    requires
        0 <= start <= p < s.len(),
    ensures
        start < lex_command(s, start, p, n).1 <= s.len(),
{
    lemma_key_literals();
    lemma_key_len_bounds(s, p);
    if p + 1 < s.len() {
        lemma_key_len_bounds(s, p + 1);
        lemma_operator_advances(s, start, p + 2, s[p + 1], n);
    }
    if p + 2 <= s.len() {
        lemma_repeats_end_bounds(s, p + 2);
        lemma_digits_end(s, p + 2);
    }
    lemma_operator_advances(s, start, p + 1, s[p], n);
    lemma_terminator_bounds(s, p + 1, true);
    lemma_terminator_bounds(s, p + 1, false);
}

/// Each token consumes at least one character and never reads past the end, so
/// the tokens of an input account for every one of its characters.
pub proof fn lemma_lex_advances(s: Seq<char>, i: int)
    requires
        0 <= i < s.len(),
    ensures
        i < lex_at(s, i).1 <= s.len(),
{
    lemma_digits_end(s, i);
    lemma_digits_end(s, i + 1);
    let j = digits_end(s, i);
    if j < s.len() {
        lemma_command_advances(s, i, j, count_of(s, i, j));
    }
    lemma_command_advances(s, i, i, 1);
}

} // verus!
