//! The tokenizer: a cursor over recorded keystrokes that yields one token per
//! keystroke group, as `grammar::lex_at` states it.
//!
//! Each lexing state (after a count, operator pending, command line, search,
//! replace mode) is a function that reads forward with loops and hands over to
//! the next state by a plain call, so the call depth is bounded whatever the input.
use vstd::prelude::*;

use crate::grammar::{
    all_digits, command_token, count_of, digit_value, digits_end, is_alnum, is_chord, is_digit,
    is_find, is_motion, is_plain, is_text_object, is_word, key_len, lemma_digits_end,
    lemma_key_literals, lex_at, lex_chord, lex_command, lex_command_line, lex_g, lex_operator,
    lex_replace, lex_search, motion_count, motion_count_end, operator_token, pair_fail,
    repeats_end, saturate, starts_with, terminator_from, tokens_from, tokens_of, unhandled_at,
    MAX_COUNT,
};
use crate::token::{count_in_range, Token, TokenView};

verus! {

/// Relies on `String::push`: the character is appended.
#[verifier::external_body]
pub(crate) fn push_char(s: &mut String, c: char)
    ensures
        final(s)@ == old(s)@.push(c),
{
    s.push(c);
}

/// The characters `s[from..to]` as a `String`.
fn text_of(s: &Vec<char>, from: usize, to: usize) -> (r: String)
    requires
        from <= to <= s.len(),
    ensures
        r@ == s@.subrange(from as int, to as int),
{
    let mut r = String::new();
    let mut k = from;
    while k < to
        invariant
            from <= k <= to <= s.len(),
            r@ == s@.subrange(from as int, k as int),
        decreases to - k,
    {
        push_char(&mut r, s[k]);
        k += 1;
        assert(r@ =~= s@.subrange(from as int, k as int));
    }
    r
}

/// Collects the characters of `input`.
fn chars_of(input: &str) -> (r: Vec<char>)
    ensures
        r@ == input@,
{
    let mut r: Vec<char> = Vec::new();
    for c in it: input.chars()
        invariant
            r@ == it.seq().take(it.index() as int),
    {
        r.push(c);
    }
    proof {
        broadcast use vstd::string::axiom_spec_iter;
    }
    r
}

/// Whether `w` is written in `s` at `p`.
fn starts_at(s: &Vec<char>, p: usize, w: &str) -> (r: bool)
    ensures
        r == starts_with(s@, p as int, w@),
{
    let n = w.unicode_len();
    if p > s.len() || n > s.len() - p {
        return false;
    }
    let mut k: usize = 0;
    while k < n
        invariant
            n == w@.len(),
            p + n <= s.len(),
            k <= n,
            forall|j: int| 0 <= j < k ==> s@[p + j] == w@[j],
        decreases n - k,
    {
        if s[p + k] != w.get_char(k) {
            assert(s@.subrange(p as int, p + n)[k as int] != w@[k as int]);
            return false;
        }
        k += 1;
    }
    assert(s@.subrange(p as int, p + n) =~= w@);
    true
}

fn is_digit_char(c: char) -> (r: bool)
    ensures
        r == is_digit(c),
{
    '0' <= c && c <= '9'
}

fn chord_at(s: &Vec<char>, p: usize) -> (r: bool)
    ensures
        r == is_chord(s@, p as int),
{
    proof {
        lemma_key_literals();
    }
    starts_at(s, p, "<C-") && s.len() - p > 4 && s[p + 4] == '>'
}

/// Length of the keystroke at `p`.
fn key_len_at(s: &Vec<char>, p: usize) -> (r: usize)
    requires
        p < s.len(),
    ensures
        r == key_len(s@, p as int),
        1 <= r,
        p + r <= s.len(),
{
    proof {
        lemma_key_literals();
    }
    if chord_at(s, p) {
        5
    } else if starts_at(s, p, "<Esc>") {
        5
    } else if starts_at(s, p, "|enter|") {
        7
    } else if starts_at(s, p, "|escape|") {
        8
    } else if starts_at(s, p, "|space|") {
        7
    } else if starts_at(s, p, "|tab|") {
        5
    } else if starts_at(s, p, "|backspace|") {
        11
    } else {
        1
    }
}

fn plain_at(s: &Vec<char>, p: usize) -> (r: bool)
    ensures
        r == is_plain(s@, p as int),
{
    p < s.len() && key_len_at(s, p) == 1
}

/// A token with the position after it, checked against the grammar.
pub open spec fn lexed(r: (Token, usize), g: (TokenView, int)) -> bool {
    r.0@ == g.0 && r.1 as int == g.1
}

fn unhandled(s: &Vec<char>, start: usize, p: usize) -> (r: (Token, usize))
    requires
        start <= p <= s.len(),
        start < p || p < s.len(),
    ensures
        lexed(r, unhandled_at(s@, start as int, p as int)),
        start < r.1 <= s.len(),
        count_in_range(r.0@),
{
    if start < p {
        (Token::Unhandled(text_of(s, start, p)), p)
    } else {
        let k = key_len_at(s, p);
        (Token::Unhandled(text_of(s, p, p + k)), p + k)
    }
}

fn pair_failed(s: &Vec<char>, start: usize, p: usize) -> (r: (Token, usize))
    requires
        start <= p < s.len(),
    ensures
        lexed(r, pair_fail(s@, start as int, p as int)),
        start < r.1 <= s.len(),
        count_in_range(r.0@),
{
    if start < p {
        unhandled(s, start, p)
    } else if plain_at(s, p + 1) {
        (Token::Unhandled(text_of(s, p, p + 2)), p + 2)
    } else {
        (Token::Unhandled(text_of(s, p, p + 1)), p + 1)
    }
}

/// Reads the digits at `i`: where they end, and their value pinned at 999.
fn read_count(s: &Vec<char>, i: usize) -> (r: (usize, i32))
    requires
        i <= s.len(),
    ensures
        r.0 == digits_end(s@, i as int),
        r.1 == count_of(s@, i as int, r.0 as int),
        i <= r.0 <= s.len(),
        0 <= r.1 <= MAX_COUNT,
{
    let mut j = i;
    let mut n: i32 = 0;
    while j < s.len() && is_digit_char(s[j])
        invariant
            i <= j <= s.len(),
            digits_end(s@, i as int) == digits_end(s@, j as int),
            n == count_of(s@, i as int, j as int),
            0 <= n <= MAX_COUNT,
        decreases s.len() - j,
    {
        let d = ((s[j] as u32) - ('0' as u32)) as i32;
        let v = n * 10 + d;
        n = if v > MAX_COUNT {
            MAX_COUNT
        } else {
            v
        };
        j += 1;
    }
    (j, n)
}

fn find_repeats_end(s: &Vec<char>, k: usize) -> (r: usize)
    requires
        k <= s.len(),
    ensures
        r == repeats_end(s@, k as int),
        k <= r <= s.len(),
{
    let mut j = k;
    while j < s.len() && (s[j] == ';' || s[j] == 'n')
        invariant
            k <= j <= s.len(),
            repeats_end(s@, k as int) == repeats_end(s@, j as int),
        decreases s.len() - j,
    {
        j += 1;
    }
    j
}

/// The first terminator at or after `k`, as `terminator_from` states it.
fn find_terminator(s: &Vec<char>, k: usize, enter_ends: bool) -> (r: Option<(usize, usize, bool)>)
    requires
        k <= s.len(),
    ensures
        terminator_from(s@, k as int, enter_ends) == match r {
            None => None,
            Some(t) => Some((t.0 as int, t.1 as int, t.2)),
        },
        r matches Some(t) ==> k <= t.0 < t.1 <= s.len(),
{
    let mut j = k;
    while j < s.len()
        invariant
            k <= j <= s.len(),
            terminator_from(s@, k as int, enter_ends) == terminator_from(s@, j as int, enter_ends),
        decreases s.len() - j,
    {
        proof {
            lemma_key_literals();
        }
        if enter_ends && starts_at(s, j, "|enter|") {
            return Some((j, j + 7, true));
        } else if starts_at(s, j, "|escape|") {
            return Some((j, j + 8, false));
        } else if starts_at(s, j, "<Esc>") {
            return Some((j, j + 5, false));
        }
        j += 1;
    }
    None
}

fn is_alnum_char(c: char) -> (r: bool)
    ensures
        r == is_alnum(c),
{
    is_digit_char(c) || ('a' <= c && c <= 'z') || ('A' <= c && c <= 'Z')
}

/// Whether `s[from..to]` is the word `w`, as `is_word` states it.
fn word_at(s: &Vec<char>, from: usize, to: usize, w: &str) -> (r: bool)
    requires
        from <= to <= s.len(),
    ensures
        r == is_word(s@.subrange(from as int, to as int), w@),
{
    let ghost b = s@.subrange(from as int, to as int);
    let n = w.unicode_len();
    if to - from < n {
        return false;
    }
    assert(b.subrange(0, n as int) =~= s@.subrange(from as int, from + n));
    if !starts_at(s, from, w) {
        return false;
    }
    if to - from == n {
        true
    } else {
        assert(b[n as int] == s@[from + n]);
        !is_alnum_char(s[from + n])
    }
}

fn digits_only(s: &Vec<char>, from: usize, to: usize) -> (r: bool)
    requires
        from <= to <= s.len(),
    ensures
        r == all_digits(s@.subrange(from as int, to as int)),
{
    let ghost b = s@.subrange(from as int, to as int);
    let mut k = from;
    while k < to
        invariant
            from <= k <= to <= s.len(),
            b == s@.subrange(from as int, to as int),
            forall|j: int| 0 <= j < k - from ==> is_digit(#[trigger] b[j]),
        decreases to - k,
    {
        if !is_digit_char(s[k]) {
            assert(!is_digit(b[k - from]));
            return false;
        }
        k += 1;
    }
    true
}

/// The token of a finished command line whose content is `s[q..e]`.
fn command_line_token(s: &Vec<char>, q: usize, e: usize, completed: bool) -> (r: Token)
    requires
        q <= e <= s.len(),
    ensures
        r@ == command_token(s@.subrange(q as int, e as int), completed),
        count_in_range(r@),
{
    if e > q && digits_only(s, q, e) {
        Token::JumpToLineNumber(text_of(s, q, e))
    } else if word_at(s, q, e, "h") || word_at(s, q, e, "help") {
        Token::HelpPage(completed)
    } else if word_at(s, q, e, "w") || word_at(s, q, e, "w!") {
        Token::SaveFile(completed)
    } else {
        Token::Command(completed)
    }
}

/// Command-line state: the content starts at `q`.
fn lex_command_line_state(s: &Vec<char>, start: usize, q: usize) -> (r: (Token, usize))
    requires
        start < q <= s.len(),
    ensures
        lexed(r, lex_command_line(s@, start as int, q as int)),
        start < r.1 <= s.len(),
        count_in_range(r.0@),
{
    match find_terminator(s, q, true) {
        None => (Token::Unhandled(text_of(s, start, s.len())), s.len()),
        Some(t) => (command_line_token(s, q, t.0, t.2), t.1),
    }
}

/// Search state: the pattern starts at `q`.
fn lex_search_state(s: &Vec<char>, start: usize, q: usize) -> (r: (Token, usize))
    requires
        start < q <= s.len(),
    ensures
        lexed(r, lex_search(s@, start as int, q as int)),
        start < r.1 <= s.len(),
        count_in_range(r.0@),
{
    match find_terminator(s, q, true) {
        None => (Token::Unhandled(text_of(s, start, s.len())), s.len()),
        Some(t) => (Token::CommandSearch(t.2), t.1),
    }
}

/// Replace-mode state: the typed text starts at `q`.
fn lex_replace_state(s: &Vec<char>, start: usize, q: usize) -> (r: (Token, usize))
    requires
        start < q <= s.len(),
    ensures
        lexed(r, lex_replace(s@, start as int, q as int)),
        start < r.1 <= s.len(),
        count_in_range(r.0@),
{
    match find_terminator(s, q, false) {
        None => (Token::Unhandled(text_of(s, start, s.len())), s.len()),
        Some(t) => (Token::TextManipulationAdvanced, t.1),
    }
}

fn is_motion_char(c: char) -> (r: bool)
    ensures
        r == is_motion(c),
{
    c == 'w' || c == 'W' || c == 'e' || c == 'E' || c == 'b' || c == 'B' || c == '$' || c == '^'
        || c == '0' || c == 'j' || c == 'k' || c == 'h' || c == 'l'
}

fn is_find_char(c: char) -> (r: bool)
    ensures
        r == is_find(c),
{
    c == 'f' || c == 'F' || c == 't' || c == 'T'
}

fn is_text_object_char(c: char) -> (r: bool)
    ensures
        r == is_text_object(c),
{
    c == 'w' || c == 'W' || c == 's' || c == 'p' || c == '(' || c == ')' || c == '[' || c == ']'
        || c == '{' || c == '}' || c == '<' || c == '>' || c == '"' || c == '\'' || c == '`'
        || c == 'b' || c == 'B' || c == 't'
}

fn operator_result(op: char, n: i32) -> (r: Token)
    requires
        1 <= n <= MAX_COUNT,
    ensures
        r@ == operator_token(op, n as int),
        count_in_range(r@),
{
    if op == 'd' {
        Token::DeleteText(n)
    } else if op == 'y' {
        Token::YankPaste
    } else {
        Token::TextManipulationAdvanced
    }
}

/// Operator-pending state, for `d`, `y`, `c` and the case operators.
fn lex_operator_state(s: &Vec<char>, start: usize, q: usize, op: char, n: i32) -> (r: (
    Token,
    usize,
))
    requires
        start < q <= s.len(),
        1 <= n <= MAX_COUNT,
    ensures
        lexed(r, lex_operator(s@, start as int, q as int, op, n as int)),
        start < r.1 <= s.len(),
        count_in_range(r.0@),
{
    let (r, m) = if q < s.len() && is_digit_char(s[q]) && s[q] != '0' {
        let rc = read_count(s, q);
        proof {
            lemma_digits_end(s@, q as int);
            lemma_digits_end(s@, q + 1);
            lemma_count_positive(s@, q as int, rc.0 as int);
        }
        rc
    } else {
        (q, 1)
    };
    assert(r == motion_count_end(s@, q as int));
    assert(m == motion_count(s@, q as int, r as int));
    assert(1 <= (n as i64) * (m as i64) <= 999 * 999) by (nonlinear_arith)
        requires
            1 <= n <= 999,
            1 <= m <= 999,
    ;
    let total: i32 = if (n as i64) * (m as i64) > MAX_COUNT as i64 {
        MAX_COUNT
    } else {
        n * m
    };
    assert(total == saturate(n * m));
    if r >= s.len() {
        unhandled(s, start, r)
    } else if s[r] == op || is_motion_char(s[r]) {
        (operator_result(op, total), r + 1)
    } else if (s[r] == 'i' || s[r] == 'a') && r + 1 < s.len() && is_text_object_char(s[r + 1]) {
        (operator_result(op, total), r + 2)
    } else if s[r] == 'g' && r + 1 < s.len() && (s[r + 1] == 'g' || s[r + 1] == 'j' || s[r + 1]
        == 'k' || s[r + 1] == 'e' || s[r + 1] == 'E') {
        (operator_result(op, total), r + 2)
    } else if is_find_char(s[r]) && plain_at(s, r + 1) {
        (operator_result(op, total), r + 2)
    } else {
        unhandled(s, start, r)
    }
}

/// A count read from digits that start with a non-zero digit is at least 1.
proof fn lemma_count_positive(s: Seq<char>, i: int, j: int)
    requires
        i < j,
        forall|k: int| i <= k < j ==> is_digit(#[trigger] s[k]),
        s[i] != '0',
    ensures
        1 <= count_of(s, i, j) <= MAX_COUNT,
    decreases j - i,
{
    assert(0 <= digit_value(s[j - 1]) <= 9);
    assert(count_of(s, i, i) == 0);
    if j - 1 > i {
        lemma_count_positive(s, i, j - 1);
        let c = count_of(s, i, j - 1);
        assert(c * 10 >= 10) by (nonlinear_arith)
            requires
                c >= 1,
        ;
    }
}

/// The chord `<C-X>` at `p`.
fn lex_chord_state(s: &Vec<char>, start: usize, p: usize, n: i32) -> (r: (Token, usize))
    requires
        start <= p < s.len(),
        is_chord(s@, p as int),
        1 <= n <= MAX_COUNT,
    ensures
        lexed(r, lex_chord(s@, start as int, p as int, n as int)),
        start < r.1 <= s.len(),
        count_in_range(r.0@),
{
    let x = s[p + 3];
    if x == 'U' || x == 'D' {
        (Token::MoveVerticalChunk(n), p + 5)
    } else if x == 'F' || x == 'B' {
        (Token::JumpToVertical, p + 5)
    } else if x == 'E' || x == 'Y' {
        (Token::CameraMovement, p + 5)
    } else if x == 'R' {
        (Token::UndoRedo, p + 5)
    } else if x == 'H' || x == 'J' || x == 'K' || x == 'L' {
        (Token::WindowManagement, p + 5)
    } else if x == 'W' && s.len() - p > 5 {
        (Token::WindowManagement, p + 6)
    } else {
        unhandled(s, start, p)
    }
}

/// `g` at `p`, with a key after it.
fn lex_g_state(s: &Vec<char>, start: usize, p: usize, n: i32) -> (r: (Token, usize))
    requires
        start <= p,
        p + 1 < s.len(),
        1 <= n <= MAX_COUNT,
    ensures
        lexed(r, lex_g(s@, start as int, p as int, n as int)),
        start < r.1 <= s.len(),
        count_in_range(r.0@),
{
    let c = s[p + 1];
    if c == 'g' {
        (Token::JumpToLineNumber(text_of(s, start, p)), p + 2)
    } else if c == 'j' || c == 'k' {
        (Token::MoveVerticalBasic(n), p + 2)
    } else if c == 'J' {
        (Token::TextManipulationBasic(n), p + 2)
    } else if c == '~' || c == 'u' || c == 'U' {
        lex_operator_state(s, start, p + 2, c, n)
    } else {
        pair_failed(s, start, p)
    }
}

/// The command at `p`, after the count `n` typed at `start..p`.
fn lex_command_state(s: &Vec<char>, start: usize, p: usize, n: i32) -> (r: (Token, usize))
    requires
        start <= p < s.len(),
        1 <= n <= MAX_COUNT,
    ensures
        lexed(r, lex_command(s@, start as int, p as int, n as int)),
        start < r.1 <= s.len(),
        count_in_range(r.0@),
{
    proof {
        lemma_key_literals();
    }
    let c = s[p];
    if c == 'j' || c == 'k' {
        (Token::MoveVerticalBasic(n), p + 1)
    } else if c == 'h' || c == 'l' {
        (Token::MoveHorizontalBasic(n), p + 1)
    } else if c == 'w' || c == 'W' || c == 'e' || c == 'E' || c == 'b' || c == 'B' {
        (Token::MoveHorizontalChunk(n), p + 1)
    } else if c == 'G' {
        (Token::JumpToLineNumber(text_of(s, start, p)), p + 1)
    } else if c == 'x' {
        if starts_at(s, p + 1, "dl") {
            (Token::TextManipulationBasic(n), p + 3)
        } else {
            (Token::DeleteText(n), p + 1)
        }
    } else if c == 'J' {
        (Token::TextManipulationBasic(n), p + 1)
    } else if c == 'r' && plain_at(s, p + 1) {
        (Token::TextManipulationBasic(n), p + 2)
    } else if c == 'D' {
        (Token::DeleteText(n), p + 1)
    } else if c == 'C' || c == 's' || c == 'S' {
        (Token::TextManipulationAdvanced, p + 1)
    } else if c == 'Y' || c == 'p' || c == 'P' {
        (Token::YankPaste, p + 1)
    } else if c == 'M' || c == 'H' || c == 'L' {
        (Token::JumpToVertical, p + 1)
    } else if c == 'u' || c == 'U' {
        (Token::UndoRedo, p + 1)
    } else if c == '.' {
        (Token::DotRepeat, p + 1)
    } else if is_find_char(c) && plain_at(s, p + 1) {
        (Token::JumpToHorizontal, find_repeats_end(s, p + 2))
    } else if c == 'g' && p + 1 < s.len() {
        lex_g_state(s, start, p, n)
    } else if c == 'z' && p + 1 < s.len() && (s[p + 1] == 'z' || s[p + 1] == 't' || s[p + 1]
        == 'b') {
        (Token::CameraMovement, p + 2)
    } else if chord_at(s, p) {
        lex_chord_state(s, start, p, n)
    } else if c == '"' && plain_at(s, p + 1) && paste_end(s, p).is_some() {
        (Token::YankPaste, paste_end(s, p).unwrap())
    } else if c == 'd' || c == 'y' || c == 'c' {
        lex_operator_state(s, start, p + 1, c, n)
    } else if c == 'R' {
        lex_replace_state(s, start, p + 1)
    } else if c == ':' {
        let keys = ":<C-U>call<Space>matchit#Match_wrapper('',1,'n')|enter|m'zv";
        if starts_at(s, p, keys) {
            (Token::JumpFromContext, p + keys.unicode_len())
        } else {
            lex_command_line_state(s, start, p + 1)
        }
    } else if c == '/' || c == '?' {
        lex_search_state(s, start, p + 1)
    } else if c == 'g' || c == 'z' || c == 'r' || is_find_char(c) {
        pair_failed(s, start, p)
    } else {
        unhandled(s, start, p)
    }
}

/// After `"` and a register name at `p`: the end of `<digits>p` or `<digits>P`.
fn paste_end(s: &Vec<char>, p: usize) -> (r: Option<usize>)
    requires
        p + 1 < s.len(),
    ensures
        r matches Some(e) ==> digits_end(s@, p + 2) < s.len() && (s@[digits_end(s@, p + 2)]
            == 'p' || s@[digits_end(s@, p + 2)] == 'P') && e == digits_end(s@, p + 2) + 1 && e
            <= s.len() && p + 2 < e,
        r is None ==> !(digits_end(s@, p + 2) < s.len() && (s@[digits_end(s@, p + 2)] == 'p'
            || s@[digits_end(s@, p + 2)] == 'P')),
{
    let (d, _) = read_count(s, p + 2);
    if d < s.len() && (s[d] == 'p' || s[d] == 'P') {
        Some(d + 1)
    } else {
        None
    }
}

/// The token that starts at `i`, and the position after it.
fn lex_token(s: &Vec<char>, i: usize) -> (r: (Token, usize))
    requires
        i < s.len(),
    ensures
        lexed(r, lex_at(s@, i as int)),
        i < r.1 <= s.len(),
        count_in_range(r.0@),
{
    let c = s[i];
    if c == '0' {
        (Token::Unhandled(text_of(s, i, i + 1)), i + 1)
    } else if is_digit_char(c) {
        let (j, n) = read_count(s, i);
        proof {
            lemma_digits_end(s@, i as int);
            lemma_digits_end(s@, i + 1);
            lemma_count_positive(s@, i as int, j as int);
        }
        if j >= s.len() {
            (Token::Unhandled(text_of(s, i, j)), j)
        } else {
            lex_command_state(s, i, j, n)
        }
    } else {
        lex_command_state(s, i, i, 1)
    }
}

/// A cursor over recorded keystrokes.
pub struct Lexer {
    input: Vec<char>,
    position: usize,
    token_start: usize,
}

impl Lexer {
    /// The keystrokes being read.
    pub closed spec fn text(&self) -> Seq<char> {
        self.input@
    }

    /// How many characters have been consumed.
    pub closed spec fn pos(&self) -> int {
        self.position as int
    }

    /// Where the last token returned started.
    pub closed spec fn last_start(&self) -> int {
        self.token_start as int
    }

    pub closed spec fn wf(&self) -> bool {
        self.token_start <= self.position <= self.input.len()
    }

    /// A lexer at the start of `input`.
    pub fn new(input: &str) -> (l: Self)
        ensures
            l.wf(),
            l.text() == input@,
            l.pos() == 0,
            l.last_start() == 0,
    {
        Lexer { input: chars_of(input), position: 0, token_start: 0 }
    }

    /// The next token, or `None` once every character has been consumed.
    pub fn next_token(&mut self) -> (r: Option<Token>)
        requires
            old(self).wf(),
        ensures
            final(self).wf(),
            final(self).text() == old(self).text(),
            old(self).pos() >= old(self).text().len() ==> r is None && *final(self) == *old(self),
            old(self).pos() < old(self).text().len() ==> (r matches Some(t) && t@ == lex_at(
                old(self).text(),
                old(self).pos(),
            ).0 && count_in_range(t@)),
            old(self).pos() < old(self).text().len() ==> final(self).pos() == lex_at(
                old(self).text(),
                old(self).pos(),
            ).1 && final(self).last_start() == old(self).pos(),
            old(self).pos() < old(self).text().len() ==> old(self).pos() < final(self).pos()
                <= old(self).text().len(),
    {
        if self.position >= self.input.len() {
            return None;
        }
        let (t, e) = lex_token(&self.input, self.position);
        self.token_start = self.position;
        self.position = e;
        Some(t)
    }

    /// The text of the last token returned.
    pub fn slice(&self) -> (r: String)
        requires
            self.wf(),
        ensures
            r@ == self.text().subrange(self.last_start(), self.pos()),
    {
        text_of(&self.input, self.token_start, self.position)
    }
}

/// Every token of `input`, in order.
pub fn parse_tokens(input: &str) -> (r: Vec<Token>)
    ensures
        r@.map_values(|t: Token| t@) == tokens_of(input@),
        forall|k: int| 0 <= k < r.len() ==> count_in_range(#[trigger] r@[k]@),
{
    let mut lexer = Lexer::new(input);
    let mut tokens: Vec<Token> = Vec::new();
    loop
        invariant
            lexer.wf(),
            lexer.text() == input@,
            0 <= lexer.pos() <= input@.len(),
            tokens@.map_values(|t: Token| t@) + tokens_from(input@, lexer.pos()) == tokens_of(
                input@,
            ),
            forall|k: int| 0 <= k < tokens.len() ==> count_in_range(#[trigger] tokens@[k]@),
        decreases input@.len() - lexer.pos(),
    {
        let ghost before = lexer.pos();
        match lexer.next_token() {
            None => {
                assert(tokens_from(input@, before) =~= Seq::<TokenView>::empty());
                assert(tokens@.map_values(|t: Token| t@) =~= tokens@.map_values(|t: Token| t@)
                    + tokens_from(input@, before));
                return tokens;
            },
            Some(t) => {
                let ghost prev = tokens@.map_values(|t: Token| t@);
                tokens.push(t);
                assert(tokens@.map_values(|t: Token| t@) =~= prev.push(t@));
                assert(tokens@.map_values(|t: Token| t@) + tokens_from(input@, lexer.pos())
                    =~= prev + tokens_from(input@, before));
            },
        }
    }
}

} // verus!
