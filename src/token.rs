//! The tokens the lexer yields.
use vstd::prelude::*;

verus! {

/// One recognised group of keystrokes.
///
/// Variants that carry an `i32` carry a repeat count: 1 when none was typed,
/// never above 999. The `bool` of a command-line token is `true` when the
/// command was finished with enter and `false` when it was abandoned with escape.
#[derive(Debug, Clone, PartialEq, Eq)]
pub enum Token {
    /// `j`, `k`, `gj`, `gk`.
    MoveVerticalBasic(i32),
    /// `h`, `l`.
    MoveHorizontalBasic(i32),
    /// `<C-U>`, `<C-D>`.
    MoveVerticalChunk(i32),
    /// `w`, `W`, `e`, `E`, `b`, `B`.
    MoveHorizontalChunk(i32),
    /// `f`, `F`, `t`, `T` with their target, and any `;` or `n` repeats after it.
    JumpToHorizontal,
    /// `gg`, `G` (the typed count, possibly empty) or `:<digits>` (the digits).
    JumpToLineNumber(String),
    /// `M`, `H`, `L`, `<C-F>`, `<C-B>`.
    JumpToVertical,
    /// What the `%` key is recorded as.
    JumpFromContext,
    /// `zz`, `zt`, `zb`, `<C-E>`, `<C-Y>`.
    CameraMovement,
    /// `<C-W>` and the window command after it, `<C-H>`, `<C-J>`, `<C-K>`, `<C-L>`.
    WindowManagement,
    /// `x` recorded as `xdl`, `J`, `gJ`, `r` with its replacement.
    TextManipulationBasic(i32),
    /// Change operations, case operators and replace mode.
    TextManipulationAdvanced,
    /// Yank operations and pastes.
    YankPaste,
    /// `u`, `U`, `<C-R>`.
    UndoRedo,
    /// `.`.
    DotRepeat,
    /// A search typed after `/` or `?`.
    CommandSearch(bool),
    /// Delete operations and `x`.
    DeleteText(i32),
    /// Any other command line.
    Command(bool),
    /// `:h` or `:help`.
    HelpPage(bool),
    /// `:w` or `:w!`.
    SaveFile(bool),
    /// A fragment that no rule recognises, kept as it was typed.
    Unhandled(String),
}

/// A [`Token`] with its text payloads seen as character sequences.
pub enum TokenView {
    MoveVerticalBasic(i32),
    MoveHorizontalBasic(i32),
    MoveVerticalChunk(i32),
    MoveHorizontalChunk(i32),
    JumpToHorizontal,
    JumpToLineNumber(Seq<char>),
    JumpToVertical,
    JumpFromContext,
    CameraMovement,
    WindowManagement,
    TextManipulationBasic(i32),
    TextManipulationAdvanced,
    YankPaste,
    UndoRedo,
    DotRepeat,
    CommandSearch(bool),
    DeleteText(i32),
    Command(bool),
    HelpPage(bool),
    SaveFile(bool),
    Unhandled(Seq<char>),
}

impl View for Token {
    type V = TokenView;

    open spec fn view(&self) -> TokenView {
        match self {
            Token::MoveVerticalBasic(n) => TokenView::MoveVerticalBasic(*n),
            Token::MoveHorizontalBasic(n) => TokenView::MoveHorizontalBasic(*n),
            Token::MoveVerticalChunk(n) => TokenView::MoveVerticalChunk(*n),
            Token::MoveHorizontalChunk(n) => TokenView::MoveHorizontalChunk(*n),
            Token::JumpToHorizontal => TokenView::JumpToHorizontal,
            Token::JumpToLineNumber(s) => TokenView::JumpToLineNumber(s@),
            Token::JumpToVertical => TokenView::JumpToVertical,
            Token::JumpFromContext => TokenView::JumpFromContext,
            Token::CameraMovement => TokenView::CameraMovement,
            Token::WindowManagement => TokenView::WindowManagement,
            Token::TextManipulationBasic(n) => TokenView::TextManipulationBasic(*n),
            Token::TextManipulationAdvanced => TokenView::TextManipulationAdvanced,
            Token::YankPaste => TokenView::YankPaste,
            Token::UndoRedo => TokenView::UndoRedo,
            Token::DotRepeat => TokenView::DotRepeat,
            Token::CommandSearch(b) => TokenView::CommandSearch(*b),
            Token::DeleteText(n) => TokenView::DeleteText(*n),
            Token::Command(b) => TokenView::Command(*b),
            Token::HelpPage(b) => TokenView::HelpPage(*b),
            Token::SaveFile(b) => TokenView::SaveFile(*b),
            Token::Unhandled(s) => TokenView::Unhandled(s@),
        }
    }
}

/// The repeat count a token carries, 1 for tokens that carry none.
pub open spec fn token_count(t: TokenView) -> int {
    match t {
        TokenView::MoveVerticalBasic(n) => n as int,
        TokenView::MoveHorizontalBasic(n) => n as int,
        TokenView::MoveVerticalChunk(n) => n as int,
        TokenView::MoveHorizontalChunk(n) => n as int,
        TokenView::TextManipulationBasic(n) => n as int,
        TokenView::DeleteText(n) => n as int,
        _ => 1,
    }
}

/// The count of the token is within 1 to 999, as every lexed token's is.
pub open spec fn count_in_range(t: TokenView) -> bool {
    1 <= token_count(t) <= 999
}

} // verus!
