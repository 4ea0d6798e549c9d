//! Classifying tokens into skill experience.
use vstd::prelude::*;

use crate::skills::Skills;
use crate::token::{count_in_range, Token, TokenView};

verus! {

/// Experience of a command-line token: an abandoned command earns more than a
/// finished one.
pub open spec fn command_exp(completed: bool) -> i32 {
    if completed {
        1
    } else {
        10
    }
}

/// The skill and experience a token earns; unhandled fragments earn nothing.
pub open spec fn skill_of(t: TokenView) -> Option<Skills> {
    match t {
        TokenView::MoveVerticalBasic(n) => Some(Skills::VerticalNavigation(n)),
        TokenView::MoveHorizontalBasic(n) => Some(Skills::HorizontalNavigation(n)),
        TokenView::MoveVerticalChunk(n) => Some(Skills::VerticalNavigation((5 * n) as i32)),
        TokenView::MoveHorizontalChunk(n) => Some(Skills::HorizontalNavigation((5 * n) as i32)),
        TokenView::JumpToHorizontal => Some(Skills::HorizontalNavigation(10)),
        TokenView::JumpToLineNumber(_) => Some(Skills::VerticalNavigation(10)),
        TokenView::JumpToVertical => Some(Skills::VerticalNavigation(10)),
        TokenView::JumpFromContext => Some(Skills::CodeFlow(10)),
        TokenView::CameraMovement => Some(Skills::CameraMovement(10)),
        TokenView::WindowManagement => Some(Skills::WindowManagement(10)),
        TokenView::TextManipulationBasic(n) => Some(Skills::TextManipulation(n)),
        TokenView::TextManipulationAdvanced => Some(Skills::TextManipulation(10)),
        TokenView::YankPaste => Some(Skills::Clipboard(10)),
        TokenView::UndoRedo => Some(Skills::Clipboard(10)),
        TokenView::DotRepeat => Some(Skills::Finesse(10)),
        TokenView::CommandSearch(c) => Some(Skills::Search(command_exp(c))),
        TokenView::DeleteText(n) => Some(Skills::TextManipulation(n)),
        TokenView::Command(c) => Some(Skills::Finesse(command_exp(c))),
        TokenView::HelpPage(c) => Some(Skills::Knowledge(command_exp(c))),
        TokenView::SaveFile(c) => Some(Skills::Saving(command_exp(c))),
        TokenView::Unhandled(_) => None,
    }
}

/// The skill experience a token earns, if any.
pub fn classify(token: &Token) -> (r: Option<Skills>)
    requires
        count_in_range(token@),
    ensures
        r == skill_of(token@),
{
    match token {
        Token::MoveVerticalBasic(n) => Some(Skills::VerticalNavigation(*n)),
        Token::MoveHorizontalBasic(n) => Some(Skills::HorizontalNavigation(*n)),
        Token::MoveVerticalChunk(n) => Some(Skills::VerticalNavigation(5 * *n)),
        Token::MoveHorizontalChunk(n) => Some(Skills::HorizontalNavigation(5 * *n)),
        Token::JumpToHorizontal => Some(Skills::HorizontalNavigation(10)),
        Token::JumpToLineNumber(_) => Some(Skills::VerticalNavigation(10)),
        Token::JumpToVertical => Some(Skills::VerticalNavigation(10)),
        Token::JumpFromContext => Some(Skills::CodeFlow(10)),
        Token::CameraMovement => Some(Skills::CameraMovement(10)),
        Token::WindowManagement => Some(Skills::WindowManagement(10)),
        Token::TextManipulationBasic(n) => Some(Skills::TextManipulation(*n)),
        Token::TextManipulationAdvanced => Some(Skills::TextManipulation(10)),
        Token::YankPaste => Some(Skills::Clipboard(10)),
        Token::UndoRedo => Some(Skills::Clipboard(10)),
        Token::DotRepeat => Some(Skills::Finesse(10)),
        Token::CommandSearch(c) => Some(Skills::Search(if *c { 1 } else { 10 })),
        Token::DeleteText(n) => Some(Skills::TextManipulation(*n)),
        Token::Command(c) => Some(Skills::Finesse(if *c { 1 } else { 10 })),
        Token::HelpPage(c) => Some(Skills::Knowledge(if *c { 1 } else { 10 })),
        Token::SaveFile(c) => Some(Skills::Saving(if *c { 1 } else { 10 })),
        Token::Unhandled(_) => None,
    }
}

/// The skill experience of a lexer result; an error earns nothing.
pub fn parse_action_into_skill(token: Result<Token, ()>) -> (r: Option<Skills>)
    requires
        token matches Ok(t) ==> count_in_range(t@),
    ensures
        r == match token {
            Ok(t) => skill_of(t@),
            Err(_) => None,
        },
{
    match token {
        Ok(t) => classify(&t),
        Err(_) => None,
    }
}

} // verus!
