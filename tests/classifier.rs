use vimscape_backend::parse_utils::{classify, parse_action_into_skill};
use vimscape_backend::skills::Skills;
use vimscape_backend::token::Token;

#[test]
fn counted_motions_earn_per_step() {
    assert_eq!(classify(&Token::MoveVerticalBasic(7)), Some(Skills::VerticalNavigation(7)));
    assert_eq!(classify(&Token::MoveHorizontalBasic(2)), Some(Skills::HorizontalNavigation(2)));
    assert_eq!(classify(&Token::MoveHorizontalChunk(3)), Some(Skills::HorizontalNavigation(15)));
    assert_eq!(classify(&Token::MoveVerticalChunk(4)), Some(Skills::VerticalNavigation(20)));
    assert_eq!(classify(&Token::DeleteText(9)), Some(Skills::TextManipulation(9)));
    assert_eq!(classify(&Token::TextManipulationBasic(12)), Some(Skills::TextManipulation(12)));
}

#[test]
fn fixed_rate_tokens_earn_ten() {
    assert_eq!(classify(&Token::JumpToHorizontal), Some(Skills::HorizontalNavigation(10)));
    assert_eq!(
        classify(&Token::JumpToLineNumber("12".to_string())),
        Some(Skills::VerticalNavigation(10))
    );
    assert_eq!(classify(&Token::JumpToVertical), Some(Skills::VerticalNavigation(10)));
    assert_eq!(classify(&Token::JumpFromContext), Some(Skills::CodeFlow(10)));
    assert_eq!(classify(&Token::CameraMovement), Some(Skills::CameraMovement(10)));
    assert_eq!(classify(&Token::WindowManagement), Some(Skills::WindowManagement(10)));
    assert_eq!(classify(&Token::TextManipulationAdvanced), Some(Skills::TextManipulation(10)));
    assert_eq!(classify(&Token::YankPaste), Some(Skills::Clipboard(10)));
    assert_eq!(classify(&Token::UndoRedo), Some(Skills::Clipboard(10)));
    assert_eq!(classify(&Token::DotRepeat), Some(Skills::Finesse(10)));
}

#[test]
fn abandoned_commands_earn_more_than_finished_ones() {
    assert_eq!(classify(&Token::CommandSearch(true)), Some(Skills::Search(1)));
    assert_eq!(classify(&Token::CommandSearch(false)), Some(Skills::Search(10)));
    assert_eq!(classify(&Token::Command(true)), Some(Skills::Finesse(1)));
    assert_eq!(classify(&Token::Command(false)), Some(Skills::Finesse(10)));
    assert_eq!(classify(&Token::HelpPage(true)), Some(Skills::Knowledge(1)));
    assert_eq!(classify(&Token::HelpPage(false)), Some(Skills::Knowledge(10)));
    assert_eq!(classify(&Token::SaveFile(true)), Some(Skills::Saving(1)));
    assert_eq!(classify(&Token::SaveFile(false)), Some(Skills::Saving(10)));
}

#[test]
fn unhandled_and_errors_earn_nothing() {
    assert_eq!(classify(&Token::Unhandled(">".to_string())), None);
    assert_eq!(parse_action_into_skill(Err(())), None);
    assert_eq!(
        parse_action_into_skill(Ok(Token::MoveVerticalBasic(3))),
        Some(Skills::VerticalNavigation(3))
    );
}

#[test]
fn skill_names_and_experience() {
    let names = Skills::to_str_vec();
    assert_eq!(
        names,
        vec![
            "VerticalNavigation",
            "HorizontalNavigation",
            "CodeFlow",
            "CameraMovement",
            "WindowManagement",
            "TextManipulation",
            "Clipboard",
            "Finesse",
            "Search",
            "Knowledge",
            "Saving",
        ]
    );
    assert_eq!(Skills::Knowledge(4).to_str(), "Knowledge");
    assert_eq!(Skills::Knowledge(4).get_exp_from_skill(), 4);
    assert_eq!(Skills::from_index(6, 3), Skills::Clipboard(3));
    assert_eq!(Skills::Saving(0).index(), 10);
}
