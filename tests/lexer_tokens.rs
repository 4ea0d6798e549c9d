use vimscape_backend::lexer::{parse_tokens, Lexer};
use vimscape_backend::token::Token;

fn unhandled(s: &str) -> Option<Token> {
    Some(Token::Unhandled(s.to_string()))
}

#[test]
fn no_input_as_none() {
    const TEST_INPUT: &str = "";
    let mut lexer = Lexer::new(TEST_INPUT);
    assert_eq!(lexer.next_token(), None);
}

#[test]
fn basic_vertical_movements() {
    const TEST_INPUT: &str = "j10jkk5kjj";
    let mut lexer = Lexer::new(TEST_INPUT);
    assert_eq!(lexer.next_token(), Some(Token::MoveVerticalBasic(1)));
    assert_eq!(lexer.next_token(), Some(Token::MoveVerticalBasic(10)));
    assert_eq!(lexer.next_token(), Some(Token::MoveVerticalBasic(1)));
    assert_eq!(lexer.next_token(), Some(Token::MoveVerticalBasic(1)));
    assert_eq!(lexer.next_token(), Some(Token::MoveVerticalBasic(5)));
    assert_eq!(lexer.next_token(), Some(Token::MoveVerticalBasic(1)));
    assert_eq!(lexer.next_token(), Some(Token::MoveVerticalBasic(1)));
    assert_eq!(lexer.next_token(), None);
}

#[test]
fn basic_horizontal_movements() {
    const TEST_INPUT: &str = "10hll5lh<Esc>h";
    let mut lexer = Lexer::new(TEST_INPUT);
    assert_eq!(lexer.next_token(), Some(Token::MoveHorizontalBasic(10)));
    assert_eq!(lexer.slice(), "10h");
    assert_eq!(lexer.next_token(), Some(Token::MoveHorizontalBasic(1)));
    assert_eq!(lexer.slice(), "l");
    assert_eq!(lexer.next_token(), Some(Token::MoveHorizontalBasic(1)));
    assert_eq!(lexer.slice(), "l");
    assert_eq!(lexer.next_token(), Some(Token::MoveHorizontalBasic(5)));
    assert_eq!(lexer.slice(), "5l");
    assert_eq!(lexer.next_token(), Some(Token::MoveHorizontalBasic(1)));
    assert_eq!(lexer.slice(), "h");
    assert_eq!(lexer.next_token(), unhandled("<Esc>"));
    assert_eq!(lexer.next_token(), Some(Token::MoveHorizontalBasic(1)));
    assert_eq!(lexer.slice(), "h");
    assert_eq!(lexer.next_token(), None);
}

#[test]
fn chunk_horizontal_movements() {
    const TEST_INPUT: &str = "10weEb5bw";
    let mut lexer = Lexer::new(TEST_INPUT);
    assert_eq!(lexer.next_token(), Some(Token::MoveHorizontalChunk(10)));
    assert_eq!(lexer.slice(), "10w");
    assert_eq!(lexer.next_token(), Some(Token::MoveHorizontalChunk(1)));
    assert_eq!(lexer.slice(), "e");
    assert_eq!(lexer.next_token(), Some(Token::MoveHorizontalChunk(1)));
    assert_eq!(lexer.slice(), "E");
    assert_eq!(lexer.next_token(), Some(Token::MoveHorizontalChunk(1)));
    assert_eq!(lexer.slice(), "b");
    assert_eq!(lexer.next_token(), Some(Token::MoveHorizontalChunk(5)));
    assert_eq!(lexer.slice(), "5b");
    assert_eq!(lexer.next_token(), Some(Token::MoveHorizontalChunk(1)));
    assert_eq!(lexer.slice(), "w");
    assert_eq!(lexer.next_token(), None);
}

#[test]
fn mixed_input_movements_hb_hc_vm() {
    const TEST_INPUT: &str = "jj3jwwbE3wllkk";
    let mut lexer = Lexer::new(TEST_INPUT);
    assert_eq!(lexer.next_token(), Some(Token::MoveVerticalBasic(1)));
    assert_eq!(lexer.slice(), "j");
    assert_eq!(lexer.next_token(), Some(Token::MoveVerticalBasic(1)));
    assert_eq!(lexer.slice(), "j");
    assert_eq!(lexer.next_token(), Some(Token::MoveVerticalBasic(3)));
    assert_eq!(lexer.slice(), "3j");
    assert_eq!(lexer.next_token(), Some(Token::MoveHorizontalChunk(1)));
    assert_eq!(lexer.slice(), "w");
    assert_eq!(lexer.next_token(), Some(Token::MoveHorizontalChunk(1)));
    assert_eq!(lexer.slice(), "w");
    assert_eq!(lexer.next_token(), Some(Token::MoveHorizontalChunk(1)));
    assert_eq!(lexer.slice(), "b");
    assert_eq!(lexer.next_token(), Some(Token::MoveHorizontalChunk(1)));
    assert_eq!(lexer.slice(), "E");
    assert_eq!(lexer.next_token(), Some(Token::MoveHorizontalChunk(3)));
    assert_eq!(lexer.slice(), "3w");
    assert_eq!(lexer.next_token(), Some(Token::MoveHorizontalBasic(1)));
    assert_eq!(lexer.slice(), "l");
    assert_eq!(lexer.next_token(), Some(Token::MoveHorizontalBasic(1)));
    assert_eq!(lexer.slice(), "l");
    assert_eq!(lexer.next_token(), Some(Token::MoveVerticalBasic(1)));
    assert_eq!(lexer.slice(), "k");
    assert_eq!(lexer.next_token(), Some(Token::MoveVerticalBasic(1)));
    assert_eq!(lexer.slice(), "k");
    assert_eq!(lexer.next_token(), None);
}

#[test]
fn jump_horizontal_movements() {
    const TEST_INPUT: &str = "f3;;nFlnt3T3";
    let mut lexer = Lexer::new(TEST_INPUT);
    assert_eq!(lexer.next_token(), Some(Token::JumpToHorizontal));
    assert_eq!(lexer.slice(), "f3;;n");
    assert_eq!(lexer.next_token(), Some(Token::JumpToHorizontal));
    assert_eq!(lexer.slice(), "Fln");
    assert_eq!(lexer.next_token(), Some(Token::JumpToHorizontal));
    assert_eq!(lexer.slice(), "t3");
    assert_eq!(lexer.next_token(), Some(Token::JumpToHorizontal));
    assert_eq!(lexer.slice(), "T3");
    assert_eq!(lexer.next_token(), None);
}

#[test]
fn jump_to_line_number_gg() {
    const TEST_INPUT: &str = "33gg";
    let mut lexer = Lexer::new(TEST_INPUT);
    assert_eq!(lexer.next_token(), Some(Token::JumpToLineNumber("33".to_string())));
    assert_eq!(lexer.slice(), TEST_INPUT);
    assert_eq!(lexer.next_token(), None);
}

#[test]
fn jump_to_line_number_g() {
    const TEST_INPUT: &str = "22Gj";
    let mut lexer = Lexer::new(TEST_INPUT);
    assert_eq!(lexer.next_token(), Some(Token::JumpToLineNumber("22".to_string())));
    assert_eq!(lexer.slice(), "22G");
    assert_eq!(lexer.next_token(), Some(Token::MoveVerticalBasic(1)));
    assert_eq!(lexer.slice(), "j");
    assert_eq!(lexer.next_token(), None);
}

#[test]
fn jump_to_line_number_command_mode() {
    const TEST_INPUT: &str = "j:322|enter|";
    let mut lexer = Lexer::new(TEST_INPUT);
    assert_eq!(lexer.next_token(), Some(Token::MoveVerticalBasic(1)));
    assert_eq!(lexer.next_token(), Some(Token::JumpToLineNumber("322".to_string())));
    assert_eq!(lexer.slice(), ":322|enter|");
    assert_eq!(lexer.next_token(), None);
}

#[test]
fn jump_to_line_number_command_mode_cr_issue_edition() {
    const TEST_INPUT: &str = "j:322|enter|j";
    let mut lexer = Lexer::new(TEST_INPUT);
    assert_eq!(lexer.next_token(), Some(Token::MoveVerticalBasic(1)));
    assert_eq!(lexer.next_token(), Some(Token::JumpToLineNumber("322".to_string())));
    assert_eq!(lexer.next_token(), Some(Token::MoveVerticalBasic(1)));
    assert_eq!(lexer.next_token(), None);
}

#[test]
fn jump_to_vertical() {
    const TEST_INPUT: &str = "MHL<C-F><C-B>";
    let mut lexer = Lexer::new(TEST_INPUT);
    assert_eq!(lexer.next_token(), Some(Token::JumpToVertical));
    assert_eq!(lexer.next_token(), Some(Token::JumpToVertical));
    assert_eq!(lexer.next_token(), Some(Token::JumpToVertical));
    assert_eq!(lexer.next_token(), Some(Token::JumpToVertical));
    assert_eq!(lexer.next_token(), Some(Token::JumpToVertical));
    assert_eq!(lexer.next_token(), None);
}

#[test]
fn jump_from_context() {
    const TEST_INPUT: &str = ":<C-U>call<Space>matchit#Match_wrapper('',1,'n')|enter|m'zv";
    let mut lexer = Lexer::new(TEST_INPUT);
    assert_eq!(lexer.next_token(), Some(Token::JumpFromContext));
    assert_eq!(lexer.next_token(), None);
}

#[test]
fn camera_movement() {
    // `z` followed by `z` is one camera movement, so the `b` between the pairs is a motion.
    const TEST_INPUT: &str = "zzzzbzt<C-E><C-Y>";
    let mut lexer = Lexer::new(TEST_INPUT);
    assert_eq!(lexer.next_token(), Some(Token::CameraMovement));
    assert_eq!(lexer.slice(), "zz");
    assert_eq!(lexer.next_token(), Some(Token::CameraMovement));
    assert_eq!(lexer.slice(), "zz");
    assert_eq!(lexer.next_token(), Some(Token::MoveHorizontalChunk(1)));
    assert_eq!(lexer.next_token(), Some(Token::CameraMovement));
    assert_eq!(lexer.slice(), "zt");
    assert_eq!(lexer.next_token(), Some(Token::CameraMovement));
    assert_eq!(lexer.next_token(), Some(Token::CameraMovement));
    assert_eq!(lexer.next_token(), None);
}

#[test]
fn window_management() {
    const TEST_INPUT: &str = "<C-W>s<C-W>vkk<C-W>w<C-W>q<C-W>x<C-W>=<C-W>h<C-W>j<C-W>k<C-W>l<C-W>H<C-W>L<C-W>J<C-W>K<C-H><C-J><C-K><C-L>";
    let mut lexer = Lexer::new(TEST_INPUT);
    assert_eq!(lexer.next_token(), Some(Token::WindowManagement));
    assert_eq!(lexer.next_token(), Some(Token::WindowManagement));
    assert_eq!(lexer.next_token(), Some(Token::MoveVerticalBasic(1)));
    assert_eq!(lexer.next_token(), Some(Token::MoveVerticalBasic(1)));
    for _ in 0..16 {
        assert_eq!(lexer.next_token(), Some(Token::WindowManagement));
    }
    assert_eq!(lexer.next_token(), None);
}

#[test]
fn text_manipulation_basic() {
    const TEST_INPUT: &str = "12xdlJ3rp4gJ";
    let mut lexer = Lexer::new(TEST_INPUT);
    assert_eq!(lexer.next_token(), Some(Token::TextManipulationBasic(12)));
    assert_eq!(lexer.next_token(), Some(Token::TextManipulationBasic(1)));
    assert_eq!(lexer.next_token(), Some(Token::TextManipulationBasic(3)));
    assert_eq!(lexer.next_token(), Some(Token::TextManipulationBasic(4)));
    assert_eq!(lexer.next_token(), None);
}

#[test]
fn text_manipulation_advanced_1() {
    // `c$` is the change; the `$` after it is a key of its own.
    const TEST_INPUT: &str = "c$$gu3wgU44$";
    let mut lexer = Lexer::new(TEST_INPUT);
    assert_eq!(lexer.next_token(), Some(Token::TextManipulationAdvanced));
    assert_eq!(lexer.slice(), "c$");
    assert_eq!(lexer.next_token(), unhandled("$"));
    assert_eq!(lexer.next_token(), Some(Token::TextManipulationAdvanced));
    assert_eq!(lexer.slice(), "gu3w");
    assert_eq!(lexer.next_token(), Some(Token::TextManipulationAdvanced));
    assert_eq!(lexer.slice(), "gU44$");
    assert_eq!(lexer.next_token(), None);
}

#[test]
fn text_manipulation_advanced_2() {
    const TEST_INPUT: &str = "Rxxx<Esc>R3<Esc>R<Esc>";
    let mut lexer = Lexer::new(TEST_INPUT);
    assert_eq!(lexer.next_token(), Some(Token::TextManipulationAdvanced));
    assert_eq!(lexer.slice(), "Rxxx<Esc>");
    assert_eq!(lexer.next_token(), Some(Token::TextManipulationAdvanced));
    assert_eq!(lexer.next_token(), Some(Token::TextManipulationAdvanced));
    assert_eq!(lexer.next_token(), None);
}

#[test]
fn text_manipulation_advanced_3() {
    const TEST_INPUT: &str = "gu3fgguF.";
    let mut lexer = Lexer::new(TEST_INPUT);
    assert_eq!(lexer.next_token(), Some(Token::TextManipulationAdvanced));
    assert_eq!(lexer.slice(), "gu3fg");
    assert_eq!(lexer.next_token(), Some(Token::TextManipulationAdvanced));
    assert_eq!(lexer.slice(), "guF.");
    assert_eq!(lexer.next_token(), None);
}

#[test]
fn text_manipulation_advanced_tokens() {
    const TEST_INPUT: &str = "c$$Cc$ceecwwsclSccciwwiwcawwaw";
    let mut lexer = Lexer::new(TEST_INPUT);
    let expected: Vec<(Token, &str)> = vec![
        (Token::TextManipulationAdvanced, "c$"),
        (Token::Unhandled("$".to_string()), "$"),
        (Token::TextManipulationAdvanced, "C"),
        (Token::TextManipulationAdvanced, "c$"),
        (Token::TextManipulationAdvanced, "ce"),
        (Token::MoveHorizontalChunk(1), "e"),
        (Token::TextManipulationAdvanced, "cw"),
        (Token::MoveHorizontalChunk(1), "w"),
        (Token::TextManipulationAdvanced, "s"),
        (Token::TextManipulationAdvanced, "cl"),
        (Token::TextManipulationAdvanced, "S"),
        (Token::TextManipulationAdvanced, "cc"),
        (Token::TextManipulationAdvanced, "ciw"),
        (Token::MoveHorizontalChunk(1), "w"),
        (Token::Unhandled("i".to_string()), "i"),
        (Token::MoveHorizontalChunk(1), "w"),
        (Token::TextManipulationAdvanced, "caw"),
        (Token::MoveHorizontalChunk(1), "w"),
        (Token::Unhandled("a".to_string()), "a"),
        (Token::MoveHorizontalChunk(1), "w"),
    ];
    for (token, text) in expected {
        assert_eq!(lexer.next_token(), Some(token));
        assert_eq!(lexer.slice(), text);
    }
    assert_eq!(lexer.next_token(), None);
}

#[test]
fn text_manipulation_advanced_change_arounds() {
    const TEST_INPUT: &str = r#"ci))<C-\><C-N>zvzvvci((<C-\><C-N>zvzvvci[[<C-\><C-N>zvzvvci]]<C-\><C-N>zvzvvci{{<C-\><C-N>zvzvvci}}<C-\><C-N>zvzvv"#;
    let mut lexer = Lexer::new(TEST_INPUT);
    for bracket in [")", "(", "[", "]", "{", "}"] {
        assert_eq!(lexer.next_token(), Some(Token::TextManipulationAdvanced));
        assert_eq!(lexer.slice(), format!("ci{bracket}"));
        assert_eq!(lexer.next_token(), unhandled(bracket));
        assert_eq!(lexer.next_token(), unhandled(r"<C-\>"));
        assert_eq!(lexer.next_token(), unhandled("<C-N>"));
        assert_eq!(lexer.next_token(), unhandled("zv"));
        assert_eq!(lexer.next_token(), unhandled("zv"));
        assert_eq!(lexer.next_token(), unhandled("v"));
    }
    assert_eq!(lexer.next_token(), None);
}

#[test]
fn yank_paste() {
    const TEST_INPUT: &str = r#"3""3p""1p4""4P3y$y$yiw3yawy<Esc><C-\><C-N><Esc>"#;
    let mut lexer = Lexer::new(TEST_INPUT);
    assert_eq!(lexer.next_token(), Some(Token::YankPaste));
    assert_eq!(lexer.slice(), r#"3""3p"#);
    assert_eq!(lexer.next_token(), Some(Token::YankPaste));
    assert_eq!(lexer.slice(), r#"""1p"#);
    assert_eq!(lexer.next_token(), Some(Token::YankPaste));
    assert_eq!(lexer.slice(), r#"4""4P"#);
    assert_eq!(lexer.next_token(), Some(Token::YankPaste));
    assert_eq!(lexer.slice(), "3y$");
    assert_eq!(lexer.next_token(), Some(Token::YankPaste));
    assert_eq!(lexer.slice(), "y$");
    assert_eq!(lexer.next_token(), Some(Token::YankPaste));
    assert_eq!(lexer.slice(), "yiw");
    assert_eq!(lexer.next_token(), Some(Token::YankPaste));
    assert_eq!(lexer.slice(), "3yaw");
    // A yank abandoned with escape yields no yank.
    assert_eq!(lexer.next_token(), unhandled("y"));
    assert_eq!(lexer.next_token(), unhandled("<Esc>"));
    assert_eq!(lexer.next_token(), unhandled(r"<C-\>"));
    assert_eq!(lexer.next_token(), unhandled("<C-N>"));
    assert_eq!(lexer.next_token(), unhandled("<Esc>"));
    assert_eq!(lexer.next_token(), None);
}

#[test]
fn undo_redo() {
    const TEST_INPUT: &str = "uU<C-R>";
    let mut lexer = Lexer::new(TEST_INPUT);
    assert_eq!(lexer.next_token(), Some(Token::UndoRedo));
    assert_eq!(lexer.slice(), "u");
    assert_eq!(lexer.next_token(), Some(Token::UndoRedo));
    assert_eq!(lexer.slice(), "U");
    assert_eq!(lexer.next_token(), Some(Token::UndoRedo));
    assert_eq!(lexer.slice(), "<C-R>");
    assert_eq!(lexer.next_token(), None);
}

#[test]
fn dot_repeater() {
    const TEST_INPUT: &str = "3w.3w";
    let mut lexer = Lexer::new(TEST_INPUT);
    assert_eq!(lexer.next_token(), Some(Token::MoveHorizontalChunk(3)));
    assert_eq!(lexer.next_token(), Some(Token::DotRepeat));
    assert_eq!(lexer.next_token(), Some(Token::MoveHorizontalChunk(3)));
    assert_eq!(lexer.next_token(), None);
}

#[test]
fn command_search() {
    // The flag tells whether the search was finished with enter.
    const TEST_INPUT: &str = r#"/testsearch|enter|/testsearch2<Esc>"#;
    let mut lexer = Lexer::new(TEST_INPUT);
    assert_eq!(lexer.next_token(), Some(Token::CommandSearch(true)));
    assert_eq!(lexer.next_token(), Some(Token::CommandSearch(false)));
    assert_eq!(lexer.next_token(), None);
}

#[test]
fn delete_text() {
    const TEST_INPUT: &str = "d33ddddd3xx";
    let mut lexer = Lexer::new(TEST_INPUT);
    assert_eq!(lexer.next_token(), Some(Token::DeleteText(33)));
    assert_eq!(lexer.slice(), "d33d");
    assert_eq!(lexer.next_token(), Some(Token::DeleteText(1)));
    assert_eq!(lexer.slice(), "dd");
    assert_eq!(lexer.next_token(), Some(Token::DeleteText(1)));
    assert_eq!(lexer.slice(), "dd");
    assert_eq!(lexer.next_token(), Some(Token::DeleteText(3)));
    assert_eq!(lexer.slice(), "3x");
    assert_eq!(lexer.next_token(), Some(Token::DeleteText(1)));
    assert_eq!(lexer.slice(), "x");
    assert_eq!(lexer.next_token(), None);
}

#[test]
fn delete_text_word() {
    const TEST_INPUT: &str = "dwwd33ww";
    let mut lexer = Lexer::new(TEST_INPUT);
    assert_eq!(lexer.next_token(), Some(Token::DeleteText(1)));
    assert_eq!(lexer.slice(), "dw");
    assert_eq!(lexer.next_token(), Some(Token::MoveHorizontalChunk(1)));
    assert_eq!(lexer.next_token(), Some(Token::DeleteText(33)));
    assert_eq!(lexer.slice(), "d33w");
    assert_eq!(lexer.next_token(), Some(Token::MoveHorizontalChunk(1)));
    assert_eq!(lexer.next_token(), None);
}

#[test]
fn unhandled_tokens() {
    const TEST_INPUT: &str = ">|enter|<Esc>";
    let mut lexer = Lexer::new(TEST_INPUT);
    assert_eq!(lexer.next_token(), unhandled(">"));
    assert_eq!(lexer.slice(), ">");
    assert_eq!(lexer.next_token(), unhandled("|enter|"));
    assert_eq!(lexer.slice(), "|enter|");
    assert_eq!(lexer.next_token(), unhandled("<Esc>"));
    assert_eq!(lexer.slice(), "<Esc>");
    assert_eq!(lexer.next_token(), None);
}

#[test]
fn help_page() {
    const TEST_INPUT: &str = ":h test<Esc>jj:help test|enter|";
    let mut lexer = Lexer::new(TEST_INPUT);
    assert_eq!(lexer.next_token(), Some(Token::HelpPage(false)));
    assert_eq!(lexer.next_token(), Some(Token::MoveVerticalBasic(1)));
    assert_eq!(lexer.next_token(), Some(Token::MoveVerticalBasic(1)));
    assert_eq!(lexer.next_token(), Some(Token::HelpPage(true)));
    assert_eq!(lexer.next_token(), None);
}

#[test]
fn save_file() {
    const TEST_INPUT: &str = ":w<Esc>j:w|enter|";
    let mut lexer = Lexer::new(TEST_INPUT);
    assert_eq!(lexer.next_token(), Some(Token::SaveFile(false)));
    assert_eq!(lexer.next_token(), Some(Token::MoveVerticalBasic(1)));
    assert_eq!(lexer.next_token(), Some(Token::SaveFile(true)));
    assert_eq!(lexer.next_token(), None);
}

#[test]
fn lexer_wip_test() {
    let src = "10jkj";
    let mut lexer = Lexer::new(src);
    let mut tokens = Vec::new();
    while let Some(token) = lexer.next_token() {
        tokens.push(token);
    }
    assert_eq!(
        tokens,
        vec![
            Token::MoveVerticalBasic(10),
            Token::MoveVerticalBasic(1),
            Token::MoveVerticalBasic(1)
        ]
    );
}

#[test]
fn parser_wip_test() {
    let src = "jkj";
    let output = parse_tokens(src);
    assert_eq!(output, vec![Token::MoveVerticalBasic(1); 3]);
}
