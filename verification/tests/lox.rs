use rslox::lox::token::TokenType;
use rslox::lox::{Lox, Mode, Report};

fn args(words: &[&str]) -> Vec<String> {
    words.iter().map(|w| w.to_string()).collect()
}

#[test]
fn without_a_script_it_prompts() {
    let mut lox = Lox::new(args(&["rslox"]));
    assert!(!lox.had_error());
    assert!(matches!(lox.start(), Mode::Prompt));
    let mut lox = Lox::new(args(&[]));
    assert!(matches!(lox.start(), Mode::Prompt));
}

#[test]
fn with_a_script_it_runs_the_script() {
    let mut lox = Lox::new(args(&["rslox", "main.lox"]));
    assert!(!lox.had_error());
    match lox.start() {
        Mode::Script(name) => assert_eq!(name, "main.lox"),
        Mode::Prompt => panic!("a script was named"),
    }
    // Asking again changes nothing.
    match lox.start() {
        Mode::Script(name) => assert_eq!(name, "main.lox"),
        Mode::Prompt => panic!("a script was named"),
    }
}

#[test]
fn script_without_errors_succeeds() {
    let mut lox = Lox::new(args(&["rslox", "main.lox"]));
    let outcome = lox.run_file("print 1;\n".to_string());
    let kinds: Vec<TokenType> = outcome.tokens.iter().map(|t| t.ttype).collect();
    assert_eq!(
        kinds,
        vec![TokenType::PRINT, TokenType::NUMBER, TokenType::SEMICOLON, TokenType::EOF]
    );
    assert!(outcome.reports.is_empty());
    assert!(!outcome.had_error);
    assert!(!lox.had_error());
}

#[test]
fn script_with_errors_fails() {
    let mut lox = Lox::new(args(&["rslox", "main.lox"]));
    let outcome = lox.run_file("print @;\n\"open".to_string());
    let kinds: Vec<TokenType> = outcome.tokens.iter().map(|t| t.ttype).collect();
    assert_eq!(kinds, vec![TokenType::PRINT, TokenType::SEMICOLON, TokenType::EOF]);
    assert_eq!(
        outcome.reports,
        vec![
            Report { line: 1, whr: String::new(), msg: "Unexpected character.".to_string() },
            Report { line: 2, whr: String::new(), msg: "Unterminated string.".to_string() },
        ]
    );
    assert!(outcome.had_error);
    assert!(lox.had_error());
}

#[test]
fn empty_line_ends_the_session() {
    let mut lox = Lox::new(args(&["rslox"]));
    assert!(lox.run_prompt(String::new()).is_none());
    assert!(!lox.had_error());
}

#[test]
fn line_is_run_and_its_errors_are_forgotten() {
    let mut lox = Lox::new(args(&["rslox"]));
    let outcome = lox.run_prompt("var # x\n".to_string()).unwrap();
    let kinds: Vec<TokenType> = outcome.tokens.iter().map(|t| t.ttype).collect();
    assert_eq!(kinds, vec![TokenType::VAR, TokenType::IDENTIFIER, TokenType::EOF]);
    assert_eq!(outcome.tokens.last().unwrap().line, 2);
    assert_eq!(
        outcome.reports,
        vec![Report { line: 1, whr: String::new(), msg: "Unexpected character.".to_string() }]
    );
    assert!(outcome.had_error);
    assert!(!lox.had_error());

    let outcome = lox.run_prompt("\n".to_string()).unwrap();
    assert_eq!(outcome.tokens.len(), 1);
    assert!(outcome.reports.is_empty());
    assert!(!outcome.had_error);
    assert!(!lox.had_error());
}

#[test]
fn reported_error_is_remembered() {
    let mut lox = Lox::new(args(&["rslox", "main.lox"]));
    let report = lox.error(12, "Expect expression.".to_string());
    assert_eq!(
        report,
        Report { line: 12, whr: String::new(), msg: "Expect expression.".to_string() }
    );
    assert!(lox.had_error());
    // The error stays remembered over a run without errors.
    let outcome = lox.run_file("1".to_string());
    assert!(outcome.reports.is_empty());
    assert!(outcome.had_error);
    assert!(lox.had_error());
}
