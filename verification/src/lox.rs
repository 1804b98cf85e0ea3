pub mod error;
pub mod grammar;
pub mod laws;
pub mod scanner;
pub mod token;

use self::error::{LexError, ScanError};
use self::grammar::{line_count, scan};
use self::scanner::Scanner;
use self::token::Token;
use vstd::prelude::*;

verus! {

/// The interpreter's front end: it decides what is run, runs the scanner on
/// each text it is handed, and remembers whether an error was reported.
/// Reading the script or the next line, and printing, are its caller's part.
pub struct Lox {
    had_error: bool,
    file_name: Option<String>,
}

/// The front end as a mathematical value.
pub struct LoxView {
    /// Whether an error was reported and not yet forgotten.
    pub had_error: bool,
    /// The script named on the command line, if one was.
    pub file_name: Option<Seq<char>>,
}

impl View for Lox {
    type V = LoxView;

    closed spec fn view(&self) -> LoxView {
        LoxView {
            had_error: self.had_error,
            file_name: match self.file_name {
                Some(name) => Some(name@),
                None => None,
            },
        }
    }
}

/// What the front end was started for.
pub enum Mode {
    /// Run the script of this name, once.
    Script(String),
    /// Read lines from the user and run each one.
    Prompt,
}

/// An error report as a mathematical value.
pub struct ReportView {
    pub line: int,
    pub whr: Seq<char>,
    pub msg: Seq<char>,
}

/// An error for the user: the line, a hint at the place, and the message.
#[derive(Debug, Clone, PartialEq, Eq)]
pub struct Report {
    pub line: u32,
    pub whr: String,
    pub msg: String,
}

impl View for Report {
    type V = ReportView;

    open spec fn view(&self) -> ReportView {
        ReportView { line: self.line as int, whr: self.whr@, msg: self.msg@ }
    }
}

impl DeepView for Report {
    type V = ReportView;

    open spec fn deep_view(&self) -> ReportView {
        self@
    }
}

/// The report of a lexical error: its line and the wording of its kind, with
/// no hint at the place.
pub open spec fn report_of(error: LexError) -> ReportView {
    ReportView { line: error.line, whr: Seq::empty(), msg: error.kind.wording() }
}

/// The reports of `errors`, one for each, in the same order.
pub open spec fn reports_of(errors: Seq<LexError>) -> Seq<ReportView> {
    Seq::new(errors.len(), |i: int| report_of(errors[i]))
}

/// What running one text gave.
#[derive(Debug)]
pub struct Outcome {
    /// The tokens of the text.
    pub tokens: Vec<Token>,
    /// The errors of the text, to be shown to the user.
    pub reports: Vec<Report>,
    /// Whether an error was reported in this run or was still remembered from
    /// before it. A script that ends so has failed.
    pub had_error: bool,
}

impl Lox {
    /// The front end for the command line `args`, the program's name first:
    /// with a second argument it is to run the script of that name, without
    /// one it is to prompt. More than one argument after the name is a usage
    /// error, which is the caller's to refuse.
    pub fn new(args: Vec<String>) -> (lox: Self)
        requires
            args.len() <= 2,
        ensures
            lox@ == (LoxView {
                had_error: false,
                file_name: if args.len() == 2 {
                    Some(args[1]@)
                } else {
                    None
                },
            }),
    {
        if args.len() == 2 {
            Self { had_error: false, file_name: Some(args[1].clone()) }
        } else {
            Self { had_error: false, file_name: None }
        }
    }

    /// Says what to do first: run the script that was named, or prompt.
    pub fn start(&mut self) -> (mode: Mode)
        ensures
            final(self)@ == old(self)@,
            match mode {
                Mode::Script(name) => old(self)@.file_name == Some(name@),
                Mode::Prompt => old(self)@.file_name is None,
            },
    {
        if let Some(file_name) = &self.file_name {
            Mode::Script(file_name.clone())
        } else {
            Mode::Prompt
        }
    }

    /// Runs the script whose text is `source`. The script has failed if the
    /// outcome says that an error was reported.
    pub fn run_file(&mut self, source: String) -> (outcome: Outcome)
        requires
            line_count(source@) <= u32::MAX,
        ensures
            outcome.tokens.deep_view() == scan(source@).tokens,
            outcome.reports.deep_view() == reports_of(scan(source@).errors),
            outcome.had_error == (old(self)@.had_error || scan(source@).errors.len() > 0),
            final(self)@ == (LoxView { had_error: outcome.had_error, ..old(self)@ }),
    {
        self.run(source)
    }

    /// Takes one line of input from the prompt. An empty line, which is what
    /// the end of the input reads as, ends the session: nothing is run. Any
    /// other line is run, and its errors are forgotten before the next one.
    pub fn run_prompt(&mut self, input: String) -> (turn: Option<Outcome>)
        requires
            line_count(input@) <= u32::MAX,
        ensures
            input@.len() == 0 ==> turn is None && final(self)@ == old(self)@,
            input@.len() > 0 ==> {
                &&& turn matches Some(outcome)
                &&& outcome.tokens.deep_view() == scan(input@).tokens
                &&& outcome.reports.deep_view() == reports_of(scan(input@).errors)
                &&& outcome.had_error == (old(self)@.had_error || scan(input@).errors.len() > 0)
                &&& final(self)@ == (LoxView { had_error: false, ..old(self)@ })
            },
    {
        if input.as_str().is_empty() {
            None
        } else {
            let outcome = self.run(input);
            self.had_error = false;
            Some(outcome)
        }
    }

    /// Scans `input` and reports each of its errors.
    fn run(&mut self, input: String) -> (outcome: Outcome)
        requires
            line_count(input@) <= u32::MAX,
        ensures
            outcome.tokens.deep_view() == scan(input@).tokens,
            outcome.reports.deep_view() == reports_of(scan(input@).errors),
            outcome.had_error == (old(self)@.had_error || scan(input@).errors.len() > 0),
            final(self)@ == (LoxView { had_error: outcome.had_error, ..old(self)@ }),
    {
        let mut scanner = Scanner::new(input);
        let tokens: Vec<Token> = scanner.scan_tokens();

        let errors: &Vec<ScanError> = scanner.errors();
        let mut reports: Vec<Report> = Vec::new();
        let mut i: usize = 0;
        while i < errors.len()
            invariant
                i <= errors.len(),
                errors.deep_view() == scan(input@).errors,
                reports.deep_view() == reports_of(errors.deep_view().take(i as int)),
                self@ == (LoxView {
                    had_error: old(self)@.had_error || i > 0,
                    ..old(self)@
                }),
            decreases errors.len() - i,
        {
            let ghost before = reports.deep_view();
            let report = self.error(errors[i].line, errors[i].kind.message());
            reports.push(report);
            i += 1;
            proof {
                assert(reports.deep_view() =~= before.push(report_of(errors[i - 1]@)));
            }
        }
        Outcome { tokens, reports, had_error: self.had_error }
    }

    /// Reports the error `msg` found on `line`, and remembers that an error
    /// was reported.
    pub fn error(&mut self, line: u32, msg: String) -> (report: Report)
        ensures
            report@ == (ReportView { line: line as int, whr: Seq::empty(), msg: msg@ }),
            final(self)@ == (LoxView { had_error: true, ..old(self)@ }),
    {
        self.report(line, String::new(), msg)
    }

    fn report(&mut self, line: u32, whr: String, msg: String) -> (report: Report)
        ensures
            report@ == (ReportView { line: line as int, whr: whr@, msg: msg@ }),
            final(self)@ == (LoxView { had_error: true, ..old(self)@ }),
    {
        self.had_error = true;
        Report { line, whr, msg }
    }

    /// Whether an error was reported and not yet forgotten.
    pub fn had_error(&self) -> (failed: bool)
        ensures
            failed == self@.had_error,
    {
        self.had_error
    }
}

} // verus!
