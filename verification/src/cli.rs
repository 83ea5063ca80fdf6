use vstd::prelude::*;
use vstd::string::StringExecFns;
use crate::text::to_chars;

verus! {

/// The number of words in a random text where none is asked for.
pub const DEFAULT_WORD_COUNT: usize = 512;

/// What the command line asks for.
pub struct Options {
    /// The number of words of a random text; zero where none was given.
    pub count: usize,
    /// The dictionary file to draw words from.
    pub dict_path: Option<String>,
    /// The file that holds the text to practise.
    pub text_path: Option<String>,
}

/// Why the command line was not accepted.
pub enum ArgError {
    /// Help was asked for.
    Help,
    /// The named option came last, without its path.
    MissingPath(String),
    /// The named option came last, without its number.
    MissingCount(String),
    /// The count is not a number that fits.
    InvalidCount(String),
    /// The argument is no option.
    UnknownArgument(String),
}

/// The file to read the practice text from, and what it holds.
pub enum SourceFile {
    /// A text to practise as it is.
    Text(String),
    /// A dictionary, one word on each line.
    Dictionary(String),
}

/// Options as a mathematical value.
pub struct OptionsView {
    pub count: usize,
    pub dict_path: Option<Seq<char>>,
    pub text_path: Option<Seq<char>>,
}

/// An error as a mathematical value.
pub enum ArgErrorView {
    Help,
    MissingPath(Seq<char>),
    MissingCount(Seq<char>),
    InvalidCount(Seq<char>),
    UnknownArgument(Seq<char>),
}

/// A source file as a mathematical value.
pub enum SourceFileView {
    Text(Seq<char>),
    Dictionary(Seq<char>),
}

/// The text of an optional string.
pub open spec fn path_view(path: Option<String>) -> Option<Seq<char>> {
    match path {
        Some(p) => Some(p@),
        None => None,
    }
}

impl View for Options {
    type V = OptionsView;

    open spec fn view(&self) -> OptionsView {
        OptionsView {
            count: self.count,
            dict_path: path_view(self.dict_path),
            text_path: path_view(self.text_path),
        }
    }
}

impl View for ArgError {
    type V = ArgErrorView;

    open spec fn view(&self) -> ArgErrorView {
        match *self {
            ArgError::Help => ArgErrorView::Help,
            ArgError::MissingPath(flag) => ArgErrorView::MissingPath(flag@),
            ArgError::MissingCount(flag) => ArgErrorView::MissingCount(flag@),
            ArgError::InvalidCount(text) => ArgErrorView::InvalidCount(text@),
            ArgError::UnknownArgument(arg) => ArgErrorView::UnknownArgument(arg@),
        }
    }
}

impl View for SourceFile {
    type V = SourceFileView;

    open spec fn view(&self) -> SourceFileView {
        match *self {
            SourceFile::Text(path) => SourceFileView::Text(path@),
            SourceFile::Dictionary(path) => SourceFileView::Dictionary(path@),
        }
    }
}

/// The kinds of argument.
#[derive(Clone, Copy, Debug, PartialEq, Eq, Structural)]
pub enum Flag {
    Help,
    Dict,
    Text,
    Count,
    Unknown,
}

/// The kind of an argument, by its spelling.
pub open spec fn flag_of(arg: Seq<char>) -> Flag {
    if arg == "-h"@ || arg == "--help"@ {
        Flag::Help
    } else if arg == "-d"@ || arg == "-dict"@ || arg == "--dict"@ {
        Flag::Dict
    } else if arg == "-t"@ || arg == "-text"@ || arg == "--text"@ {
        Flag::Text
    } else if arg == "-c"@ || arg == "-count"@ || arg == "--count"@ {
        Flag::Count
    } else {
        Flag::Unknown
    }
}

/// The value of a decimal digit.
pub open spec fn digit_value(c: char) -> Option<nat> {
    if c == '0' {
        Some(0)
    } else if c == '1' {
        Some(1)
    } else if c == '2' {
        Some(2)
    } else if c == '3' {
        Some(3)
    } else if c == '4' {
        Some(4)
    } else if c == '5' {
        Some(5)
    } else if c == '6' {
        Some(6)
    } else if c == '7' {
        Some(7)
    } else if c == '8' {
        Some(8)
    } else if c == '9' {
        Some(9)
    } else {
        None
    }
}

/// The number that a run of decimal digits writes; nothing where one of the
/// characters is no digit.
pub open spec fn digits_value(digits: Seq<char>) -> Option<nat>
    decreases digits.len(),
{
    if digits.len() == 0 {
        Some(0)
    } else {
        match (digits_value(digits.drop_last()), digit_value(digits.last())) {
            (Some(value), Some(d)) => Some(value * 10 + d),
            _ => None,
        }
    }
}

/// The count that a text writes: decimal digits, at least one, after an
/// optional plus sign, for a number that fits.
pub open spec fn count_of(text: Seq<char>) -> Option<usize> {
    let digits = if text.len() > 0 && text[0] == '+' {
        text.skip(1)
    } else {
        text
    };
    match digits_value(digits) {
        Some(value) => if digits.len() > 0 && value <= usize::MAX {
            Some(value as usize)
        } else {
            None
        },
        None => None,
    }
}

/// What the arguments from the `i`-th on make of the options `so_far`. The
/// arguments are read in order: an option with a value takes the argument that
/// follows it and overrides what was given before, and the first argument that is
/// not accepted decides the error.
pub open spec fn parse_from(args: Seq<Seq<char>>, i: int, so_far: OptionsView) -> Result<
    OptionsView,
    ArgErrorView,
>
    decreases args.len() - i,
{
    if i < 0 || i >= args.len() {
        Ok(so_far)
    } else {
        match flag_of(args[i]) {
            Flag::Help => Err(ArgErrorView::Help),
            Flag::Dict => if i + 1 < args.len() {
                parse_from(
                    args,
                    i + 2,
                    OptionsView {
                        count: so_far.count,
                        dict_path: Some(args[i + 1]),
                        text_path: so_far.text_path,
                    },
                )
            } else {
                Err(ArgErrorView::MissingPath(args[i]))
            },
            Flag::Text => if i + 1 < args.len() {
                parse_from(
                    args,
                    i + 2,
                    OptionsView {
                        count: so_far.count,
                        dict_path: so_far.dict_path,
                        text_path: Some(args[i + 1]),
                    },
                )
            } else {
                Err(ArgErrorView::MissingPath(args[i]))
            },
            Flag::Count => if i + 1 < args.len() {
                match count_of(args[i + 1]) {
                    Some(count) => parse_from(
                        args,
                        i + 2,
                        OptionsView {
                            count,
                            dict_path: so_far.dict_path,
                            text_path: so_far.text_path,
                        },
                    ),
                    None => Err(ArgErrorView::InvalidCount(args[i + 1])),
                }
            } else {
                Err(ArgErrorView::MissingCount(args[i]))
            },
            Flag::Unknown => Err(ArgErrorView::UnknownArgument(args[i])),
        }
    }
}

/// What the arguments ask for.
pub open spec fn parsed(args: Seq<Seq<char>>) -> Result<OptionsView, ArgErrorView> {
    parse_from(args, 0, OptionsView { count: 0, dict_path: None, text_path: None })
}

/// The arguments as character sequences.
pub open spec fn args_view(args: Seq<String>) -> Seq<Seq<char>> {
    Seq::new(args.len(), |i: int| args[i]@)
}

/// A result of parsing as a mathematical value.
pub open spec fn outcome_view(outcome: Result<Options, ArgError>) -> Result<
    OptionsView,
    ArgErrorView,
> {
    match outcome {
        Ok(options) => Ok(options@),
        Err(error) => Err(error@),
    }
}

/// `str`'s `==` holds of two texts with the same characters.
pub assume_specification[ <str as PartialEq>::eq ](a: &str, b: &str) -> (same: bool)
    ensures
        same == (a@ == b@),
;

fn classify(arg: &str) -> (flag: Flag)
    ensures
        flag == flag_of(arg@),
{
    if arg.eq("-h") || arg.eq("--help") {
        Flag::Help
    } else if arg.eq("-d") || arg.eq("-dict") || arg.eq("--dict") {
        Flag::Dict
    } else if arg.eq("-t") || arg.eq("-text") || arg.eq("--text") {
        Flag::Text
    } else if arg.eq("-c") || arg.eq("-count") || arg.eq("--count") {
        Flag::Count
    } else {
        Flag::Unknown
    }
}

fn digit_of(c: char) -> (d: Option<usize>)
    ensures
        match d {
            Some(v) => digit_value(c) == Some(v as nat) && v < 10,
            None => digit_value(c) is None,
        },
{
    if c == '0' {
        Some(0)
    } else if c == '1' {
        Some(1)
    } else if c == '2' {
        Some(2)
    } else if c == '3' {
        Some(3)
    } else if c == '4' {
        Some(4)
    } else if c == '5' {
        Some(5)
    } else if c == '6' {
        Some(6)
    } else if c == '7' {
        Some(7)
    } else if c == '8' {
        Some(8)
    } else if c == '9' {
        Some(9)
    } else {
        None
    }
}

/// Reads a count: decimal digits after an optional plus sign.
pub fn parse_count(text: &str) -> (count: Option<usize>)
    ensures
        count == count_of(text@),
{
    let chars = to_chars(text);
    let n = chars.len();
    let start: usize = if n > 0 && chars[0] == '+' {
        1
    } else {
        0
    };
    let ghost digits = chars@.skip(start as int);
    let mut valid = true;
    let mut fits = true;
    let mut value: usize = 0;
    let mut i: usize = start;
    assert(digits.take(0) == Seq::<char>::empty());
    while i < n
        invariant
            n == chars.len(),
            start <= i <= n,
            digits == chars@.skip(start as int),
            valid <==> digits_value(digits.take(i - start)) is Some,
            valid && fits ==> digits_value(digits.take(i - start)) == Some(value as nat),
            valid && !fits ==> digits_value(digits.take(i - start))->0 > usize::MAX,
        decreases n - i,
    {
        proof {
            assert(digits.take(i - start + 1).drop_last() == digits.take(i - start));
            assert(digits.take(i - start + 1).last() == chars[i as int]);
        }
        match digit_of(chars[i]) {
            None => {
                valid = false;
            },
            Some(d) => {
                if valid && fits {
                    match value.checked_mul(10) {
                        Some(tens) => match tens.checked_add(d) {
                            Some(sum) => {
                                value = sum;
                            },
                            None => {
                                fits = false;
                            },
                        },
                        None => {
                            fits = false;
                        },
                    }
                }
            },
        }
        i += 1;
    }
    assert(digits.take(n - start) == digits);
    assert(chars@.skip(0) == chars@);
    if valid && fits && n > start {
        Some(value)
    } else {
        None
    }
}

/// Reads the arguments of the command line, the program's name left out.
pub fn parse_args(args: &[String]) -> (outcome: Result<Options, ArgError>)
    ensures
        outcome_view(outcome) == parsed(args_view(args@)),
{
    let ghost all = args_view(args@);
    let mut options = Options { count: 0, dict_path: None, text_path: None };
    let mut i: usize = 0;
    while i < args.len()
        invariant
            i <= args.len() + 1,
            all == args_view(args@),
            parse_from(all, i as int, options@) == parsed(all),
        decreases args.len() + 1 - i,
    {
        let arg = &args[i];
        let flag = classify(arg.as_str());
        match flag {
            Flag::Help => {
                return Err(ArgError::Help);
            },
            Flag::Unknown => {
                return Err(ArgError::UnknownArgument(arg.clone()));
            },
            Flag::Dict => {
                if i + 1 < args.len() {
                    options.dict_path = Some(args[i + 1].clone());
                } else {
                    return Err(ArgError::MissingPath(arg.clone()));
                }
            },
            Flag::Text => {
                if i + 1 < args.len() {
                    options.text_path = Some(args[i + 1].clone());
                } else {
                    return Err(ArgError::MissingPath(arg.clone()));
                }
            },
            Flag::Count => {
                if i + 1 < args.len() {
                    match parse_count(args[i + 1].as_str()) {
                        Some(count) => {
                            options.count = count;
                        },
                        None => {
                            return Err(ArgError::InvalidCount(args[i + 1].clone()));
                        },
                    }
                } else {
                    return Err(ArgError::MissingCount(arg.clone()));
                }
            },
        }
        i += 2;
    }
    Ok(options)
}

/// What to tell the user of an error; nothing where help was asked for.
pub open spec fn message_of(error: ArgErrorView) -> Seq<char> {
    match error {
        ArgErrorView::Help => Seq::empty(),
        ArgErrorView::MissingPath(flag) => "Missing path after "@ + flag,
        ArgErrorView::MissingCount(flag) => "Missing count after "@ + flag,
        ArgErrorView::InvalidCount(text) => "Invalid count: "@ + text,
        ArgErrorView::UnknownArgument(arg) => "Unknown argument: "@ + arg,
    }
}

impl ArgError {
    /// What to tell the user of this error.
    pub fn message(&self) -> (text: String)
        ensures
            text@ == message_of(self@),
    {
        match self {
            ArgError::Help => String::new(),
            ArgError::MissingPath(flag) => String::from_str("Missing path after ").concat(
                flag.as_str(),
            ),
            ArgError::MissingCount(flag) => String::from_str("Missing count after ").concat(
                flag.as_str(),
            ),
            ArgError::InvalidCount(text) => String::from_str("Invalid count: ").concat(
                text.as_str(),
            ),
            ArgError::UnknownArgument(arg) => String::from_str("Unknown argument: ").concat(
                arg.as_str(),
            ),
        }
    }
}

impl Options {
    /// The number of words of a random text: the count given, or the default where none was.
    pub fn word_count(&self) -> (count: usize)
        ensures
            count == if self.count > 0 {
                self.count
            } else {
                DEFAULT_WORD_COUNT
            },
    {
        if self.count > 0 {
            self.count
        } else {
            DEFAULT_WORD_COUNT
        }
    }

    /// The file to read: the text file where one is given, else the dictionary
    /// given, else the system's dictionary.
    pub fn source_file(&self) -> (file: SourceFile)
        ensures
            file@ == match (self@.text_path, self@.dict_path) {
                (Some(path), _) => SourceFileView::Text(path),
                (None, Some(path)) => SourceFileView::Dictionary(path),
                (None, None) => SourceFileView::Dictionary("/usr/share/dict/words"@),
            },
    {
        match &self.text_path {
            Some(path) => SourceFile::Text(path.clone()),
            None => match &self.dict_path {
                Some(path) => SourceFile::Dictionary(path.clone()),
                None => SourceFile::Dictionary(String::from_str("/usr/share/dict/words")),
            },
        }
    }
}

} // verus!
