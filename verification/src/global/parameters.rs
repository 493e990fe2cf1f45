//! From parsed command-line arguments to the settings of a run.
//!
//! The arguments arrive as [`Matches`]: for each argument that was given, its
//! name and, where it took one, its value. Everything the engine needs to
//! know of a command line is read from there.

use crate::global::enums::{algorithm_numbered, spec_algorithm_numbered, Algorithm, HashMode};
use crate::global::states::{EraseMode, HeaderFile, KeyFile, PasswordMode, SkipMode};
use crate::global::structs::CryptoParams;
use vstd::prelude::*;
use vstd::string::StringExecFns;

verus! {

/// The error of `str::parse` for integers. It is mapped, never inspected.
#[verifier::external_type_specification]
#[verifier::external_body]
pub struct ExParseIntError(core::num::ParseIntError);

/// One argument that was given on the command line.
#[derive(Debug)]
pub struct Arg {
    pub name: String,
    pub value: Option<String>,
}

/// The arguments that were given to a subcommand, in the order in which the
/// first of a name counts.
#[derive(Debug)]
pub struct Matches {
    pub args: Vec<Arg>,
}

/// An argument as a mathematical value.
pub ghost struct ArgView {
    pub name: Seq<char>,
    pub value: Option<Seq<char>>,
}

impl View for Arg {
    type V = ArgView;

    open spec fn view(&self) -> ArgView {
        ArgView {
            name: self.name@,
            value: match self.value {
                Some(v) => Some(v@),
                None => None,
            },
        }
    }
}

impl View for Matches {
    type V = Seq<ArgView>;

    open spec fn view(&self) -> Seq<ArgView> {
        Seq::new(self.args@.len(), |i: int| self.args@[i]@)
    }
}

/// Why the arguments do not make a run.
#[derive(Debug)]
pub enum ParamError {
    /// The named argument was not given, or was given without a value.
    Missing(String),
    /// `keyfile` was given without a value.
    NoKeyfile,
    /// `erase` or `passes` was given without a value.
    NoPasses,
    /// `aead` was given without a value.
    NoAead,
    /// The value of `aead` is not the number of an algorithm.
    InvalidAead,
    /// `header` was given without a value.
    NoHeader,
}

impl ParamError {
    /// The sentence that tells the user what is wrong with the arguments.
    pub open spec fn spec_message(&self) -> Seq<char> {
        match self {
            ParamError::Missing(name) => "No "@ + name@ + " provided"@,
            ParamError::NoKeyfile => "No keyfile/invalid text provided"@,
            ParamError::NoPasses => "No amount of passes specified"@,
            ParamError::NoAead => "Error reading value of --aead"@,
            ParamError::InvalidAead =>
                "Invalid AEAD selected! Use \"dexios list aead\" to see all possible values."@,
            ParamError::NoHeader => "No header/invalid text provided"@,
        }
    }

    /// The sentence that tells the user what is wrong with the arguments. For
    /// a missing argument it is `No`, the argument's name and `provided`.
    pub fn message(&self) -> (text: String)
        ensures
            text@ == self.spec_message(),
    {
        match self {
            ParamError::Missing(name) => "No ".to_owned().concat(name.as_str()).concat(
                " provided",
            ),
            ParamError::NoKeyfile => "No keyfile/invalid text provided".to_owned(),
            ParamError::NoPasses => "No amount of passes specified".to_owned(),
            ParamError::NoAead => "Error reading value of --aead".to_owned(),
            ParamError::InvalidAead =>
                "Invalid AEAD selected! Use \"dexios list aead\" to see all possible values."
                    .to_owned(),
            ParamError::NoHeader => "No header/invalid text provided".to_owned(),
        }
    }
}

/// Number of erase passes where none, or none that can be read, is given.
pub const DEFAULT_PASSES: i32 = 2;

/// The value slot of the first argument called `name`: `None` where no such
/// argument was given, `Some(None)` where it was given without a value.
pub open spec fn lookup(args: Seq<ArgView>, name: Seq<char>) -> Option<Option<Seq<char>>>
    decreases args.len(),
{
    if args.len() == 0 {
        None
    } else if args[0].name == name {
        Some(args[0].value)
    } else {
        lookup(args.skip(1), name)
    }
}

/// Whether an argument called `name` was given.
pub open spec fn present(args: Seq<ArgView>, name: Seq<char>) -> bool {
    lookup(args, name) is Some
}

/// The value of the first argument called `name`, if it was given with one.
pub open spec fn value(args: Seq<ArgView>, name: Seq<char>) -> Option<Seq<char>> {
    match lookup(args, name) {
        Some(Some(v)) => Some(v),
        _ => None,
    }
}

/// The value of a decimal digit, `0` to `9`.
pub open spec fn digit_value(c: char) -> Option<int> {
    if '0' as u32 <= c as u32 && c as u32 <= '9' as u32 {
        Some(c as u32 - '0' as u32)
    } else {
        None
    }
}

/// The number that one or more decimal digits spell, leading zeros allowed;
/// `None` for the empty text and for a text that holds anything else.
pub open spec fn decimal_value(digits: Seq<char>) -> Option<int>
    decreases digits.len(),
{
    if digits.len() == 0 {
        None
    } else if digits.len() == 1 {
        digit_value(digits[0])
    } else {
        match (decimal_value(digits.drop_last()), digit_value(digits.last())) {
            (Some(front), Some(digit)) => Some(10 * front + digit),
            _ => None,
        }
    }
}

/// The number that `str::parse::<i32>` reads from `text`, if it reads one:
/// an optional `+` or `-`, then decimal digits and nothing else, with a value
/// that an `i32` holds.
pub open spec fn parsed_i32(text: Seq<char>) -> Option<i32> {
    let negative = text.len() > 0 && text[0] == '-';
    let signed = text.len() > 0 && (text[0] == '-' || text[0] == '+');
    match decimal_value(if signed { text.skip(1) } else { text }) {
        Some(value) => {
            let n = if negative { -value } else { value };
            if i32::MIN <= n <= i32::MAX {
                Some(n as i32)
            } else {
                None
            }
        },
        None => None,
    }
}

/// The number that `str::parse::<usize>` reads from `text`, if it reads one:
/// an optional `+`, then decimal digits and nothing else, with a value that a
/// `usize` holds.
pub open spec fn parsed_usize(text: Seq<char>) -> Option<usize> {
    let signed = text.len() > 0 && text[0] == '+';
    match decimal_value(if signed { text.skip(1) } else { text }) {
        Some(value) => if value <= usize::MAX {
            Some(value as usize)
        } else {
            None
        },
        None => None,
    }
}

/// `str::parse::<i32>`.
///
/// Trusted: the text is read as [`parsed_i32`] spells it out, which is what
/// the documentation of the standard library says of it.
#[verifier::external_body]
fn parse_i32(text: &str) -> (r: Result<i32, core::num::ParseIntError>)
    ensures
        r is Ok <==> parsed_i32(text@) is Some,
        r matches Ok(n) ==> parsed_i32(text@) == Some(n),
{
    text.parse::<i32>()
}

/// `str::parse::<usize>`.
///
/// Trusted: the text is read as [`parsed_usize`] spells it out, which is what
/// the documentation of the standard library says of it.
#[verifier::external_body]
fn parse_usize(text: &str) -> (r: Result<usize, core::num::ParseIntError>)
    ensures
        r is Ok <==> parsed_usize(text@) is Some,
        r matches Ok(n) ==> parsed_usize(text@) == Some(n),
{
    text.parse::<usize>()
}

impl Matches {
    /// The first argument called `name`, if one was given.
    fn find(&self, name: &str) -> (r: Option<&Arg>)
        ensures
            r is Some <==> present(self@, name@),
            r matches Some(arg) ==> lookup(self@, name@) == Some(arg@.value),
    {
        let wanted = name.to_owned();
        let mut i: usize = 0;
        proof {
            assert(self@.skip(0) =~= self@);
        }
        while i < self.args.len()
            invariant
                i <= self.args@.len(),
                wanted@ == name@,
                lookup(self@, name@) == lookup(self@.skip(i as int), name@),
            decreases self.args@.len() - i,
        {
            proof {
                assert(self@.skip(i as int)[0] == self.args@[i as int]@);
                assert(self@.skip(i as int).skip(1) =~= self@.skip(i + 1));
            }
            if self.args[i].name == wanted {
                return Some(&self.args[i]);
            }
            i = i + 1;
        }
        None
    }

    /// Whether an argument called `name` was given.
    pub fn is_present(&self, name: &str) -> (b: bool)
        ensures
            b == present(self@, name@),
    {
        self.find(name).is_some()
    }

    /// The value of the first argument called `name`, if it was given with
    /// one.
    pub fn value_of(&self, name: &str) -> (v: Option<&String>)
        ensures
            v is Some <==> value(self@, name@) is Some,
            v matches Some(text) ==> value(self@, name@) == Some(text@),
    {
        match self.find(name) {
            Some(arg) => arg.value.as_ref(),
            None => None,
        }
    }
}

/// The value of the argument called `name`.
///
/// Fails with `Missing(name)` where the argument was not given or has no
/// value.
pub fn get_param(name: &str, sub_matches: &Matches) -> (r: Result<String, ParamError>)
    ensures
        r is Ok <==> value(sub_matches@, name@) is Some,
        r matches Ok(text) ==> value(sub_matches@, name@) == Some(text@),
        r matches Err(e) ==> e matches ParamError::Missing(n) && n@ == name@,
{
    match sub_matches.value_of(name) {
        Some(text) => Ok(text.clone()),
        None => Err(ParamError::Missing(name.to_owned())),
    }
}

/// Whether prompts are hidden: they are where `skip` was given.
pub open spec fn spec_skipmode(args: Seq<ArgView>) -> SkipMode {
    if present(args, "skip"@) {
        SkipMode::HidePrompts
    } else {
        SkipMode::ShowPrompts
    }
}

/// Whether prompts are hidden: they are where `skip` was given.
pub fn skipmode(sub_matches: &Matches) -> (mode: SkipMode)
    ensures
        mode == spec_skipmode(sub_matches@),
{
    if sub_matches.is_present("skip") {
        SkipMode::HidePrompts
    } else {
        SkipMode::ShowPrompts
    }
}

/// The number of passes to make where `read` is what could be read of the
/// argument: the number read, or the default where none could be.
pub open spec fn spec_passes_from(read: Option<i32>) -> i32 {
    match read {
        Some(n) => n,
        None => DEFAULT_PASSES,
    }
}

/// The number of passes to make where `read` is what could be read of the
/// argument, and whether the default had to stand in.
pub fn passes_from(read: Option<i32>) -> (r: (i32, bool))
    ensures
        r.0 == spec_passes_from(read),
        r.1 == (read is None),
{
    match read {
        Some(n) => (n, false),
        None => (DEFAULT_PASSES, true),
    }
}

/// The number of passes that `text` asks for: the number it spells, or the
/// default where it spells none.
pub open spec fn passes_of(text: Seq<char>) -> i32 {
    spec_passes_from(parsed_i32(text))
}

/// The number of passes that `text` asks for, and whether the default had to
/// stand in for a number that could not be read.
pub fn read_passes(text: &str) -> (r: (i32, bool))
    ensures
        r.0 == passes_of(text@),
        r.1 == (parsed_i32(text@) is None),
{
    match parse_i32(text) {
        Ok(n) => passes_from(Some(n)),
        Err(_) => passes_from(None),
    }
}

/// The erase setting of a command line.
pub open spec fn spec_erase_mode(args: Seq<ArgView>) -> Result<EraseMode, ()> {
    if present(args, "erase"@) {
        match value(args, "erase"@) {
            Some(text) => Ok(EraseMode::EraseFile(passes_of(text))),
            None => Err(()),
        }
    } else {
        Ok(EraseMode::IgnoreFile(0))
    }
}

/// The settings that a command line asks for.
///
/// - `keyfile` with a value names the keyfile; without one it fails with
///   `NoKeyfile`.
/// - `hash` asks for the digest.
/// - `skip` hides the prompts.
/// - `erase` with a value asks for that many passes, or for two where the
///   value is no number; without a value it fails with `NoPasses`.
/// - `password` makes the user's password take precedence.
pub fn parameter_handler(sub_matches: &Matches) -> (r: Result<CryptoParams, ParamError>)
    ensures
        r is Ok <==> (present(sub_matches@, "keyfile"@) ==> value(sub_matches@, "keyfile"@)
            is Some) && spec_erase_mode(sub_matches@) is Ok,
        r matches Ok(p) ==> {
            &&& p.keyfile@ == value(sub_matches@, "keyfile"@)
            &&& p.hash_mode == (if present(sub_matches@, "hash"@) {
                HashMode::CalculateHash
            } else {
                HashMode::NoHash
            })
            &&& p.skip == spec_skipmode(sub_matches@)
            &&& spec_erase_mode(sub_matches@) == Ok::<EraseMode, ()>(p.erase)
            &&& p.password == (if present(sub_matches@, "password"@) {
                PasswordMode::ForceUserProvidedPassword
            } else {
                PasswordMode::NormalKeySourcePriority
            })
        },
        r matches Err(e) ==> (if present(sub_matches@, "keyfile"@) && value(
            sub_matches@,
            "keyfile"@,
        ) is None {
            e is NoKeyfile
        } else {
            e is NoPasses
        }),
{
    let keyfile = if sub_matches.is_present("keyfile") {
        match sub_matches.value_of("keyfile") {
            Some(name) => KeyFile::Given(name.clone()),
            None => {
                return Err(ParamError::NoKeyfile);
            },
        }
    } else {
        KeyFile::Absent
    };
    let hash_mode = if sub_matches.is_present("hash") {
        HashMode::CalculateHash
    } else {
        HashMode::NoHash
    };
    let skip = skipmode(sub_matches);
    let erase = if sub_matches.is_present("erase") {
        match sub_matches.value_of("erase") {
            Some(text) => EraseMode::EraseFile(read_passes(text.as_str()).0),
            None => {
                return Err(ParamError::NoPasses);
            },
        }
    } else {
        EraseMode::IgnoreFile(0)
    };
    let password = if sub_matches.is_present("password") {
        PasswordMode::ForceUserProvidedPassword
    } else {
        PasswordMode::NormalKeySourcePriority
    };
    Ok(CryptoParams { hash_mode, skip, password, erase, keyfile })
}

/// The algorithm that a command line selects.
pub open spec fn spec_selected_algorithm(args: Seq<ArgView>) -> Result<Algorithm, ()> {
    if present(args, "aead"@) {
        match value(args, "aead"@) {
            Some(text) => match parsed_usize(text) {
                Some(n) => match spec_algorithm_numbered(n) {
                    Some(a) => Ok(a),
                    None => Err(()),
                },
                None => Err(()),
            },
            None => Err(()),
        }
    } else {
        Ok(Algorithm::Aes256Gcm)
    }
}

/// The algorithm that a command line selects: the one whose number `aead`
/// gives, counting from one, or the first where `aead` was not given.
///
/// Fails with `NoAead` where `aead` has no value, and with `InvalidAead`
/// where the value is no number or no algorithm has that number.
pub fn encrypt_additional_params(sub_matches: &Matches) -> (r: Result<Algorithm, ParamError>)
    ensures
        r is Ok <==> spec_selected_algorithm(sub_matches@) is Ok,
        r matches Ok(a) ==> spec_selected_algorithm(sub_matches@) == Ok::<Algorithm, ()>(a),
        r matches Err(e) ==> (if value(sub_matches@, "aead"@) is None {
            e is NoAead
        } else {
            e is InvalidAead
        }),
{
    let provided_aead: usize = if sub_matches.is_present("aead") {
        match sub_matches.value_of("aead") {
            Some(text) => match parse_usize(text.as_str()) {
                Ok(n) => n,
                Err(_) => {
                    return Err(ParamError::InvalidAead);
                },
            },
            None => {
                return Err(ParamError::NoAead);
            },
        }
    } else {
        1
    };
    match algorithm_numbered(provided_aead) {
        Some(algorithm) => Ok(algorithm),
        None => Err(ParamError::InvalidAead),
    }
}

/// The detached header file that a command line names, if any.
///
/// Fails with `NoHeader` where `header` was given without a value.
pub fn decrypt_additional_params(sub_matches: &Matches) -> (r: Result<HeaderFile, ParamError>)
    ensures
        r is Ok <==> (present(sub_matches@, "header"@) ==> value(sub_matches@, "header"@)
            is Some),
        r matches Ok(h) ==> h@ == value(sub_matches@, "header"@),
        r matches Err(e) ==> e is NoHeader,
{
    if sub_matches.is_present("header") {
        match sub_matches.value_of("header") {
            Some(name) => Ok(HeaderFile::Given(name.clone())),
            None => Err(ParamError::NoHeader),
        }
    } else {
        Ok(HeaderFile::Absent)
    }
}

/// The number of erase passes that a command line asks for.
pub open spec fn spec_erase_passes(args: Seq<ArgView>) -> Result<i32, ()> {
    if present(args, "passes"@) {
        match value(args, "passes"@) {
            Some(text) => Ok(passes_of(text)),
            None => Err(()),
        }
    } else {
        Ok(DEFAULT_PASSES)
    }
}

/// The number of erase passes that a command line asks for: the number that
/// `passes` gives, or two where `passes` was not given or gives no number.
///
/// Fails with `NoPasses` where `passes` was given without a value.
pub fn erase_params(sub_matches: &Matches) -> (r: Result<i32, ParamError>)
    ensures
        r is Ok <==> spec_erase_passes(sub_matches@) is Ok,
        r matches Ok(n) ==> spec_erase_passes(sub_matches@) == Ok::<i32, ()>(n),
        r matches Err(e) ==> e is NoPasses,
{
    if sub_matches.is_present("passes") {
        match sub_matches.value_of("passes") {
            Some(text) => Ok(read_passes(text.as_str()).0),
            None => Err(ParamError::NoPasses),
        }
    } else {
        Ok(DEFAULT_PASSES)
    }
}

} // verus!
