//! The arguments of the plain command line: an optional `-f` or `--file` with
//! the path of the configuration.

use crate::text::texts;
use vstd::prelude::*;
use vstd::string::StringExecFns;

verus! {

/// Why the arguments were refused.
#[derive(Debug, PartialEq, Eq)]
pub enum ParseArgsError {
    /// An argument that is no known option; the text is left empty.
    Unknown(String),
}

/// The arguments that were understood.
#[derive(Debug, PartialEq, Eq)]
pub struct Args {
    e2e_yaml: Option<String>,
}

impl Default for Args {
    fn default() -> (r: Self)
        ensures
            r.file() is None,
    {
        Args { e2e_yaml: None }
    }
}

/// Whether an argument is the option that names the configuration file.
pub open spec fn is_file_option(arg: Seq<char>) -> bool {
    arg == "-f"@ || arg == "--file"@
}

/// What the arguments from position `i` on make of the file named so far:
/// each file option takes the argument behind it as the path, or takes the
/// path away where nothing stands behind it; anything else is refused.
pub open spec fn parse_from(args: Seq<Seq<char>>, i: int, file: Option<Seq<char>>) -> Result<
    Option<Seq<char>>,
    (),
>
    decreases args.len() - i,
{
    if i < 0 || i >= args.len() {
        Ok(file)
    } else if is_file_option(args[i]) {
        if i + 1 < args.len() {
            parse_from(args, i + 2, Some(args[i + 1]))
        } else {
            Ok(None)
        }
    } else {
        Err(())
    }
}

impl Args {
    /// The path that was given for the configuration, if one was.
    pub closed spec fn file(&self) -> Option<Seq<char>> {
        match self.e2e_yaml {
            Some(path) => Some(path@),
            None => None,
        }
    }

    /// The path of the configuration: the one given, or `e2e.yaml`.
    pub fn e2e_yaml(&self) -> (r: &str)
        ensures
            r@ == (match self.file() {
                Some(path) => path,
                None => "e2e.yaml"@,
            }),
    {
        match &self.e2e_yaml {
            Some(path) => path.as_str(),
            None => "e2e.yaml",
        }
    }
}

/// Reads the arguments of the program; the first is the program's own name
/// and is passed over.
pub fn parse_args(args: Vec<String>) -> (r: Result<Args, ParseArgsError>)
    ensures
        match r {
            Ok(parsed) => parse_from(texts(args@), 1, None) == Ok::<Option<Seq<char>>, ()>(
                parsed.file(),
            ),
            Err(e) => parse_from(texts(args@), 1, None) is Err && (e matches ParseArgsError::Unknown(
                text,
            ) && text@.len() == 0),
        },
{
    let short = String::from_str("-f");
    let long = String::from_str("--file");
    let n = args.len();
    let mut parsed = Args::default();
    let mut i: usize = 1;
    while i < n
        invariant
            n == args@.len(),
            short@ == "-f"@,
            long@ == "--file"@,
            parse_from(texts(args@), i as int, parsed.file()) == parse_from(texts(args@), 1, None),
        decreases n - i,
    {
        if args[i] == short || args[i] == long {
            if i + 1 < n {
                parsed.e2e_yaml = Some(args[i + 1].clone());
                i += 2;
            } else {
                parsed.e2e_yaml = None;
                i = n;
            }
        } else {
            return Err(ParseArgsError::Unknown(String::new()));
        }
    }
    Ok(parsed)
}

} // verus!
