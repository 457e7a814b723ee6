//! The run configuration, read from an argument list.
//!
//! The caller collects the process's arguments (the program name first) into
//! plain strings and hands them over; everything from the flags' meaning to
//! the two required-argument checks is decided here and stated by
//! [`parse_args`].

use vstd::prelude::*;
use vstd::string::{StrSliceExecFns, StringExecFns};

verus! {

/// What a run should do: print help, or compile `input_file` into
/// `output_file` (prettified on demand), or watch a directory.
#[derive(Debug)]
pub struct Config {
    pub help: bool,
    pub prettify: bool,
    pub watch: String,
    pub input_file: String,
    pub output_file: String,
}

/// The mathematical shape of a [`Config`].
pub struct ConfigView {
    pub help: bool,
    pub prettify: bool,
    pub watch: Seq<char>,
    pub input_file: Seq<char>,
    pub output_file: Seq<char>,
}

impl DeepView for Config {
    type V = ConfigView;

    open spec fn deep_view(&self) -> ConfigView {
        ConfigView {
            help: self.help,
            prettify: self.prettify,
            watch: self.watch@,
            input_file: self.input_file@,
            output_file: self.output_file@,
        }
    }
}

/// Why an argument list was rejected.
#[derive(Debug, PartialEq, Eq)]
pub enum ArgsError {
    InputMissing,
    OutputMissing,
    WatchDirMissing,
    UnknownArg(String),
}

/// The mathematical shape of an [`ArgsError`].
pub enum ArgsErrorView {
    InputMissing,
    OutputMissing,
    WatchDirMissing,
    UnknownArg(Seq<char>),
}

impl DeepView for ArgsError {
    type V = ArgsErrorView;

    open spec fn deep_view(&self) -> ArgsErrorView {
        match self {
            ArgsError::InputMissing => ArgsErrorView::InputMissing,
            ArgsError::OutputMissing => ArgsErrorView::OutputMissing,
            ArgsError::WatchDirMissing => ArgsErrorView::WatchDirMissing,
            ArgsError::UnknownArg(s) => ArgsErrorView::UnknownArg(s@),
        }
    }
}

/// The description that [`ArgsError::message`] returns for each error.
pub open spec fn args_error_text(e: ArgsErrorView) -> Seq<char> {
    match e {
        ArgsErrorView::InputMissing => "Input file not specified"@,
        ArgsErrorView::OutputMissing => "Output file not specified"@,
        ArgsErrorView::WatchDirMissing => "Directory to watch not specified"@,
        ArgsErrorView::UnknownArg(s) => "Unknown flag '"@ + s + "'"@,
    }
}

impl ArgsError {
    /// The human-readable description of this error, with an unknown flag
    /// quoted verbatim.
    pub fn message(&self) -> (out: String)
        ensures
            out@ == args_error_text(self.deep_view()),
    {
        match self {
            ArgsError::InputMissing => String::from_str("Input file not specified"),
            ArgsError::OutputMissing => String::from_str("Output file not specified"),
            ArgsError::WatchDirMissing => String::from_str("Directory to watch not specified"),
            ArgsError::UnknownArg(s) => {
                let mut out = String::from_str("Unknown flag '");
                out.append(s.as_str());
                out.append("'");
                out
            },
        }
    }
}

/// Before any flag is read: everything off, every path empty.
pub open spec fn initial_config() -> ConfigView {
    ConfigView {
        help: false,
        prettify: false,
        watch: Seq::empty(),
        input_file: Seq::empty(),
        output_file: Seq::empty(),
    }
}

/// The checks made once the flags are read: without `help` or a watch
/// directory an input file is required, and without `help` an output file.
pub open spec fn finish_args(c: ConfigView) -> Result<ConfigView, ArgsErrorView> {
    if c.input_file.len() == 0 && !c.help && c.watch.len() == 0 {
        Err(ArgsErrorView::InputMissing)
    } else if c.output_file.len() == 0 && !c.help {
        Err(ArgsErrorView::OutputMissing)
    } else {
        Ok(c)
    }
}

/// Reading the argument list from index `i` on, `acc` holding what earlier
/// flags set. A value-taking flag missing its value earns that flag's error;
/// an unrecognized argument is reported verbatim; later values overwrite
/// earlier ones.
pub open spec fn parse_args(args: Seq<Seq<char>>, i: int, acc: ConfigView) -> Result<
    ConfigView,
    ArgsErrorView,
>
    decreases args.len() - i,
{
    if i < 0 || i >= args.len() {
        finish_args(acc)
    } else {
        let a = args[i];
        if a == "-i"@ || a == "--input"@ {
            if i + 1 < args.len() {
                parse_args(args, i + 2, ConfigView { input_file: args[i + 1], ..acc })
            } else {
                Err(ArgsErrorView::InputMissing)
            }
        } else if a == "-o"@ || a == "--output"@ {
            if i + 1 < args.len() {
                parse_args(args, i + 2, ConfigView { output_file: args[i + 1], ..acc })
            } else {
                Err(ArgsErrorView::OutputMissing)
            }
        } else if a == "-p"@ || a == "--prettify"@ {
            parse_args(args, i + 1, ConfigView { prettify: true, ..acc })
        } else if a == "-w"@ || a == "--watch"@ {
            if i + 1 < args.len() {
                parse_args(args, i + 2, ConfigView { watch: args[i + 1], ..acc })
            } else {
                Err(ArgsErrorView::WatchDirMissing)
            }
        } else if a == "-h"@ || a == "--help"@ {
            parse_args(args, i + 1, ConfigView { help: true, ..acc })
        } else {
            Err(ArgsErrorView::UnknownArg(a))
        }
    }
}

/// Character-by-character string equality.
fn str_eq(a: &str, b: &str) -> (r: bool)
    ensures
        r == (a@ == b@),
{
    let na = a.unicode_len();
    let nb = b.unicode_len();
    if na != nb {
        return false;
    }
    let mut i: usize = 0;
    while i < na
        invariant
            na == a@.len(),
            nb == b@.len(),
            na == nb,
            i <= na,
            forall|j: int| 0 <= j < i ==> a@[j] == b@[j],
        decreases na - i,
    {
        if a.get_char(i) != b.get_char(i) {
            return false;
        }
        i += 1;
    }
    proof {
        assert(a@ =~= b@);
    }
    true
}

impl Config {
    /// Read a full argument list, the program's own name first (it is
    /// skipped), and return what [`parse_args`] says of it.
    pub fn new(args: Vec<String>) -> (r: Result<Config, ArgsError>)
        ensures
            match parse_args(args.deep_view(), 1, initial_config()) {
                Ok(c) => r is Ok && r->Ok_0.deep_view() == c,
                Err(e) => r is Err && r->Err_0.deep_view() == e,
            },
    {
        let ghost av = args.deep_view();
        let mut cfg = Config {
            help: false,
            prettify: false,
            watch: String::new(),
            input_file: String::new(),
            output_file: String::new(),
        };
        let mut i: usize = 1;
        while i < args.len()
            invariant
                av == args.deep_view(),
                av.len() == args@.len(),
                forall|j: int| 0 <= j < args@.len() ==> av[j] == args@[j]@,
                parse_args(av, 1, initial_config()) == parse_args(av, i as int, cfg.deep_view()),
            decreases args@.len() - i,
        {
            let a = &args[i];
            if str_eq(a.as_str(), "-i") || str_eq(a.as_str(), "--input") {
                if i + 1 < args.len() {
                    cfg.input_file = args[i + 1].clone();
                    i += 2;
                } else {
                    return Err(ArgsError::InputMissing);
                }
            } else if str_eq(a.as_str(), "-o") || str_eq(a.as_str(), "--output") {
                if i + 1 < args.len() {
                    cfg.output_file = args[i + 1].clone();
                    i += 2;
                } else {
                    return Err(ArgsError::OutputMissing);
                }
            } else if str_eq(a.as_str(), "-p") || str_eq(a.as_str(), "--prettify") {
                cfg.prettify = true;
                i += 1;
            } else if str_eq(a.as_str(), "-w") || str_eq(a.as_str(), "--watch") {
                if i + 1 < args.len() {
                    cfg.watch = args[i + 1].clone();
                    i += 2;
                } else {
                    return Err(ArgsError::WatchDirMissing);
                }
            } else if str_eq(a.as_str(), "-h") || str_eq(a.as_str(), "--help") {
                cfg.help = true;
                i += 1;
            } else {
                return Err(ArgsError::UnknownArg(a.clone()));
            }
        }
        if cfg.input_file.as_str().is_empty() && !cfg.help && cfg.watch.as_str().is_empty() {
            return Err(ArgsError::InputMissing);
        }
        if cfg.output_file.as_str().is_empty() && !cfg.help {
            return Err(ArgsError::OutputMissing);
        }
        Ok(cfg)
    }
}

} // verus!
