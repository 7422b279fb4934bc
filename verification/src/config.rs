//! Options of the formatter.
use crate::error::Error;
use crate::model::texts;
use vstd::prelude::*;

verus! {

/// Newline mode that leaves every newline run as it is in the source.
pub const NEWLINE_MODE_NO_CHANGE: &'static str = "no-change";

/// Newline mode that runs the fix-up pass before formatting.
pub const NEWLINE_MODE_FIX_UP: &'static str = "fix-up";

/// The options of the formatter.
pub struct FusionConfig {
    /// Newline mode 'no-change' will make zero changes to newlines in the file.
    /// Mode 'fix-up' will shuffle around newlines for improved formatting.
    pub newline_mode: String,
    /// If true, multi-line strings (''') will have their whitespace modified
    pub format_multiline_string_contents: bool,
    /// Function/macro names that should have a fixed indent for their body.
    pub fixed_indent_symbols: Vec<String>,
    /// Function/macro names that should use fixed indent if their body is long.
    pub smart_indent_symbols: Vec<String>,
}

/// The options as the contracts see them.
pub struct Options {
    pub newline_mode: Seq<char>,
    pub format_multiline_string_contents: bool,
    pub fixed_indent_symbols: Seq<Seq<char>>,
    pub smart_indent_symbols: Seq<Seq<char>>,
}

impl Options {
    /// The fix-up pass runs before formatting.
    pub open spec fn fix_up(self) -> bool {
        self.newline_mode == NEWLINE_MODE_FIX_UP@
    }

    /// The newline mode is one of the two that exist.
    pub open spec fn has_known_mode(self) -> bool {
        self.newline_mode == NEWLINE_MODE_FIX_UP@ || self.newline_mode == NEWLINE_MODE_NO_CHANGE@
    }
}

impl View for FusionConfig {
    type V = Options;

    open spec fn view(&self) -> Options {
        Options {
            newline_mode: self.newline_mode@,
            format_multiline_string_contents: self.format_multiline_string_contents,
            fixed_indent_symbols: texts(self.fixed_indent_symbols@),
            smart_indent_symbols: texts(self.smart_indent_symbols@),
        }
    }
}

/// Whether `a` and `b` hold the same text.
pub fn same_text(a: &str, b: &str) -> (same: bool)
    ensures
        same == (a@ == b@),
{
    a.to_owned() == b.to_owned()
}

/// Whether `list` holds `text`.
pub fn contains_text(list: &Vec<String>, text: &str) -> (found: bool)
    ensures
        found == texts(list@).contains(text@),
{
    let mut i: usize = 0;
    while i < list.len()
        invariant
            i <= list.len(),
            forall|j: int| 0 <= j < i ==> texts(list@)[j] != text@,
        decreases list.len() - i,
    {
        if same_text(list[i].as_str(), text) {
            assert(texts(list@)[i as int] == text@);
            return true;
        }
        i += 1;
    }
    false
}

impl FusionConfig {
    /// Whether the fix-up pass runs before formatting.
    pub fn newline_fix_up_mode(&self) -> (b: bool)
        ensures
            b == self@.fix_up(),
    {
        same_text(self.newline_mode.as_str(), NEWLINE_MODE_FIX_UP)
    }
}


/// A vector of owned strings.
fn owned(words: &[&str]) -> (out: Vec<String>)
    ensures
        out.len() == words.len(),
        forall|i: int| 0 <= i < words.len() ==> out[i]@ == words[i]@,
{
    let mut out: Vec<String> = Vec::new();
    let mut i: usize = 0;
    while i < words.len()
        invariant
            i <= words.len(),
            out.len() == i,
            forall|j: int| 0 <= j < i ==> out[j]@ == words[j]@,
        decreases words.len() - i,
    {
        out.push(words[i].to_owned());
        i += 1;
    }
    out
}

/// The symbols whose forms indent by a fixed amount where no configuration says
/// otherwise.
pub open spec fn default_fixed_indent_symbols() -> Seq<Seq<char>> {
    seq![
        "begin"@,
        "define"@,
        "define_syntax"@,
        "lambda"@,
        "let"@,
        "let_values"@,
        "lets"@,
        "letrec"@,
        "module"@,
        "unless"@,
        "when"@,
        "|"@,
    ]
}

/// The symbols whose forms indent by a fixed amount if they are long, where no
/// configuration says otherwise.
pub open spec fn default_smart_indent_symbols() -> Seq<Seq<char>> {
    seq!["if"@, "cond"@]
}

/// The options that hold where no configuration says otherwise: the fix-up pass runs,
/// multi-line strings are reformatted, and the usual binding and body forms indent by a
/// fixed amount.
pub fn new_default_config() -> (config: FusionConfig)
    ensures
        config@ == (Options {
            newline_mode: NEWLINE_MODE_FIX_UP@,
            format_multiline_string_contents: true,
            fixed_indent_symbols: default_fixed_indent_symbols(),
            smart_indent_symbols: default_smart_indent_symbols(),
        }),
{
    let fixed = owned(
        &[
            "begin",
            "define",
            "define_syntax",
            "lambda",
            "let",
            "let_values",
            "lets",
            "letrec",
            "module",
            "unless",
            "when",
            "|",
        ],
    );
    let smart = owned(&["if", "cond"]);
    assert(texts(fixed@) =~= default_fixed_indent_symbols());
    assert(texts(smart@) =~= default_smart_indent_symbols());
    FusionConfig {
        newline_mode: NEWLINE_MODE_FIX_UP.to_owned(),
        format_multiline_string_contents: true,
        fixed_indent_symbols: fixed,
        smart_indent_symbols: smart,
    }
}

/// The options that a configuration file gives: each one is optional.
pub struct ConfigOverrides {
    pub newline_mode: Option<String>,
    pub format_multiline_string_contents: Option<bool>,
    pub fixed_indent_symbols: Option<Vec<String>>,
    pub smart_indent_symbols: Option<Vec<String>>,
}

/// What the error for an unknown newline mode starts with.
pub const UNKNOWN_MODE: &'static str = "Unknown newline mode in config: ";

/// What the error for an unknown newline mode ends with.
pub const KNOWN_MODES: &'static str = ". Should be 'no-change' or 'fix-up'";

impl FusionConfig {
    /// The options of `overrides` where it gives one, those of `defaults` elsewhere.
    pub fn from_overrides_with_defaults(overrides: ConfigOverrides, defaults: FusionConfig) -> (config:
        FusionConfig)
        ensures
            config.newline_mode@ == (match overrides.newline_mode {
                Some(mode) => mode@,
                None => defaults.newline_mode@,
            }),
            config.format_multiline_string_contents == (match overrides.format_multiline_string_contents {
                Some(flag) => flag,
                None => defaults.format_multiline_string_contents,
            }),
            config.fixed_indent_symbols@ == (match overrides.fixed_indent_symbols {
                Some(symbols) => symbols@,
                None => defaults.fixed_indent_symbols@,
            }),
            config.smart_indent_symbols@ == (match overrides.smart_indent_symbols {
                Some(symbols) => symbols@,
                None => defaults.smart_indent_symbols@,
            }),
    {
        FusionConfig {
            newline_mode: match overrides.newline_mode {
                Some(mode) => mode,
                None => defaults.newline_mode,
            },
            format_multiline_string_contents: match overrides.format_multiline_string_contents {
                Some(flag) => flag,
                None => defaults.format_multiline_string_contents,
            },
            fixed_indent_symbols: match overrides.fixed_indent_symbols {
                Some(symbols) => symbols,
                None => defaults.fixed_indent_symbols,
            },
            smart_indent_symbols: match overrides.smart_indent_symbols {
                Some(symbols) => symbols,
                None => defaults.smart_indent_symbols,
            },
        }
    }

    /// The options, if their newline mode is one of the two that exist; else an error
    /// that names the mode.
    pub fn validated(self) -> (result: Result<FusionConfig, Error>)
        ensures
            match result {
                Ok(config) => self@.has_known_mode() && config == self,
                Err(error) => !self@.has_known_mode() && error.span() is None && error.message()
                    == UNKNOWN_MODE@ + self.newline_mode@ + KNOWN_MODES@,
            },
    {
        if same_text(self.newline_mode.as_str(), NEWLINE_MODE_NO_CHANGE) || same_text(
            self.newline_mode.as_str(),
            NEWLINE_MODE_FIX_UP,
        ) {
            Ok(self)
        } else {
            let mut message = UNKNOWN_MODE.to_owned();
            message.append(self.newline_mode.as_str());
            message.append(KNOWN_MODES);
            Err(Error::Generic(message))
        }
    }
}

} // verus!
