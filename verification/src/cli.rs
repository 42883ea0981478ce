//! Command-line interface: the options and the decisions a run makes.
//!
//! Reading the input, parsing its JSON text and writing the output are left
//! to the program around the library; what a run computes from the options
//! and the schema is stated and proved here.

use vstd::prelude::*;

use crate::error::{ConversionError, ErrorModel};
use crate::generator::luau::module_text;
use crate::generator::{LuauConfig, LuauConfigModel, LuauGenerator};
use crate::ir::types::opt_text;
use crate::ir::{IrConfig, TypeModule, TypeModuleModel};
use crate::parser::schema::{fresh_parser, parse_outcome};
use crate::parser::SchemaParser;
use crate::schema::{JsonSchema, SchemaModel};
use crate::text::{chars_of, owned, repeat, repeat_text, text_eq};

verus! {

/// Convert JSON Schema to Luau type definitions.
#[derive(Debug)]
pub struct Cli {
    /// Input JSON Schema file path.  If not provided or `-`, reads from stdin.
    pub input: Option<String>,
    /// Output file path.  If not provided, writes to stdout.
    pub output: Option<String>,
    /// Read input from stdin.
    pub stdin: bool,
    /// Write output to file (alternative to the positional output path).
    pub output_file: Option<String>,
    /// Root type name for the generated types (the command line's
    /// `--type-name`, "Root" by default).
    pub root_name: String,
    /// Exclude constraint annotations from the output.
    pub no_constraints: bool,
    /// Exclude description comments from the output.
    pub no_descriptions: bool,
    /// Exclude the module export (`return {}`) at the end.
    pub no_module_export: bool,
    /// Indentation: "tab" for a tab, a number for that many spaces, or the
    /// text itself (default: 4 spaces).
    pub indent: Option<String>,
    /// Validate the schema without generating output.
    pub validate: bool,
    /// Print the parsed IR structure for debugging.
    pub debug_ir: bool,
}

/// Where the input is read from.
#[derive(Debug)]
pub enum InputSource {
    /// Standard input.
    Stdin,
    /// The file at this path.
    File(String),
}

/// What a run produced.
#[derive(Debug)]
pub enum RunOutcome {
    /// The schema was only validated.
    Validated,
    /// The parsed IR, to be printed for debugging.
    DebugIr(TypeModule),
    /// The generated Luau text, and the file to write it to (standard
    /// output when there is none).
    Generated { output: String, target: Option<String> },
}

/// Whether a character is an ASCII digit.
pub open spec fn is_ascii_digit(c: char) -> bool {
    '0' <= c && c <= '9'
}

/// Whether every character is an ASCII digit (true of the empty text).
pub open spec fn all_digits(s: Seq<char>) -> bool {
    forall|i: int| 0 <= i < s.len() ==> is_ascii_digit(#[trigger] s[i])
}

/// The number that decimal digits spell.
pub open spec fn digits_value(s: Seq<char>) -> nat
    decreases s.len(),
{
    if s.len() == 0 {
        0
    } else {
        (digits_value(s.drop_last()) * 10 + (s.last() as int - '0' as int)) as nat
    }
}

/// The indentation an `--indent` option stands for: a tab for "tab", that
/// many spaces for a number (four when it is empty or too large), the text
/// itself otherwise, and four spaces without the option.
pub open spec fn indent_text(indent: Option<Seq<char>>) -> Seq<char> {
    match indent {
        Some(s) => if s == "tab"@ {
            "\t"@
        } else if all_digits(s) {
            if s.len() > 0 && digits_value(s) <= usize::MAX {
                repeat(" "@, digits_value(s))
            } else {
                "    "@
            }
        } else {
            s
        },
        None => "    "@,
    }
}

/// The generator configuration the options ask for.
pub open spec fn luau_config_of(cli: Cli) -> LuauConfigModel {
    LuauConfigModel {
        indent: indent_text(opt_text(cli.indent)),
        include_constraints: !cli.no_constraints,
        include_descriptions: !cli.no_descriptions,
        module_export: !cli.no_module_export,
    }
}

/// The file the output goes to: `--output` before the positional path.
pub open spec fn output_target_of(cli: Cli) -> Option<Seq<char>> {
    match cli.output_file {
        Some(f) => Some(f@),
        None => opt_text(cli.output),
    }
}

/// The value of a digit prefix is at most that of a longer prefix.
proof fn lemma_digits_value_prefix(s: Seq<char>, j: int, k: int)
    requires
        0 <= j <= k <= s.len(),
        all_digits(s),
    ensures
        digits_value(s.take(j)) <= digits_value(s.take(k)),
    decreases k - j,
{
    if j < k {
        lemma_digits_value_prefix(s, j, k - 1);
        assert(s.take(k).drop_last() == s.take(k - 1));
        assert(is_ascii_digit(s[k - 1]));
    }
}

/// The number the digits spell, or `None` when there are none or it does
/// not fit in a `usize`.
fn parse_count(cs: &Vec<char>) -> (r: Option<usize>)
    requires
        all_digits(cs@),
    ensures
        r == (if cs@.len() > 0 && digits_value(cs@) <= usize::MAX {
            Some(digits_value(cs@) as usize)
        } else {
            None::<usize>
        }),
{
    if cs.len() == 0 {
        return None;
    }
    let mut value: usize = 0;
    let mut i: usize = 0;
    while i < cs.len()
        invariant
            i <= cs@.len(),
            all_digits(cs@),
            value == digits_value(cs@.take(i as int)),
        decreases cs@.len() - i,
    {
        assert(cs@.take(i + 1).drop_last() == cs@.take(i as int));
        assert(is_ascii_digit(cs@[i as int]));
        let digit = (cs[i] as u32 - '0' as u32) as usize;
        let next = match value.checked_mul(10) {
            Some(tens) => tens.checked_add(digit),
            None => None,
        };
        match next {
            Some(v) => {
                value = v;
            },
            None => {
                proof {
                    lemma_digits_value_prefix(cs@, i + 1, cs@.len() as int);
                    assert(cs@.take(cs@.len() as int) == cs@);
                }
                return None;
            },
        }
        i += 1;
    }
    assert(cs@.take(cs@.len() as int) == cs@);
    Some(value)
}

impl Cli {
    /// The indentation string.
    pub fn get_indent(&self) -> (r: String)
        ensures
            r@ == indent_text(opt_text(self.indent)),
    {
        match &self.indent {
            Some(s) => {
                if text_eq(s.as_str(), "tab") {
                    return owned("\t");
                }
                let cs = chars_of(s.as_str());
                let mut digits = true;
                let mut i: usize = 0;
                while i < cs.len()
                    invariant
                        i <= cs@.len(),
                        digits == (forall|j: int| 0 <= j < i ==> is_ascii_digit(#[trigger] cs@[j])),
                    decreases cs@.len() - i,
                {
                    if !('0' <= cs[i] && cs[i] <= '9') {
                        digits = false;
                    }
                    i += 1;
                }
                if digits {
                    match parse_count(&cs) {
                        Some(spaces) => repeat_text(" ", spaces),
                        None => owned("    "),
                    }
                } else {
                    owned(s.as_str())
                }
            },
            None => owned("    "),
        }
    }

    /// Where the input is read from: standard input when `--stdin` is given,
    /// no input path is, or the input path is `-`; else the input file.
    pub fn input_source(&self) -> (r: InputSource)
        ensures
            match r {
                InputSource::Stdin => self.stdin || self.input is None || opt_text(self.input)
                    == Some("-"@),
                InputSource::File(p) => !self.stdin && opt_text(self.input) == Some(p@) && p@
                    != "-"@,
            },
    {
        if self.stdin {
            return InputSource::Stdin;
        }
        match &self.input {
            Some(path) => if text_eq(path.as_str(), "-") {
                InputSource::Stdin
            } else {
                InputSource::File(owned(path.as_str()))
            },
            None => InputSource::Stdin,
        }
    }

    /// The file the output goes to, preferring `--output` over the
    /// positional path; `None` for standard output.
    pub fn output_target(&self) -> (r: Option<String>)
        ensures
            opt_text(r) == output_target_of(*self),
    {
        match &self.output_file {
            Some(f) => Some(owned(f.as_str())),
            None => match &self.output {
                Some(o) => Some(owned(o.as_str())),
                None => None,
            },
        }
    }

    /// The parser configuration: the root type name, with constraints and
    /// descriptions kept.
    pub fn ir_config(&self) -> (r: IrConfig)
        ensures
            r.root_type_name@ == self.root_name@,
            r.include_constraints,
            r.include_descriptions,
    {
        IrConfig::with_root_type_name(self.root_name.as_str())
    }

    /// The generator configuration the options ask for.
    pub fn luau_config(&self) -> (r: LuauConfig)
        ensures
            r@ == luau_config_of(*self),
    {
        LuauConfig {
            indent: self.get_indent(),
            include_constraints: !self.no_constraints,
            include_descriptions: !self.no_descriptions,
            module_export: !self.no_module_export,
        }
    }

    /// Run on a parsed schema: with `--validate` nothing more is done; with
    /// the debugging option the parsed IR is given; otherwise the Luau text
    /// generated with the configured options, and where to write it.
    pub fn run(&self, schema: &JsonSchema) -> (r: Result<RunOutcome, ConversionError>)
        ensures
            self.validate ==> r matches Ok(RunOutcome::Validated),
            !self.validate ==> match parse_outcome(
                fresh_parser(self.root_name@, true, true),
                schema@,
            ).1 {
                Err(e) => r matches Err(err) && err@ == e,
                Ok(m) => if self.debug_ir {
                    r matches Ok(RunOutcome::DebugIr(module)) && module@ == m
                } else {
                    r matches Ok(RunOutcome::Generated { output, target }) && output@
                        == module_text(luau_config_of(*self), m) && opt_text(target)
                        == output_target_of(*self)
                },
            },
    {
        // Validate only mode
        if self.validate {
            return Ok(RunOutcome::Validated);
        }
        let mut parser = SchemaParser::with_config(self.ir_config());
        let module = match parser.parse(schema) {
            Ok(m) => m,
            Err(e) => return Err(e),
        };
        // Debug IR mode
        if self.debug_ir {
            return Ok(RunOutcome::DebugIr(module));
        }
        let generator = LuauGenerator::with_config(self.luau_config());
        let output = generator.generate(&module);
        Ok(RunOutcome::Generated { output, target: self.output_target() })
    }
}

} // verus!
