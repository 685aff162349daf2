//! Converter identities and the exact command lines they are invoked with.
//!
//! Each conversion step runs one external program. The mapping from converter
//! identity to program name and argument shape is a closed table: verbosity
//! flags are converter-specific (markup converters take `--verbose`; the
//! rendering converters log by default, so quiet output needs an explicit
//! `--log-level none` when not verbose), and the positional arguments follow
//! each program's own convention.

use vstd::prelude::*;
use vstd::string::StringExecFns;

verus! {

/// The four external converter programs the pipeline drives.
#[derive(Clone, Copy, PartialEq, Eq, Structural, Debug)]
pub enum Converter {
    MarkdownToHtml,
    AsciidocToHtml,
    HtmlToPdf,
    HtmlToPng,
}

/// The program name each converter identity invokes.
pub open spec fn converter_name(c: Converter) -> Seq<char> {
    match c {
        Converter::MarkdownToHtml => "pandoc"@,
        Converter::AsciidocToHtml => "asciidoctor"@,
        Converter::HtmlToPdf => "wkhtmltopdf"@,
        Converter::HtmlToPng => "wkhtmltoimage"@,
    }
}

/// The argument list for one invocation: the verbosity flags the converter's
/// rules demand, then its positional paths.
pub open spec fn command_args(
    c: Converter,
    input: Seq<char>,
    output: Seq<char>,
    verbose: bool,
) -> Seq<Seq<char>> {
    let flags: Seq<Seq<char>> = match c {
        Converter::MarkdownToHtml | Converter::AsciidocToHtml => if verbose {
            seq!["--verbose"@]
        } else {
            Seq::empty()
        },
        Converter::HtmlToPdf | Converter::HtmlToPng => if !verbose {
            seq!["--log-level"@, "none"@]
        } else {
            Seq::empty()
        },
    };
    let tail: Seq<Seq<char>> = match c {
        Converter::MarkdownToHtml => seq![input, "-o"@, output],
        Converter::AsciidocToHtml => seq![input],
        Converter::HtmlToPdf | Converter::HtmlToPng => seq![input, output],
    };
    flags + tail
}

/// The per-step log line: `input -> output`.
pub open spec fn echo_view(input: Seq<char>, output: Seq<char>) -> Seq<char> {
    input + " -> "@ + output
}

impl Converter {
    /// The external program this identity names.
    pub fn name(&self) -> (r: &'static str)
        ensures
            r@ == converter_name(*self),
    {
        match self {
            Converter::MarkdownToHtml => "pandoc",
            Converter::AsciidocToHtml => "asciidoctor",
            Converter::HtmlToPdf => "wkhtmltopdf",
            Converter::HtmlToPng => "wkhtmltoimage",
        }
    }
}

/// One external process invocation, fully determined before it is spawned.
pub struct CommandSpec {
    pub program: String,
    pub args: Vec<String>,
}

impl CommandSpec {
    /// The argument list as character sequences.
    pub open spec fn args_view(&self) -> Seq<Seq<char>> {
        self.args.deep_view()
    }
}

/// A conversion step ready to run: the command, and the log line to echo
/// first when neither quiet nor display mode suppresses it.
pub struct CommandPlan {
    pub echo: Option<String>,
    pub command: CommandSpec,
}

/// Builds the invocation of `converter` turning `input` into `output`.
pub fn convert(
    converter: Converter,
    input: &str,
    output: &str,
    display: bool,
    verbose: bool,
    quiet: bool,
) -> (p: CommandPlan)
    ensures
        p.command.program@ == converter_name(converter),
        p.command.args_view() == command_args(converter, input@, output@, verbose),
        (p.echo is Some) <==> (!quiet && !display),
        p.echo matches Some(l) ==> l@ == echo_view(input@, output@),
{
    let echo = if !quiet && !display {
        let mut l = String::from_str(input);
        l.append(" -> ");
        l.append(output);
        Some(l)
    } else {
        None
    };
    let mut args: Vec<String> = Vec::new();
    match converter {
        Converter::MarkdownToHtml | Converter::AsciidocToHtml => {
            if verbose {
                args.push(String::from_str("--verbose"));
            }
        },
        Converter::HtmlToPdf | Converter::HtmlToPng => {
            if !verbose {
                args.push(String::from_str("--log-level"));
                args.push(String::from_str("none"));
            }
        },
    }
    args.push(String::from_str(input));
    match converter {
        Converter::MarkdownToHtml => {
            args.push(String::from_str("-o"));
            args.push(String::from_str(output));
        },
        Converter::AsciidocToHtml => {},
        Converter::HtmlToPdf | Converter::HtmlToPng => {
            args.push(String::from_str(output));
        },
    }
    let program = String::from_str(converter.name());
    proof {
        assert(args.deep_view() =~~= command_args(converter, input@, output@, verbose));
    }
    CommandPlan { echo, command: CommandSpec { program, args } }
}

} // verus!
