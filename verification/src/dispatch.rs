//! The conversion dispatcher: from one changed path to the full plan of work
//! its change demands.
//!
//! A markup source (`.md`, `.adoc`) starts the progress indicator and enters
//! the chain with one step into HTML. An HTML change fans out into two
//! independent steps, document and image, that may run concurrently. The
//! terminal image extension closes the pipeline: it finishes the indicator
//! and, on request, shows the rendered image. Unrecognized extensions are a
//! no-op success, and deriving an output name cannot fail for any recognized
//! extension, so dispatch never errs.

use vstd::prelude::*;
use vstd::string::StringExecFns;

use crate::convert::CommandSpec;
use crate::convert::Converter;
use crate::convert::command_args;
use crate::convert::convert;
use crate::convert::converter_name;
use crate::convert::echo_view;
use crate::errors::DispatchError;
use crate::paths::ext_view;
use crate::paths::extension_of;
use crate::paths::lemma_ext_implies_stem;
use crate::paths::with_ext_view;
use crate::paths::with_extension;
use crate::progress::Loading;
use crate::progress::Ticker;
use crate::progress::elapsed_ms;
use crate::progress::estimated_delay_ms;
use crate::text::str_eq;

verus! {

/// One conversion step of a plan.
pub struct ConversionStep {
    pub converter: Converter,
    pub input: String,
    pub output: String,
    /// The per-step log line, present unless quiet or display mode holds.
    pub echo: Option<String>,
    /// The process invocation to spawn.
    pub command: CommandSpec,
}

/// The step is exactly the invocation the conversion table demands of `c` on
/// `input`, with the derived `output`.
pub open spec fn step_ok(
    s: ConversionStep,
    c: Converter,
    input: Seq<char>,
    output: Seq<char>,
    display: bool,
    verbose: bool,
    quiet: bool,
) -> bool {
    &&& s.converter == c
    &&& s.input@ == input
    &&& s.output@ == output
    &&& s.command.program@ == converter_name(c)
    &&& s.command.args_view() == command_args(c, input, output, verbose)
    &&& ((s.echo is Some) <==> (!quiet && !display))
    &&& (s.echo matches Some(l) ==> l@ == echo_view(input, output))
}

/// Which changes start the indicator: markup sources entering the chain.
pub open spec fn starts_progress(ext: Option<Seq<char>>) -> bool {
    ext == Some("md"@) || ext == Some("adoc"@)
}

/// Which changes finish it: the terminal image output, unless quiet.
pub open spec fn finishes_progress(ext: Option<Seq<char>>, quiet: bool) -> bool {
    ext == Some("png"@) && !quiet
}

/// How many conversion steps a change dispatches.
pub open spec fn step_count(ext: Option<Seq<char>>) -> int {
    if starts_progress(ext) {
        1
    } else if ext == Some("html"@) {
        2
    } else {
        0
    }
}

/// Everything the runner must do for one changed path.
pub struct WritePlan {
    /// The conversion steps, in order; the two steps of an HTML change are
    /// independent and may run concurrently.
    pub steps: Vec<ConversionStep>,
    /// Print a separating blank line first, so the rendering converters' log
    /// is not overwritten by the indicator.
    pub blank_line: bool,
    /// The ticker to run when this change started the indicator.
    pub ticker: Option<Ticker>,
    /// Whether this change finished the indicator.
    pub finished: bool,
    /// Show the rendered image with this invocation once the pipeline is
    /// done.
    pub show_image: Option<CommandSpec>,
}

/// The four dispatched extensions are pairwise distinct.
proof fn lemma_ext_literals_distinct()
    ensures
        "md"@ != "adoc"@,
        "md"@ != "html"@,
        "md"@ != "png"@,
        "adoc"@ != "html"@,
        "adoc"@ != "png"@,
        "html"@ != "png"@,
        "md"@.len() == 2,
        "adoc"@.len() == 4,
        "html"@.len() == 4,
        "png"@.len() == 3,
{
    reveal_strlit("md");
    reveal_strlit("adoc");
    reveal_strlit("html");
    reveal_strlit("png");
    assert("md"@.len() == 2);
    assert("adoc"@.len() == 4);
    assert("html"@.len() == 4);
    assert("png"@.len() == 3);
    assert("adoc"@[0] == 'a');
    assert("html"@[0] == 'h');
}

/// Dispatches one changed path: derives the conversion chain its extension
/// demands, drives the indicator, and hands back the plan to execute.
pub fn handle_write(
    path: &str,
    loading: &mut Loading,
    now_ms: u64,
    display: bool,
    verbose: bool,
    quiet: bool,
) -> (r: Result<WritePlan, DispatchError>)
    requires
        old(loading).generation < u64::MAX,
    ensures
        r is Ok,
        final(loading).clear == old(loading).clear,
        final(loading).chars == old(loading).chars,
        final(loading).template == old(loading).template,
        r matches Ok(plan) ==> ({
            let ext = ext_view(path@);
            &&& plan.steps.len() == step_count(ext)
            &&& (ext == Some("md"@) ==> step_ok(
                plan.steps[0],
                Converter::MarkdownToHtml,
                path@,
                with_ext_view(path@, "html"@),
                display,
                verbose,
                quiet,
            ))
            &&& (ext == Some("adoc"@) ==> step_ok(
                plan.steps[0],
                Converter::AsciidocToHtml,
                path@,
                with_ext_view(path@, "html"@),
                display,
                verbose,
                quiet,
            ))
            &&& (ext == Some("html"@) ==> step_ok(
                plan.steps[0],
                Converter::HtmlToPdf,
                path@,
                with_ext_view(path@, "pdf"@),
                display,
                verbose,
                quiet,
            ) && step_ok(
                plan.steps[1],
                Converter::HtmlToPng,
                path@,
                with_ext_view(path@, "png"@),
                display,
                verbose,
                quiet,
            ))
            &&& (plan.blank_line <==> (ext == Some("html"@) && !quiet && !display))
            &&& ((plan.ticker is Some) <==> starts_progress(ext))
            &&& (plan.ticker matches Some(t) ==> t.generation == final(loading).generation
                && t.position == 0 && !t.stopped && t.delay_ms == old(loading).delay_ms
                && t.clear == old(loading).clear && t.wf() && final(loading).ticker_live(t) && (
            forall|u: Ticker| u.generation != t.generation ==> !final(loading).ticker_live(u)))
            &&& (starts_progress(ext) ==> final(loading).generation == old(loading).generation + 1
                && final(loading).running && final(loading).start_ms == now_ms && final(loading).eta_ms == old(loading).eta_ms && final(loading).delay_ms == old(loading).delay_ms)
            &&& (plan.finished <==> finishes_progress(ext, quiet))
            &&& (finishes_progress(ext, quiet) ==> final(loading).eta_ms == elapsed_ms(
                old(loading).start_ms,
                now_ms,
            ) && final(loading).delay_ms == estimated_delay_ms(final(loading).eta_ms)
                && !final(loading).running && final(loading).generation == old(loading).generation
                && final(loading).start_ms == old(loading).start_ms && (forall|u: Ticker|
            !final(loading).ticker_live(u)))
            &&& (!starts_progress(ext) && !finishes_progress(ext, quiet) ==> *final(loading)
                == *old(loading))
            &&& ((plan.show_image is Some) <==> (ext == Some("png"@) && !quiet && display))
            &&& (plan.show_image matches Some(cmd) ==> cmd.program@ == "imgcat"@
                && cmd.args_view() == seq![path@])
        }),
{
    let ext = match extension_of(path) {
        Some(e) => e,
        None => {
            let plan = WritePlan {
                steps: Vec::new(),
                blank_line: false,
                ticker: None,
                finished: false,
                show_image: None,
            };
            return Ok(plan);
        },
    };
    if str_eq(ext.as_str(), "md") {
        proof {
            lemma_ext_literals_distinct();
            lemma_ext_implies_stem(path@);
        }
        let outhtml = match with_extension(path, "html") {
            Ok(o) => o,
            Err(e) => {
                return Err(e);
            },
        };
        let ticker = loading.start(now_ms);
        let cp = convert(Converter::MarkdownToHtml, path, outhtml.as_str(), display, verbose, quiet);
        let mut steps: Vec<ConversionStep> = Vec::new();
        steps.push(
            ConversionStep {
                converter: Converter::MarkdownToHtml,
                input: String::from_str(path),
                output: outhtml,
                echo: cp.echo,
                command: cp.command,
            },
        );
        Ok(WritePlan { steps, blank_line: false, ticker: Some(ticker), finished: false, show_image: None })
    } else if str_eq(ext.as_str(), "adoc") {
        proof {
            lemma_ext_literals_distinct();
            lemma_ext_implies_stem(path@);
        }
        let outhtml = match with_extension(path, "html") {
            Ok(o) => o,
            Err(e) => {
                return Err(e);
            },
        };
        let ticker = loading.start(now_ms);
        let cp = convert(Converter::AsciidocToHtml, path, outhtml.as_str(), display, verbose, quiet);
        let mut steps: Vec<ConversionStep> = Vec::new();
        steps.push(
            ConversionStep {
                converter: Converter::AsciidocToHtml,
                input: String::from_str(path),
                output: outhtml,
                echo: cp.echo,
                command: cp.command,
            },
        );
        Ok(WritePlan { steps, blank_line: false, ticker: Some(ticker), finished: false, show_image: None })
    } else if str_eq(ext.as_str(), "html") {
        proof {
            lemma_ext_literals_distinct();
            lemma_ext_implies_stem(path@);
        }
        let outpdf = match with_extension(path, "pdf") {
            Ok(o) => o,
            Err(e) => {
                return Err(e);
            },
        };
        let cp_pdf = convert(Converter::HtmlToPdf, path, outpdf.as_str(), display, verbose, quiet);
        let outpng = match with_extension(path, "png") {
            Ok(o) => o,
            Err(e) => {
                return Err(e);
            },
        };
        let cp_png = convert(Converter::HtmlToPng, path, outpng.as_str(), display, verbose, quiet);
        let blank_line = !quiet && !display;
        let mut steps: Vec<ConversionStep> = Vec::new();
        steps.push(
            ConversionStep {
                converter: Converter::HtmlToPdf,
                input: String::from_str(path),
                output: outpdf,
                echo: cp_pdf.echo,
                command: cp_pdf.command,
            },
        );
        steps.push(
            ConversionStep {
                converter: Converter::HtmlToPng,
                input: String::from_str(path),
                output: outpng,
                echo: cp_png.echo,
                command: cp_png.command,
            },
        );
        Ok(WritePlan { steps, blank_line, ticker: None, finished: false, show_image: None })
    } else if str_eq(ext.as_str(), "png") {
        proof {
            lemma_ext_literals_distinct();
        }
        let mut finished = false;
        let mut show_image: Option<CommandSpec> = None;
        if !quiet {
            loading.finish(now_ms);
            finished = true;
            if display {
                let mut args: Vec<String> = Vec::new();
                args.push(String::from_str(path));
                proof {
                    assert(args.deep_view() =~~= seq![path@]);
                }
                show_image = Some(CommandSpec { program: String::from_str("imgcat"), args });
            }
        }
        let plan = WritePlan {
            steps: Vec::new(),
            blank_line: false,
            ticker: None,
            finished,
            show_image,
        };
        Ok(plan)
    } else {
        let plan = WritePlan {
            steps: Vec::new(),
            blank_line: false,
            ticker: None,
            finished: false,
            show_image: None,
        };
        Ok(plan)
    }
}

} // verus!
