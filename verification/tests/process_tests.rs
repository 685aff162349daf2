use writekit::convert::Converter;
use writekit::process::PipelineReport;
use writekit::process::ProcHandle;
use writekit::process::StepOutcome;
use writekit::process::StreamKind;
use writekit::process::render_header;
use writekit::process::render_read_failure;
use writekit::process::render_stream;
use writekit::process::surface_output;

#[test]
fn completion_needs_both_streams_and_exit() {
    let mut h = ProcHandle::new(Converter::MarkdownToHtml);
    assert!(!h.is_complete());
    h.note_stdout_eof();
    assert!(!h.is_complete());
    h.note_stderr_eof();
    assert!(!h.is_complete());
    h.note_exit();
    assert!(h.is_complete());
}

#[test]
fn exit_alone_is_not_completion() {
    let mut h = ProcHandle::new(Converter::HtmlToPdf);
    h.note_exit();
    assert!(!h.is_complete());
    h.note_stderr_eof();
    assert!(!h.is_complete());
    h.note_stdout_eof();
    assert!(h.is_complete());
}

#[test]
fn headers_tag_converter_and_stream() {
    assert_eq!(render_header(Converter::MarkdownToHtml, StreamKind::Stdout), ". . . pandoc [stdout] . . .");
    assert_eq!(render_header(Converter::HtmlToPng, StreamKind::Stderr), ". . . wkhtmltoimage [stderr] . . .");
}

#[test]
fn read_failures_name_the_converter() {
    assert_eq!(
        render_read_failure(Converter::HtmlToPdf, StreamKind::Stderr),
        "error: failed to process stderr for wkhtmltopdf"
    );
    assert_eq!(
        render_read_failure(Converter::AsciidocToHtml, StreamKind::Stdout),
        "error: failed to process stdout for asciidoctor"
    );
}

#[test]
fn streams_surface_each_line_under_its_tag() {
    let lines = vec![Some(String::from("first")), None, Some(String::from("last"))];
    let out = render_stream(Converter::AsciidocToHtml, StreamKind::Stdout, &lines);
    assert_eq!(
        out,
        vec![
            String::from(". . . asciidoctor [stdout] . . ."),
            String::from("first"),
            String::from(". . . asciidoctor [stdout] . . ."),
            String::from("error: failed to process stdout for asciidoctor"),
            String::from(". . . asciidoctor [stdout] . . ."),
            String::from("last"),
        ]
    );
}

#[test]
fn empty_stream_surfaces_nothing() {
    let lines: Vec<Option<String>> = Vec::new();
    let out = render_stream(Converter::MarkdownToHtml, StreamKind::Stderr, &lines);
    assert!(out.is_empty());
}

#[test]
fn report_collects_both_outcomes_in_either_order() {
    let pdf = StepOutcome { converter: Converter::HtmlToPdf, success: true };
    let png = StepOutcome { converter: Converter::HtmlToPng, success: false };

    let mut first = PipelineReport::new();
    first.record(pdf);
    first.record(png);

    let mut second = PipelineReport::new();
    second.record(png);
    second.record(pdf);

    assert_eq!(first.outcomes.len(), 2);
    assert_eq!(second.outcomes.len(), 2);
    assert!(first.outcomes.contains(&pdf) && first.outcomes.contains(&png));
    assert!(second.outcomes.contains(&pdf) && second.outcomes.contains(&png));
}

#[test]
fn output_is_surfaced_only_when_verbose() {
    let lines = vec![Some(String::from("a line"))];
    let quiet = surface_output(false, Converter::HtmlToPdf, StreamKind::Stdout, &lines);
    assert!(quiet.is_empty());
    let loud = surface_output(true, Converter::HtmlToPdf, StreamKind::Stdout, &lines);
    assert_eq!(
        loud,
        vec![String::from(". . . wkhtmltopdf [stdout] . . ."), String::from("a line")]
    );
}
