//! Vector PDF export of SVG documents through `svg2pdf`.
use crate::error::{ErrorKind, RenderError};
use vstd::prelude::*;

verus! {

/// Parsing options of `svg2pdf`'s SVG reader, including its font database.
#[verifier::external_type_specification]
#[verifier::external_body]
pub struct ExSvgOptions<'a>(svg2pdf::usvg::Options<'a>);

/// A parsed SVG document of `svg2pdf`'s SVG reader.
#[verifier::external_type_specification]
#[verifier::external_body]
pub struct ExSvgTree(svg2pdf::usvg::Tree);

/// Whether `roxmltree::Document::parse_with_options` (the XML reader that
/// `svg2pdf::usvg` re-exports), with DTDs allowed, accepts `text` as an XML
/// document. It depends on the text alone.
pub uninterp spec fn svg_text_is_xml(text: Seq<char>) -> bool;

/// Calls `svg2pdf::usvg::Tree::from_str` on the SVG text with the given
/// options, handing back the parsed tree or the parser error's displayed text.
/// `Tree::from_str` first reads the text with `roxmltree` (DTDs allowed) and
/// fails when that fails, so text that is no XML document is an error. What
/// else decides the outcome (the fonts the options hold, image files read from
/// disk) and the error text are not stated.
#[verifier::external_body]
fn parse_svg(svg: &str, options: &svg2pdf::usvg::Options) -> (r: Result<svg2pdf::usvg::Tree, String>)
    ensures
        !svg_text_is_xml(svg@) ==> r is Err,
{
    svg2pdf::usvg::Tree::from_str(svg, options).map_err(|error| error.to_string())
}

/// The header that opens every PDF file written here: `%PDF-1.7` and a line feed.
pub open spec fn pdf_header() -> Seq<u8> {
    seq![37u8, 80u8, 68u8, 70u8, 45u8, 49u8, 46u8, 55u8, 10u8]
}

/// The end-of-file marker that closes every PDF file written here: a line
/// feed and `%%EOF`.
pub open spec fn pdf_end() -> Seq<u8> {
    seq![10u8, 37u8, 37u8, 69u8, 79u8, 70u8]
}

/// `bytes` is framed as a complete PDF file: it opens with [`pdf_header`] and
/// closes with [`pdf_end`].
pub open spec fn is_pdf_file(bytes: Seq<u8>) -> bool {
    &&& bytes.len() >= pdf_header().len() + pdf_end().len()
    &&& bytes.take(pdf_header().len() as int) == pdf_header()
    &&& bytes.skip(bytes.len() - pdf_end().len()) == pdf_end()
}

/// Calls `svg2pdf::to_pdf` on a parsed tree with default conversion and page
/// options, handing back the PDF bytes or the conversion error's displayed
/// text. The bytes come from `pdf_writer::Pdf`, which starts its buffer with
/// the `%PDF-1.7` header line and whose `finish` only appends, ending with
/// `%%EOF`; that framing is what is stated. The content between, and the
/// error text, are not.
#[verifier::external_body]
fn tree_to_pdf(tree: &svg2pdf::usvg::Tree) -> (r: Result<Vec<u8>, String>)
    ensures
        r matches Ok(bytes) ==> is_pdf_file(bytes@),
{
    svg2pdf::to_pdf(
        tree,
        svg2pdf::ConversionOptions::default(),
        svg2pdf::PageOptions::default(),
    ).map_err(|error| error.to_string())
}

/// Produces vector PDF bytes from SVG geometry.
#[derive(Clone, Copy, Debug, Default)]
pub struct PdfExporter;

impl PdfExporter {
    /// Converts an SVG document to a vector PDF. Text is resolved through the
    /// fonts in `options`. The bytes are a complete PDF file, opening with its
    /// header and closing with its end-of-file marker. Text that is no XML
    /// document fails at the parse stage. A parse failure and a
    /// conversion failure each become an export error that names the stage
    /// and quotes the cause.
    pub fn export(svg: &str, options: &svg2pdf::usvg::Options) -> (r: Result<Vec<u8>, RenderError>)
        ensures
            r matches Ok(bytes) ==> is_pdf_file(bytes@),
            !svg_text_is_xml(svg@) ==> (r matches Err(e) && exists|cause: Seq<char>|
                e.message@ == "could not parse generated SVG for PDF: "@ + cause),
            r matches Err(e) ==> e.kind == ErrorKind::Export && ((exists|cause: Seq<char>|
                e.message@ == "could not parse generated SVG for PDF: "@ + cause) || (exists|
                cause: Seq<char>|
                e.message@ == "could not create PDF: "@ + cause)),
    {
        let tree = match parse_svg(svg, options) {
            Ok(tree) => tree,
            Err(cause) => {
                let mut message = String::from_str("could not parse generated SVG for PDF: ");
                message.append(cause.as_str());
                return Err(RenderError::export(message));
            },
        };
        match tree_to_pdf(&tree) {
            Ok(bytes) => Ok(bytes),
            Err(cause) => {
                let mut message = String::from_str("could not create PDF: ");
                message.append(cause.as_str());
                Err(RenderError::export(message))
            },
        }
    }
}

} // verus!
