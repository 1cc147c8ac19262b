//! DOCX documents: the text runs of `word/document.xml`.

use vstd::prelude::*;
use vstd::string::StringExecFns;
use crate::engine::extractor::formats::{content_of, FileExtractor};
use crate::engine::extractor::{ExtractorConfig, ExtractorError};
use crate::text::strings_view;

verus! {

/// `quick_xml::Reader`, which reads an XML document event by event.
#[verifier::external_type_specification]
#[verifier::external_body]
#[verifier::reject_recursive_types(R)]
pub struct ExXmlReader<R>(quick_xml::Reader<R>);

/// What the XML reader came upon next.
pub enum XmlPiece {
    /// Character data between tags, as it stands in the document.
    Text(String),
    /// Anything else: a tag, a comment, a declaration.
    Other,
    /// The end of the document.
    End,
    /// The document is not well formed here.
    Broken,
}

/// A piece of an XML document. `Broken` stands for a place where the
/// document is not well formed.
pub enum XmlPieceView {
    Text(Seq<char>),
    Other,
    Broken,
}

/// The pieces that the XML reader reports for the document `xml`, in
/// order, up to the end of the document or to the first place where it is
/// not well formed, which is then the last piece.
pub uninterp spec fn xml_pieces(xml: Seq<char>) -> Seq<XmlPieceView>;

/// The pieces that a reader has yet to report, up to the end of its
/// document or to the first place where that is not well formed, which is
/// then the last piece.
pub uninterp spec fn unread(reader: quick_xml::Reader<&[u8]>) -> Seq<XmlPieceView>;

/// A reader over the XML document `xml`, made with
/// `quick_xml::Reader::from_str`. What it will report depends on the
/// document alone.
#[verifier::external_body]
fn xml_reader<'a>(xml: &'a str) -> (reader: quick_xml::Reader<&'a [u8]>)
    ensures
        unread(reader) == xml_pieces(xml@),
{
    quick_xml::Reader::from_str(xml)
}

/// Reads the next event with `quick_xml::Reader::read_event` and tells
/// character data, the end of the document and a failure from everything
/// else. What is reported is the first of the pieces that were unread; the
/// end is reported when nothing is left. After character data or another
/// piece that piece is unread no longer. Nothing is said of a reader that
/// has failed.
#[verifier::external_body]
fn next_piece<'a>(reader: &mut quick_xml::Reader<&'a [u8]>) -> (piece: XmlPiece)
    ensures
        match piece {
            XmlPiece::Text(text) => unread(*old(reader)).len() > 0 && unread(*old(reader))[0]
                == XmlPieceView::Text(text@) && unread(*final(reader)) == unread(
                *old(reader),
            ).drop_first(),
            XmlPiece::Other => unread(*old(reader)).len() > 0 && unread(*old(reader))[0]
                == XmlPieceView::Other && unread(*final(reader)) == unread(
                *old(reader),
            ).drop_first(),
            XmlPiece::Broken => unread(*old(reader)).len() > 0 && unread(*old(reader))[0]
                == XmlPieceView::Broken,
            XmlPiece::End => unread(*old(reader)).len() == 0,
        },
{
    match reader.read_event() {
        Ok(quick_xml::events::Event::Text(text)) => XmlPiece::Text(text.into_inner().into_owned()),
        Ok(quick_xml::events::Event::Eof) => XmlPiece::End,
        Ok(_) => XmlPiece::Other,
        Err(_) => XmlPiece::Broken,
    }
}

/// The runs with `first` in front, where there are runs.
pub open spec fn after(first: Seq<Seq<char>>, rest: Option<Seq<Seq<char>>>) -> Option<
    Seq<Seq<char>>,
> {
    match rest {
        Some(runs) => Some(first + runs),
        None => None,
    }
}

/// The runs of character data among the pieces, in order, or nothing
/// where a piece is not well formed.
pub open spec fn text_runs_of(pieces: Seq<XmlPieceView>) -> Option<Seq<Seq<char>>>
    decreases pieces.len(),
{
    if pieces.len() == 0 {
        Some(Seq::empty())
    } else {
        match pieces[0] {
            XmlPieceView::Text(text) => after(seq![text], text_runs_of(pieces.drop_first())),
            XmlPieceView::Other => text_runs_of(pieces.drop_first()),
            XmlPieceView::Broken => None,
        }
    }
}

/// The text of a document with these runs of character data: each run
/// followed by one space.
pub open spec fn runs_text(runs: Seq<Seq<char>>) -> Seq<char>
    decreases runs.len(),
{
    if runs.len() == 0 {
        Seq::empty()
    } else {
        runs_text(runs.drop_last()) + runs.last() + seq![' ']
    }
}

/// The keyword summary of the XML document `xml`, or nothing where the
/// document is not well formed.
pub open spec fn docx_content(xml: Seq<char>, config: ExtractorConfig) -> Option<Seq<char>> {
    match text_runs_of(xml_pieces(xml)) {
        Some(runs) => Some(content_of(seq![runs_text(runs)], config)),
        None => None,
    }
}

/// The extractor of DOCX documents.
#[derive(Debug, Clone, Copy, PartialEq, Eq, Hash)]
pub struct DocxExtractor;

impl FileExtractor for DocxExtractor {

}

impl DocxExtractor {
    /// The text of a document with these runs of character data.
    pub fn join_runs(runs: &Vec<String>) -> (text: String)
        ensures
            text@ == runs_text(strings_view(runs@)),
    {
        let mut text = String::new();
        let mut i: usize = 0;
        let ghost all = strings_view(runs@);
        assert(all.take(0) =~= Seq::<Seq<char>>::empty());
        while i < runs.len()
            invariant
                i <= runs.len(),
                all == strings_view(runs@),
                text@ == runs_text(all.take(i as int)),
            decreases runs.len() - i,
        {
            assert(all.take(i + 1).drop_last() =~= all.take(i as int));
            assert(all.take(i + 1).last() == runs@[i as int]@);
            text.append(runs[i].as_str());
            text.push(' ');
            i = i + 1;
        }
        assert(all.take(runs.len() as int) =~= all);
        text
    }

    /// The keyword summary of a document with these runs of character
    /// data.
    pub fn summarize(runs: &Vec<String>, config: &ExtractorConfig) -> (content: String)
        ensures
            content@ == content_of(seq![runs_text(strings_view(runs@))], *config),
    {
        let mut lines: Vec<String> = Vec::new();
        lines.push(DocxExtractor::join_runs(runs));
        assert(strings_view(lines@) =~= seq![runs_text(strings_view(runs@))]);
        Self::token_distribution(&lines, config)
    }

    /// The runs of character data of the XML document `xml`, in order.
    /// Nothing where the document is not well formed.
    pub fn text_runs(xml: &str) -> (runs: Option<Vec<String>>)
        ensures
            (match runs {
                Some(found) => Some(strings_view(found@)),
                None => None,
            }) == text_runs_of(xml_pieces(xml@)),
    {
        let mut reader = xml_reader(xml);
        let mut runs: Vec<String> = Vec::new();
        assert(after(strings_view(runs@), text_runs_of(unread(reader))) =~= text_runs_of(
            unread(reader),
        )) by {
            if text_runs_of(unread(reader)) is Some {
                assert(strings_view(runs@) + text_runs_of(unread(reader))->0 =~= text_runs_of(
                    unread(reader),
                )->0);
            }
        }
        loop
            invariant
                after(strings_view(runs@), text_runs_of(unread(reader))) == text_runs_of(
                    xml_pieces(xml@),
                ),
            decreases unread(reader).len(),
        {
            let ghost before = unread(reader);
            let ghost collected = strings_view(runs@);
            match next_piece(&mut reader) {
                XmlPiece::Text(text) => {
                    runs.push(text);
                    proof {
                        let rest = text_runs_of(before.drop_first());
                        assert(strings_view(runs@) =~= collected.push(text@));
                        if rest is Some {
                            assert(collected.push(text@) + rest->0 =~= collected + (seq![text@]
                                + rest->0));
                        }
                    }
                },
                XmlPiece::End => {
                    assert(collected + Seq::<Seq<char>>::empty() =~= collected);
                    return Some(runs);
                },
                XmlPiece::Other => {},
                XmlPiece::Broken => {
                    return None;
                },
            }
        }
    }

    /// The keyword summary of a DOCX document, given the text of its
    /// `word/document.xml`. Fails where that is not well formed.
    pub fn extract(xml: &str, config: &ExtractorConfig) -> (r: Result<String, ExtractorError>)
        ensures
            match r {
                Ok(content) => docx_content(xml@, *config) == Some(content@),
                Err(e) => docx_content(xml@, *config) is None && e is ExtractionFailed,
            },
    {
        match DocxExtractor::text_runs(xml) {
            Some(runs) => Ok(DocxExtractor::summarize(&runs, config)),
            None => Err(ExtractorError::ExtractionFailed),
        }
    }
}

} // verus!
