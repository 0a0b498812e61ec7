//! The typeset document that pages are appended to.
//!
//! A [`Page`] holds a `latex::Document` that only this module fills. The
//! verifier cannot look inside the document, so what it holds is named by
//! [`document_body`], [`document_preamble`], [`document_author`] and
//! [`document_title`], and every change goes through one of the functions
//! below. As nothing else can reach the document, it holds no element but
//! those of [`PageElement`], all of which the printer can write.

use vstd::prelude::*;
use latex::{Document, DocumentClass, Element, PreambleElement};
use crate::error::SheetError;
use crate::text::Text;

verus! {

/// `latex::Document`, the document under construction.
#[verifier::external_type_specification]
#[verifier::external_body]
pub struct ExDocument(Document);

/// `failure::Error`, the error of the document's printer. This library only
/// passes it on.
#[verifier::external_type_specification]
#[verifier::external_body]
pub struct ExPrintError(failure::Error);

/// `latex::Element`, one element of a document's body. Only named because a
/// `Document` dereferences to its elements; this library never reads one.
#[verifier::external_type_specification]
#[verifier::external_body]
pub struct ExElement(Element);

/// An element this library appends to the body of a document.
#[derive(Debug)]
pub enum PageElement {
    /// Markup that is rendered as it stands.
    UserDefined(String),
    /// A page break.
    ClearPage,
    /// An environment with its name and its lines.
    Environment(String, Vec<String>),
}

/// What a [`PageElement`] holds.
pub enum ElementModel {
    /// Markup that is rendered as it stands.
    UserDefined(Text),
    /// A page break.
    ClearPage,
    /// An environment with its name and its lines.
    Environment(Text, Seq<Text>),
}

impl View for PageElement {
    type V = ElementModel;

    open spec fn view(&self) -> ElementModel {
        match *self {
            PageElement::UserDefined(text) => ElementModel::UserDefined(text@),
            PageElement::ClearPage => ElementModel::ClearPage,
            PageElement::Environment(name, lines) => ElementModel::Environment(
                name@,
                lines.deep_view(),
            ),
        }
    }
}

/// An entry of a document's preamble.
pub enum PreambleModel {
    /// A package import without arguments.
    UsePackage(Text),
    /// Markup that is rendered as it stands.
    UserDefined(Text),
}

/// The elements of the body of a document, in the order they were appended.
pub uninterp spec fn document_body(document: Document) -> Seq<ElementModel>;

/// The entries of the preamble of a document, in the order they were added.
pub uninterp spec fn document_preamble(document: Document) -> Seq<PreambleModel>;

/// The author recorded in the preamble of a document.
pub uninterp spec fn document_author(document: Document) -> Option<Text>;

/// The title recorded in the preamble of a document.
pub uninterp spec fn document_title(document: Document) -> Option<Text>;

/// The markup that the printer writes for a document; nothing where the
/// printer fails.
pub uninterp spec fn printed(document: Document) -> Option<Text>;

/// A document that is filled by this library alone: an article whose body
/// holds nothing but the elements of [`PageElement`].
#[derive(Debug)]
pub struct Page {
    document: Document,
}

impl Page {
    /// The elements of the body, in the order they were appended.
    pub closed spec fn body(&self) -> Seq<ElementModel> {
        document_body(self.document)
    }

    /// The entries of the preamble, in the order they were added.
    pub closed spec fn preamble(&self) -> Seq<PreambleModel> {
        document_preamble(self.document)
    }

    /// The author recorded in the preamble.
    pub closed spec fn author(&self) -> Option<Text> {
        document_author(self.document)
    }

    /// The title recorded in the preamble.
    pub closed spec fn title(&self) -> Option<Text> {
        document_title(self.document)
    }

    /// The markup that the printer writes for the page; nothing where the
    /// printer fails.
    pub closed spec fn markup(&self) -> Option<Text> {
        printed(self.document)
    }

    /// An article with an empty body and an empty preamble without author or
    /// title.
    pub fn new() -> (page: Page)
        ensures
            page.body() == Seq::<ElementModel>::empty(),
            page.preamble() == Seq::<PreambleModel>::empty(),
            page.author() is None,
            page.title() is None,
    {
        document_new()
    }

    /// The document, to be read.
    pub fn document(&self) -> (document: &Document)
        ensures
            document_body(*document) == self.body(),
            document_preamble(*document) == self.preamble(),
            document_author(*document) == self.author(),
            document_title(*document) == self.title(),
            printed(*document) == self.markup(),
    {
        &self.document
    }
}

/// Two pages with the same preamble, author and title.
pub open spec fn same_head(a: Page, b: Page) -> bool {
    &&& a.preamble() == b.preamble()
    &&& a.author() == b.author()
    &&& a.title() == b.title()
}

/// Calls `Document::new` for an article. The new document has an empty body
/// and an empty preamble without author or title.
#[verifier::external_body]
fn document_new() -> (page: Page)
    ensures
        document_body(page.document) == Seq::<ElementModel>::empty(),
        document_preamble(page.document) == Seq::<PreambleModel>::empty(),
        document_author(page.document) is None,
        document_title(page.document) is None,
{
    Page { document: Document::new(DocumentClass::Article) }
}

/// Calls `Document::push`, which appends one element to the body and leaves
/// the preamble alone.
#[verifier::external_body]
fn document_push(page: &mut Page, element: PageElement)
    ensures
        document_body(final(page).document) == document_body(old(page).document).push(element@),
        document_preamble(final(page).document) == document_preamble(old(page).document),
        document_author(final(page).document) == document_author(old(page).document),
        document_title(final(page).document) == document_title(old(page).document),
{
    page.document.push(match element {
        PageElement::UserDefined(text) => Element::UserDefined(text),
        PageElement::ClearPage => Element::ClearPage,
        PageElement::Environment(name, lines) => Element::Environment(name, lines),
    });
}

/// Calls `Preamble::use_package` on the document's preamble, which appends an
/// import of the package `name` without arguments.
#[verifier::external_body]
fn preamble_use_package(page: &mut Page, name: &str)
    ensures
        document_preamble(final(page).document) == document_preamble(old(page).document).push(
            PreambleModel::UsePackage(name@),
        ),
        document_author(final(page).document) == document_author(old(page).document),
        document_title(final(page).document) == document_title(old(page).document),
        document_body(final(page).document) == document_body(old(page).document),
{
    page.document.preamble.use_package(name);
}

/// Calls `Preamble::push` on the document's preamble with a user-defined
/// entry, which appends `text` to the preamble.
#[verifier::external_body]
fn preamble_push(page: &mut Page, text: String)
    ensures
        document_preamble(final(page).document) == document_preamble(old(page).document).push(
            PreambleModel::UserDefined(text@),
        ),
        document_author(final(page).document) == document_author(old(page).document),
        document_title(final(page).document) == document_title(old(page).document),
        document_body(final(page).document) == document_body(old(page).document),
{
    page.document.preamble.push(PreambleElement::UserDefined(text));
}

/// Calls `Preamble::author` on the document's preamble, which records `name`
/// as the author.
#[verifier::external_body]
fn preamble_author(page: &mut Page, name: &str)
    ensures
        document_author(final(page).document) == Some(name@),
        document_title(final(page).document) == document_title(old(page).document),
        document_preamble(final(page).document) == document_preamble(old(page).document),
        document_body(final(page).document) == document_body(old(page).document),
{
    page.document.preamble.author(name);
}

/// Calls `Preamble::title` on the document's preamble, which records `name`
/// as the title.
#[verifier::external_body]
fn preamble_title(page: &mut Page, name: &str)
    ensures
        document_title(final(page).document) == Some(name@),
        document_author(final(page).document) == document_author(old(page).document),
        document_preamble(final(page).document) == document_preamble(old(page).document),
        document_body(final(page).document) == document_body(old(page).document),
{
    page.document.preamble.title(name);
}

/// Calls `latex::print`, which writes a document out as markup. The contract
/// only names the result. The printer gives up on an element of a kind it
/// does not know; the document of a [`Page`] holds none, as nothing but
/// [`document_push`] appends to it.
#[verifier::external_body]
fn document_print(page: &Page) -> (markup: Result<String, failure::Error>)
    ensures
        match printed(page.document) {
            Some(text) => markup is Ok && markup->Ok_0@ == text,
            None => markup is Err,
        },
{
    latex::print(&page.document)
}

/// Appends one element to the body of `page`.
pub(crate) fn push_element(page: &mut Page, element: PageElement)
    ensures
        final(page).body() == old(page).body().push(element@),
        same_head(*final(page), *old(page)),
{
    document_push(page, element);
}

/// Appends an import of the package `name` to the preamble of `page`.
pub(crate) fn use_package(page: &mut Page, name: &str)
    ensures
        final(page).preamble() == old(page).preamble().push(PreambleModel::UsePackage(name@)),
        final(page).author() == old(page).author(),
        final(page).title() == old(page).title(),
        final(page).body() == old(page).body(),
{
    preamble_use_package(page, name);
}

/// Appends the markup `text` to the preamble of `page`.
pub(crate) fn push_preamble(page: &mut Page, text: String)
    ensures
        final(page).preamble() == old(page).preamble().push(PreambleModel::UserDefined(text@)),
        final(page).author() == old(page).author(),
        final(page).title() == old(page).title(),
        final(page).body() == old(page).body(),
{
    preamble_push(page, text);
}

/// Records `name` as the author of `page`.
pub(crate) fn set_author(page: &mut Page, name: &str)
    ensures
        final(page).author() == Some(name@),
        final(page).title() == old(page).title(),
        final(page).preamble() == old(page).preamble(),
        final(page).body() == old(page).body(),
{
    preamble_author(page, name);
}

/// Records `name` as the title of `page`.
pub(crate) fn set_title(page: &mut Page, name: &str)
    ensures
        final(page).title() == Some(name@),
        final(page).author() == old(page).author(),
        final(page).preamble() == old(page).preamble(),
        final(page).body() == old(page).body(),
{
    preamble_title(page, name);
}

/// The markup of a document, or the failure of the printer as an error of
/// this library.
pub fn markup_or_failure(markup: Result<String, failure::Error>) -> (result: Result<
    String,
    SheetError,
>)
    ensures
        match markup {
            Ok(text) => result == Ok::<String, SheetError>(text),
            Err(_) => result == Err::<String, SheetError>(SheetError::ExternalToolFailure),
        },
{
    match markup {
        Ok(text) => Ok(text),
        Err(_) => Err(SheetError::ExternalToolFailure),
    }
}

/// What running the compiler on a document's markup comes to.
pub fn compile_outcome(succeeded: bool) -> (result: Result<(), SheetError>)
    ensures
        succeeded ==> result == Ok::<(), SheetError>(()),
        !succeeded ==> result == Err::<(), SheetError>(SheetError::ExternalToolFailure),
{
    if succeeded {
        Ok(())
    } else {
        Err(SheetError::ExternalToolFailure)
    }
}

/// Writes a page out as markup. Fails where the printer does.
pub fn render(page: &Page) -> (result: Result<String, SheetError>)
    ensures
        match page.markup() {
            Some(text) => result is Ok && result->Ok_0@ == text,
            None => result == Err::<String, SheetError>(SheetError::ExternalToolFailure),
        },
{
    markup_or_failure(document_print(page))
}

} // verus!
