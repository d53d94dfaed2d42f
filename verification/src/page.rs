//! HTML pages, searched with CSS selectors.

use scraper::{Html, Selector};
use vstd::prelude::*;

use crate::text;

verus! {

/// An element that a selector found.
#[derive(Debug)]
pub struct PageElement {
    /// The values of the attributes asked for, where the element has them.
    pub attributes: Vec<Option<String>>,
    /// The texts inside the element, in document order.
    pub text: Vec<String>,
}

/// An element and what selectors found inside it.
#[derive(Debug)]
pub struct PageRegion {
    /// The values of the attributes asked for, where the element has them.
    pub attributes: Vec<Option<String>>,
    /// For each selector the elements found, in document order.
    pub matches: Vec<Vec<PageElement>>,
}

/// [`PageElement`] with its texts as character sequences.
pub ghost struct ElementView {
    /// The values of the attributes asked for.
    pub attributes: Seq<Option<Seq<char>>>,
    /// The texts inside the element.
    pub text: Seq<Seq<char>>,
}

/// [`PageRegion`] with its texts as character sequences.
pub ghost struct RegionView {
    /// The values of the attributes asked for.
    pub attributes: Seq<Option<Seq<char>>>,
    /// For each selector the elements found.
    pub matches: Seq<Seq<ElementView>>,
}

/// The character sequences of attribute values.
pub open spec fn attribute_texts(values: Seq<Option<String>>) -> Seq<Option<Seq<char>>> {
    values.map_values(|value: Option<String>| text::optional_text(value))
}

/// The views of a sequence of elements.
pub open spec fn element_views(elements: Seq<PageElement>) -> Seq<ElementView> {
    elements.map_values(|element: PageElement| element@)
}

/// The views of the elements found for each selector.
pub open spec fn group_views(groups: Seq<Vec<PageElement>>) -> Seq<Seq<ElementView>> {
    groups.map_values(|group: Vec<PageElement>| element_views(group@))
}

/// The view of a region that may be absent.
pub open spec fn optional_region(region: Option<PageRegion>) -> Option<RegionView> {
    match region {
        Some(r) => Some(r@),
        None => None,
    }
}

/// The character sequences of a sequence of borrowed texts.
pub open spec fn borrowed_texts(parts: Seq<&str>) -> Seq<Seq<char>> {
    parts.map_values(|part: &str| part@)
}

impl View for PageElement {
    type V = ElementView;

    open spec fn view(&self) -> ElementView {
        ElementView {
            attributes: attribute_texts(self.attributes@),
            text: text::texts(self.text@),
        }
    }
}

impl View for PageRegion {
    type V = RegionView;

    open spec fn view(&self) -> RegionView {
        RegionView {
            attributes: attribute_texts(self.attributes@),
            matches: group_views(self.matches@),
        }
    }
}

impl RegionView {
    /// Whether the region answers `selectors` selectors and `names` attribute names.
    pub open spec fn answers(self, selectors: nat, names: nat) -> bool {
        &&& self.attributes.len() == names
        &&& self.matches.len() == selectors
        &&& forall|i: int, j: int|
            0 <= i < self.matches.len() && 0 <= j < self.matches[i].len() ==> (
            #[trigger] self.matches[i][j]).attributes.len() == names
    }
}

/// What `scraper` finds in the page `html`: the first element that the selector `outer`
/// matches, the elements inside it that each selector of `inners` matches, and their
/// attributes `names`. `None` if `outer` is no selector or matches nothing.
pub uninterp spec fn page_region(
    html: Seq<char>,
    outer: Seq<char>,
    inners: Seq<Seq<char>>,
    names: Seq<Seq<char>>,
) -> Option<RegionView>;

/// `scraper::Html::parse_document`, `scraper::Html::select` with the selector `outer`,
/// and `scraper::ElementRef::select` with each selector of `inners` on the first element
/// found. Of that element the attributes `names` are read, of those inside it the
/// attributes and the texts (`scraper::ElementRef::attr`, `scraper::ElementRef::text`).
/// The contract names the result, and says that it has one entry for each selector of
/// `inners` and each element one for each of `names`. A selector of `inners` that
/// `scraper::Selector::parse` refuses finds nothing.
#[verifier::external_body]
pub(crate) fn search_page(html: &str, outer: &str, inners: &Vec<&str>, names: &Vec<&str>) -> (region:
    Option<PageRegion>)
    ensures
        optional_region(region) == page_region(
            html@,
            outer@,
            borrowed_texts(inners@),
            borrowed_texts(names@),
        ),
        region matches Some(r) ==> r@.answers(inners@.len(), names@.len()),
{
    let document = Html::parse_document(html);
    let found = document.select(&Selector::parse(outer).ok()?).next()?;
    let values = |e: scraper::ElementRef| names.iter().map(|n| e.attr(n).map(String::from)).collect();
    let inside = |inner: &&str| match Selector::parse(inner) {
        Ok(selector) => found.select(&selector).map(|e| PageElement {
            attributes: values(e),
            text: e.text().map(String::from).collect(),
        }).collect(),
        Err(_) => Vec::new(),
    };
    Some(PageRegion { attributes: values(found), matches: inners.iter().map(inside).collect() })
}

} // verus!
