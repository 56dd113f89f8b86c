//! The catalog parser: the archive document as an ordered list of chapters,
//! each an ordered list of page references.
use vstd::prelude::*;
use crate::document::{Document, Element, Query, element_matches, same_text};

verus! {

/// A page of the catalog: its number and the link to its page document.
#[derive(Debug, PartialEq, Eq)]
pub struct PageRef {
    pub page_number: u64,
    pub href: String,
}

impl View for PageRef {
    type V = (u64, Seq<char>);

    open spec fn view(&self) -> (u64, Seq<char>) {
        (self.page_number, self.href@)
    }
}

/// A chapter: its stable identifier and its pages in order.
#[derive(Debug, PartialEq, Eq)]
pub struct Chapter {
    pub id: String,
    pub pages: Vec<PageRef>,
}

impl View for Chapter {
    type V = (Seq<char>, Seq<(u64, Seq<char>)>);

    open spec fn view(&self) -> (Seq<char>, Seq<(u64, Seq<char>)>) {
        (self.id@, self.pages@.map_values(|p: PageRef| p@))
    }
}

/// A page together with the chapter that holds it.
#[derive(Debug, PartialEq, Eq)]
pub struct PageTarget {
    pub chapter_id: String,
    pub page: PageRef,
}

impl View for PageTarget {
    type V = (Seq<char>, (u64, Seq<char>));

    open spec fn view(&self) -> (Seq<char>, (u64, Seq<char>)) {
        (self.chapter_id@, self.page@)
    }
}

/// How the archive document marks its parts.
#[derive(Debug, PartialEq, Eq)]
pub struct CatalogShape {
    /// Class of a chapter section; its `id` attribute names the chapter.
    pub chapter_class: String,
    /// Class of the navigation container inside a chapter section.
    pub nav_class: String,
    /// Element name of a page link.
    pub link_tag: String,
}

impl CatalogShape {
    /// The archive's own markup: `chapter` sections holding a `chapter-links`
    /// container of `a` links.
    pub fn archive() -> (r: CatalogShape)
        ensures
            r.chapter_class@ == "chapter"@,
            r.nav_class@ == "chapter-links"@,
            r.link_tag@ == "a"@,
    {
        CatalogShape {
            chapter_class: String::from_str("chapter"),
            nav_class: String::from_str("chapter-links"),
            link_tag: String::from_str("a"),
        }
    }
}

#[derive(PartialEq, Eq, Debug, Clone, Copy, Structural)]
pub enum CatalogError {
    /// No chapter section, or page numbers that do not strictly increase.
    MalformedCatalog,
    MissingChapterId,
    MissingNavigation,
}

pub open spec fn is_digit(c: char) -> bool {
    '0' <= c && c <= '9'
}

/// The number that a string of decimal digits spells.
pub open spec fn digits_value(s: Seq<char>) -> nat
    decreases s.len(),
{
    if s.len() == 0 {
        0
    } else {
        digits_value(s.drop_last()) * 10 + ((s.last() as int - '0' as int) as nat)
    }
}

/// One or more decimal digits spelling a `u64`.
pub open spec fn decimal_number(s: Seq<char>) -> Option<u64> {
    if s.len() > 0 && (forall|m: int| 0 <= m < s.len() ==> is_digit(#[trigger] s[m]))
        && digits_value(s) <= u64::MAX {
        Some(digits_value(s) as u64)
    } else {
        None
    }
}

/// A page label: one or more decimal digits spelling a positive `u64`.
pub open spec fn label_number(s: Seq<char>) -> Option<u64> {
    match decimal_number(s) {
        Some(n) => if n > 0 {
            Some(n)
        } else {
            None
        },
        None => None,
    }
}

/// The page that a link element stands for, if it has the link's shape.
pub open spec fn page_link(e: Element, link_tag: Seq<char>) -> Option<(u64, Seq<char>)> {
    match (e.href, label_number(e.text@)) {
        (Some(h), Some(n)) => if e.tag@ == link_tag {
            Some((n, h@))
        } else {
            None
        },
        _ => None,
    }
}

/// The pages that the links among the elements `lo..hi` stand for, in order.
pub open spec fn links_in(doc: Document, link_tag: Seq<char>, lo: int, hi: int) -> Seq<
    (u64, Seq<char>),
>
    decreases hi - lo,
{
    if hi <= lo {
        seq![]
    } else {
        let prev = links_in(doc, link_tag, lo, hi - 1);
        match page_link(doc.elements@[hi - 1], link_tag) {
            Some(p) => prev.push(p),
            None => prev,
        }
    }
}

/// The chapter that the chapter section at index `i` describes.
pub open spec fn chapter_at(doc: Document, shape: CatalogShape, i: int) -> Result<
    (Seq<char>, Seq<(u64, Seq<char>)>),
    CatalogError,
> {
    match doc.elements@[i].id {
        None => Err(CatalogError::MissingChapterId),
        Some(id) => match doc.first_match(i + 1, doc.scope_end(i), (true, shape.nav_class@)) {
            None => Err(CatalogError::MissingNavigation),
            Some(k) => Ok((id@, links_in(doc, shape.link_tag@, k + 1, doc.scope_end(k)))),
        },
    }
}

pub open spec fn is_chapter_marker(doc: Document, shape: CatalogShape, i: int) -> bool {
    crate::document::query_matches(doc.elements@[i], (true, shape.chapter_class@))
}

/// The chapters of the sections among the first `n` elements, or the first
/// section's error.
pub open spec fn chapters_upto(doc: Document, shape: CatalogShape, n: int) -> Result<
    Seq<(Seq<char>, Seq<(u64, Seq<char>)>)>,
    CatalogError,
>
    decreases n,
{
    if n <= 0 {
        Ok(seq![])
    } else {
        match chapters_upto(doc, shape, n - 1) {
            Err(e) => Err(e),
            Ok(cs) => if is_chapter_marker(doc, shape, n - 1) {
                match chapter_at(doc, shape, n - 1) {
                    Err(e) => Err(e),
                    Ok(c) => Ok(cs.push(c)),
                }
            } else {
                Ok(cs)
            },
        }
    }
}

/// Every page of the chapters, each with its chapter's identifier, in order.
pub open spec fn targets_of(cs: Seq<(Seq<char>, Seq<(u64, Seq<char>)>)>) -> Seq<
    (Seq<char>, (u64, Seq<char>)),
>
    decreases cs.len(),
{
    if cs.len() == 0 {
        seq![]
    } else {
        let c = cs.last();
        targets_of(cs.drop_last()) + c.1.map_values(|p: (u64, Seq<char>)| (c.0, p))
    }
}

/// The number of pages over all chapters.
pub open spec fn total_pages(cs: Seq<(Seq<char>, Seq<(u64, Seq<char>)>)>) -> nat
    decreases cs.len(),
{
    if cs.len() == 0 {
        0
    } else {
        total_pages(cs.drop_last()) + cs.last().1.len()
    }
}

/// Whether the page numbers strictly increase along the sequence.
pub open spec fn increasing(ts: Seq<(Seq<char>, (u64, Seq<char>))>) -> bool {
    forall|k: int| 0 < k < ts.len() ==> #[trigger] ts[k].1.0 > ts[k - 1].1.0
}

/// What the archive document parses to.
pub open spec fn catalog_of(doc: Document, shape: CatalogShape) -> Result<
    Seq<(Seq<char>, Seq<(u64, Seq<char>)>)>,
    CatalogError,
> {
    match chapters_upto(doc, shape, doc.len()) {
        Err(e) => Err(e),
        Ok(cs) => if cs.len() == 0 || !increasing(targets_of(cs)) {
            Err(CatalogError::MalformedCatalog)
        } else {
            Ok(cs)
        },
    }
}

pub open spec fn chapters_view(v: Seq<Chapter>) -> Seq<(Seq<char>, Seq<(u64, Seq<char>)>)> {
    v.map_values(|c: Chapter| c@)
}

pub open spec fn targets_view(v: Seq<PageTarget>) -> Seq<(Seq<char>, (u64, Seq<char>))> {
    v.map_values(|t: PageTarget| t@)
}

/// Reads a page label: the positive number that its decimal digits spell.
pub fn parse_label(s: &str) -> (r: Option<u64>)
    ensures
        r == label_number(s@),
{
    match parse_decimal(s) {
        Some(n) => if n > 0 {
            Some(n)
        } else {
            None
        },
        None => None,
    }
}

/// Reads the number that a string of decimal digits spells.
pub fn parse_decimal(s: &str) -> (r: Option<u64>)
    ensures
        r == decimal_number(s@),
{
    let n = s.unicode_len();
    if n == 0 {
        return None;
    }
    let mut acc: u64 = 0;
    let mut big = false;
    let mut i: usize = 0;
    while i < n
        invariant
            n == s@.len(),
            i <= n,
            forall|m: int| 0 <= m < i ==> is_digit(#[trigger] s@[m]),
            !big ==> acc as nat == digits_value(s@.take(i as int)),
            big ==> digits_value(s@.take(i as int)) > u64::MAX,
        decreases n - i,
    {
        let c = s.get_char(i);
        if !('0' <= c && c <= '9') {
            assert(!is_digit(s@[i as int]));
            return None;
        }
        let d = ((c as u32) - ('0' as u32)) as u64;
        let ghost prev = digits_value(s@.take(i as int));
        assert(s@.take(i + 1).drop_last() =~= s@.take(i as int));
        assert(digits_value(s@.take(i + 1)) == prev * 10 + d);
        if !big {
            match acc.checked_mul(10) {
                Some(t) => match t.checked_add(d) {
                    Some(v) => {
                        acc = v;
                    },
                    None => {
                        big = true;
                    },
                },
                None => {
                    big = true;
                    assert(prev * 10 > u64::MAX) by (nonlinear_arith)
                        requires
                            prev == acc,
                            acc * 10 > u64::MAX,
                    ;
                },
            }
        } else {
            assert(prev * 10 + d > u64::MAX) by (nonlinear_arith)
                requires
                    prev > u64::MAX,
                    d >= 0,
            ;
        }
        i = i + 1;
    }
    assert(s@.take(n as int) =~= s@);
    if big {
        None
    } else {
        Some(acc)
    }
}

/// The page that a link element stands for, if it has the link's shape.
pub fn page_link_of(e: &Element, link_tag: &str) -> (r: Option<PageRef>)
    ensures
        match r {
            Some(p) => page_link(*e, link_tag@) == Some(p@),
            None => page_link(*e, link_tag@) is None,
        },
{
    match &e.href {
        None => None,
        Some(h) => match parse_label(e.text.as_str()) {
            None => None,
            Some(n) => if same_text(e.tag.as_str(), link_tag) {
                Some(PageRef { page_number: n, href: h.clone() })
            } else {
                None
            },
        },
    }
}

/// The pages that the links among the elements `lo..hi` stand for, in order.
pub fn links_between(doc: &Document, link_tag: &str, lo: usize, hi: usize) -> (r: Vec<PageRef>)
    requires
        hi <= doc.len(),
    ensures
        r@.map_values(|p: PageRef| p@) == links_in(*doc, link_tag@, lo as int, hi as int),
{
    let mut out: Vec<PageRef> = Vec::new();
    if hi <= lo {
        assert(out@.map_values(|p: PageRef| p@) =~= links_in(*doc, link_tag@, lo as int, hi as int));
        return out;
    }
    let mut k = lo;
    assert(out@.map_values(|p: PageRef| p@) =~= links_in(*doc, link_tag@, lo as int, k as int));
    while k < hi
        invariant
            lo <= k <= hi,
            hi <= doc.len(),
            out@.map_values(|p: PageRef| p@) == links_in(*doc, link_tag@, lo as int, k as int),
        decreases hi - k,
    {
        match page_link_of(&doc.elements[k], link_tag) {
            Some(p) => {
                out.push(p);
            },
            None => {},
        }
        assert(out@.map_values(|p: PageRef| p@) =~= links_in(*doc, link_tag@, lo as int, k + 1));
        k = k + 1;
    }
    out
}

/// The chapter that the chapter section at index `i` describes.
pub fn chapter_from(doc: &Document, shape: &CatalogShape, i: usize) -> (r: Result<Chapter, CatalogError>)
    requires
        i < doc.len(),
    ensures
        match r {
            Ok(c) => chapter_at(*doc, *shape, i as int) == Ok::<_, CatalogError>(c@),
            Err(e) => chapter_at(*doc, *shape, i as int) == Err::<(Seq<char>, Seq<(u64, Seq<char>)>), _>(e),
        },
{
    let id = match &doc.elements[i].id {
        None => {
            return Err(CatalogError::MissingChapterId);
        },
        Some(id) => id.clone(),
    };
    let n = doc.elements.len();
    let end = doc.subtree_end(i);
    let nav = Query::Class(shape.nav_class.clone());
    assert(nav@ == (true, shape.nav_class@));
    match doc.find_first(i + 1, end, &nav) {
        None => Err(CatalogError::MissingNavigation),
        Some(k) => {
            let nav_end = doc.subtree_end(k);
            let pages = links_between(doc, shape.link_tag.as_str(), k + 1, nav_end);
            let c = Chapter { id, pages };
            assert(doc.first_match(i + 1, doc.scope_end(i as int), (true, shape.nav_class@)) == Some(k as int));
            assert(c@.1 == links_in(*doc, shape.link_tag@, k + 1, doc.scope_end(k as int)));
            assert(c@ == (id@, links_in(*doc, shape.link_tag@, k + 1, doc.scope_end(k as int))));
            Ok(c)
        },
    }
}

/// Once a chapter section fails, every longer prefix fails the same way.
proof fn lemma_error_persists(doc: Document, shape: CatalogShape, n: int, m: int)
    requires
        n <= m,
        chapters_upto(doc, shape, n) is Err,
    ensures
        chapters_upto(doc, shape, m) == chapters_upto(doc, shape, n),
    decreases m - n,
{
    if n < m {
        lemma_error_persists(doc, shape, n, m - 1);
    }
}

/// The chapters of all chapter sections, in document order.
pub fn collect_chapters(doc: &Document, shape: &CatalogShape) -> (r: Result<Vec<Chapter>, CatalogError>)
    ensures
        match r {
            Ok(cs) => chapters_upto(*doc, *shape, doc.len()) == Ok::<_, CatalogError>(chapters_view(cs@)),
            Err(e) => chapters_upto(*doc, *shape, doc.len()) == Err::<Seq<(Seq<char>, Seq<(u64, Seq<char>)>)>, _>(e),
        },
{
    let mut out: Vec<Chapter> = Vec::new();
    let marker = Query::Class(shape.chapter_class.clone());
    let mut i: usize = 0;
    assert(chapters_view(out@) =~= seq![]);
    while i < doc.elements.len()
        invariant
            i <= doc.len(),
            marker@ == (true, shape.chapter_class@),
            chapters_upto(*doc, *shape, i as int) == Ok::<_, CatalogError>(chapters_view(out@)),
        decreases doc.len() - i,
    {
        if element_matches(&doc.elements[i], &marker) {
            match chapter_from(doc, shape, i) {
                Err(e) => {
                    proof {
                        lemma_error_persists(*doc, *shape, i + 1, doc.len());
                    }
                    return Err(e);
                },
                Ok(c) => {
                    out.push(c);
                },
            }
        }
        assert(chapters_view(out@) =~= match chapters_upto(*doc, *shape, i + 1) {
            Ok(cs) => cs,
            Err(_) => seq![],
        });
        i = i + 1;
    }
    Ok(out)
}

fn copy_page(p: &PageRef) -> (r: PageRef)
    ensures
        r@ == p@,
{
    PageRef { page_number: p.page_number, href: p.href.clone() }
}

/// Every page of the chapters, each with its chapter's identifier, in order.
pub fn page_targets(chapters: &Vec<Chapter>) -> (r: Vec<PageTarget>)
    ensures
        targets_view(r@) == targets_of(chapters_view(chapters@)),
{
    let mut out: Vec<PageTarget> = Vec::new();
    let mut i: usize = 0;
    assert(targets_view(out@) =~= targets_of(chapters_view(chapters@).take(0)));
    while i < chapters.len()
        invariant
            i <= chapters@.len(),
            targets_view(out@) == targets_of(chapters_view(chapters@).take(i as int)),
        decreases chapters@.len() - i,
    {
        let c = &chapters[i];
        let ghost before = targets_view(out@);
        let mut j: usize = 0;
        while j < c.pages.len()
            invariant
                j <= c.pages@.len(),
                c == chapters@[i as int],
                targets_view(out@) == before + c@.1.take(j as int).map_values(
                    |p: (u64, Seq<char>)| (c@.0, p),
                ),
            decreases c.pages@.len() - j,
        {
            let t = PageTarget { chapter_id: c.id.clone(), page: copy_page(&c.pages[j]) };
            assert(c@.1[j as int] == c.pages@[j as int]@);
            assert(t@ == (c@.0, c@.1[j as int]));
            let ghost prev = targets_view(out@);
            out.push(t);
            assert(targets_view(out@) =~= prev.push(t@));
            assert(c@.1.take(j + 1) =~= c@.1.take(j as int).push(c@.1[j as int]));
            assert(targets_view(out@) =~= before + c@.1.take(j + 1).map_values(
                |p: (u64, Seq<char>)| (c@.0, p),
            ));
            j = j + 1;
        }
        let ghost cv = chapters_view(chapters@);
        assert(cv.take(i + 1).drop_last() =~= cv.take(i as int));
        assert(c@.1.take(j as int) =~= c@.1);
        assert(cv.take(i + 1).last() == c@);
        i = i + 1;
    }
    assert(chapters_view(chapters@).take(i as int) =~= chapters_view(chapters@));
    out
}

/// Whether the page numbers strictly increase along the targets.
pub fn strictly_increasing(ts: &Vec<PageTarget>) -> (r: bool)
    ensures
        r == increasing(targets_view(ts@)),
{
    let mut k: usize = 1;
    while k < ts.len()
        invariant
            1 <= k,
            forall|m: int| 0 < m < k && m < ts@.len() ==> #[trigger] targets_view(ts@)[m].1.0 > targets_view(ts@)[m - 1].1.0,
        decreases ts@.len() - k,
    {
        if ts[k].page.page_number <= ts[k - 1].page.page_number {
            assert(targets_view(ts@)[k as int].1.0 <= targets_view(ts@)[k - 1].1.0);
            return false;
        }
        k = k + 1;
    }
    true
}

/// Parses the archive document into its chapters, in document order.
///
/// Fails with `MissingChapterId` or `MissingNavigation` at the first chapter
/// section without an identifier or without a navigation container, and with
/// `MalformedCatalog` where there is no chapter section or the page numbers do
/// not strictly increase over the whole catalog.
pub fn parse_catalog(doc: &Document, shape: &CatalogShape) -> (r: Result<Vec<Chapter>, CatalogError>)
    ensures
        match r {
            Ok(cs) => catalog_of(*doc, *shape) == Ok::<_, CatalogError>(chapters_view(cs@)),
            Err(e) => catalog_of(*doc, *shape) == Err::<Seq<(Seq<char>, Seq<(u64, Seq<char>)>)>, _>(e),
        },
{
    let cs = match collect_chapters(doc, shape) {
        Err(e) => {
            return Err(e);
        },
        Ok(cs) => cs,
    };
    if cs.len() == 0 {
        return Err(CatalogError::MalformedCatalog);
    }
    let ts = page_targets(&cs);
    if !strictly_increasing(&ts) {
        return Err(CatalogError::MalformedCatalog);
    }
    Ok(cs)
}

proof fn lemma_targets_len(cs: Seq<(Seq<char>, Seq<(u64, Seq<char>)>)>)
    ensures
        targets_of(cs).len() == total_pages(cs),
    decreases cs.len(),
{
    if cs.len() > 0 {
        lemma_targets_len(cs.drop_last());
    }
}

/// A parsed catalog holds, over all its chapters, as many pages as its
/// chapters hold together, and their numbers strictly increase in catalog
/// order.
pub proof fn lemma_parsed_pages_ordered(doc: Document, shape: CatalogShape)
    requires
        catalog_of(doc, shape) is Ok,
    ensures
        ({
            let cs = catalog_of(doc, shape)->Ok_0;
            &&& targets_of(cs).len() == total_pages(cs)
            &&& forall|a: int, b: int|
                0 <= a < b < targets_of(cs).len() ==> #[trigger] targets_of(cs)[a].1.0
                    < #[trigger] targets_of(cs)[b].1.0
        }),
{
    let cs = catalog_of(doc, shape)->Ok_0;
    lemma_targets_len(cs);
    let ts = targets_of(cs);
    assert forall|a: int, b: int| 0 <= a < b < ts.len() implies #[trigger] ts[a].1.0 < #[trigger] ts[b].1.0 by {
        lemma_increasing_pairs(ts, a, b);
    }
}

proof fn lemma_increasing_pairs(ts: Seq<(Seq<char>, (u64, Seq<char>))>, a: int, b: int)
    requires
        increasing(ts),
        0 <= a < b < ts.len(),
    ensures
        ts[a].1.0 < ts[b].1.0,
    decreases b - a,
{
    if a + 1 < b {
        lemma_increasing_pairs(ts, a, b - 1);
    }
    assert(ts[b].1.0 > ts[b - 1].1.0);
}

} // verus!
