//! A queried markup document, held as its elements in document order.
//!
//! The descendants of the element at index `i` are the elements at the indices
//! from `i + 1` up to (excluding) its `end`, clamped to the document's length.
use vstd::prelude::*;

verus! {

/// One element of a markup document, with the attributes the pipeline reads.
#[derive(Debug, PartialEq, Eq)]
pub struct Element {
    pub tag: String,
    pub classes: Vec<String>,
    pub id: Option<String>,
    pub href: Option<String>,
    pub src: Option<String>,
    /// Visible text of the element's whole subtree.
    pub text: String,
    /// One past the index of the last descendant.
    pub end: usize,
}

/// A markup document: its elements in document (pre-)order.
#[derive(Debug, PartialEq, Eq)]
pub struct Document {
    pub elements: Vec<Element>,
}

/// Whether the class list holds `name`.
pub open spec fn has_class(e: Element, name: Seq<char>) -> bool {
    exists|k: int| 0 <= k < e.classes@.len() && #[trigger] e.classes@[k]@ == name
}

/// A selector of elements: by class or by element name.
#[derive(Debug, PartialEq, Eq)]
pub enum Query {
    Class(String),
    Tag(String),
}

impl View for Query {
    /// Whether the selector is by class, and the name it looks for.
    type V = (bool, Seq<char>);

    open spec fn view(&self) -> (bool, Seq<char>) {
        match self {
            Query::Class(c) => (true, c@),
            Query::Tag(t) => (false, t@),
        }
    }
}

/// Whether `e` is selected by the selector `q` (see `Query`'s view).
pub open spec fn query_matches(e: Element, q: (bool, Seq<char>)) -> bool {
    if q.0 {
        has_class(e, q.1)
    } else {
        e.tag@ == q.1
    }
}

impl Document {
    pub open spec fn len(&self) -> int {
        self.elements@.len() as int
    }

    /// Where the subtree of element `i` stops, clamped to the document.
    pub open spec fn scope_end(&self, i: int) -> int {
        let e = self.elements@[i].end as int;
        if e <= self.len() {
            e
        } else {
            self.len()
        }
    }

    /// The first index in `lo..hi` whose element matches `q`.
    pub open spec fn first_match(&self, lo: int, hi: int, q: (bool, Seq<char>)) -> Option<int> {
        if exists|k: int| lo <= k < hi && query_matches(#[trigger] self.elements@[k], q) {
            let k = choose|k: int|
                lo <= k < hi && query_matches(#[trigger] self.elements@[k], q) && forall|m: int|
                    lo <= m < k ==> !query_matches(#[trigger] self.elements@[m], q);
            Some(k)
        } else {
            None
        }
    }

    /// The subtree end of element `i`, clamped to the document.
    pub fn subtree_end(&self, i: usize) -> (r: usize)
        requires
            i < self.len(),
        ensures
            r == self.scope_end(i as int),
    {
        let e = self.elements[i].end;
        if e <= self.elements.len() {
            e
        } else {
            self.elements.len()
        }
    }

    /// The first element in `lo..hi` that matches `q`, in document order.
    pub fn find_first(&self, lo: usize, hi: usize, q: &Query) -> (r: Option<usize>)
        requires
            hi <= self.len(),
        ensures
            match r {
                Some(k) => self.first_match(lo as int, hi as int, q@) == Some(k as int),
                None => self.first_match(lo as int, hi as int, q@) is None,
            },
            r matches Some(k) ==> lo <= k < hi,
    {
        let mut k = lo;
        while k < hi
            invariant
                lo <= k,
                hi <= self.len(),
                forall|m: int| lo <= m < k ==> !query_matches(#[trigger] self.elements@[m], q@),
            decreases hi - k,
        {
            if element_matches(&self.elements[k], q) {
                let ghost w = k as int;
                assert(lo <= w < hi && query_matches(self.elements@[w], q@));
                proof {
                    let c = self.first_match(lo as int, hi as int, q@);
                    assert(c.is_some());
                    let j = c.unwrap();
                    assert(j == w) by {
                        if j < w {
                            assert(!query_matches(self.elements@[j], q@));
                        }
                        if w < j {
                            assert(!query_matches(self.elements@[w], q@));
                        }
                    }
                }
                return Some(k);
            }
            k = k + 1;
        }
        None
    }
}

/// Whether two strings hold the same characters.
pub fn same_text(a: &str, b: &str) -> (r: bool)
    ensures
        r == (a@ == b@),
{
    let n = a.unicode_len();
    if n != b.unicode_len() {
        return false;
    }
    let mut i: usize = 0;
    while i < n
        invariant
            n == a@.len(),
            n == b@.len(),
            i <= n,
            forall|m: int| 0 <= m < i ==> a@[m] == b@[m],
        decreases n - i,
    {
        if a.get_char(i) != b.get_char(i) {
            return false;
        }
        i = i + 1;
    }
    assert(a@ =~= b@);
    true
}

/// Whether the class list of `e` holds `name`.
pub fn element_has_class(e: &Element, name: &str) -> (r: bool)
    ensures
        r == has_class(*e, name@),
{
    let mut k: usize = 0;
    while k < e.classes.len()
        invariant
            forall|m: int| 0 <= m < k ==> #[trigger] e.classes@[m]@ != name@,
        decreases e.classes.len() - k,
    {
        if same_text(e.classes[k].as_str(), name) {
            return true;
        }
        k = k + 1;
    }
    false
}

/// Whether `e` matches the query.
pub fn element_matches(e: &Element, q: &Query) -> (r: bool)
    ensures
        r == query_matches(*e, q@),
{
    match q {
        Query::Class(c) => element_has_class(e, c.as_str()),
        Query::Tag(t) => same_text(e.tag.as_str(), t.as_str()),
    }
}

} // verus!
