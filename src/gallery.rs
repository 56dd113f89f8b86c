//! The gallery index: entries appended in discovery order, rendered once into
//! one document with a control that jumps to a page by number.
use vstd::prelude::*;
use crate::catalog::PageTarget;
use crate::paths::{asset_relative, asset_relative_path, decimal, push_decimal};
use crate::sync::PageOutcome;

verus! {

/// A page of the gallery and its asset's path relative to the output root.
#[derive(Debug, PartialEq, Eq)]
pub struct GalleryEntry {
    pub page_number: u64,
    pub relative_asset_path: String,
}

impl View for GalleryEntry {
    type V = (u64, Seq<char>);

    open spec fn view(&self) -> (u64, Seq<char>) {
        (self.page_number, self.relative_asset_path@)
    }
}

#[derive(PartialEq, Eq, Debug, Clone, Copy, Structural)]
pub enum GalleryError {
    /// The index was already finalized.
    Finalized,
    /// The entry's page number does not exceed the last one appended.
    OutOfOrder,
}

/// The index while it is built, and once it is finalized.
#[derive(Debug, PartialEq, Eq)]
pub struct GalleryIndex {
    pub entries: Vec<GalleryEntry>,
    pub finalized: bool,
}

pub open spec fn entries_view(v: Seq<GalleryEntry>) -> Seq<(u64, Seq<char>)> {
    v.map_values(|e: GalleryEntry| e@)
}

/// Whether the page numbers strictly increase along the entries.
pub open spec fn ordered(es: Seq<(u64, Seq<char>)>) -> bool {
    forall|k: int| 0 < k < es.len() ==> #[trigger] es[k].0 > es[k - 1].0
}

/// The entry that a page of the catalog gets.
pub open spec fn entry_of(t: (Seq<char>, (u64, Seq<char>))) -> (u64, Seq<char>) {
    (t.1.0, asset_relative(t.0, t.1.0))
}

/// The entries that a run records: one for each page that was downloaded or
/// skipped, in order, none for a page that failed.
pub open spec fn recorded(ts: Seq<(Seq<char>, (u64, Seq<char>))>, os: Seq<PageOutcome>) -> Seq<
    (u64, Seq<char>),
>
    decreases os.len(),
{
    if os.len() == 0 || ts.len() == 0 {
        seq![]
    } else {
        let prev = recorded(ts.drop_last(), os.drop_last());
        if os.last() is Failed {
            prev
        } else {
            prev.push(entry_of(ts.last()))
        }
    }
}

pub open spec fn entry_html(e: (u64, Seq<char>)) -> Seq<char> {
    "<figure id=\"page-"@ + decimal(e.0 as nat) + "\"><img src=\""@ + e.1 + "\" alt=\"Page "@
        + decimal(e.0 as nat) + "\"></figure>\n"@
}

pub open spec fn entries_html(es: Seq<(u64, Seq<char>)>) -> Seq<char>
    decreases es.len(),
{
    if es.len() == 0 {
        seq![]
    } else {
        entries_html(es.drop_last()) + entry_html(es.last())
    }
}

/// The jump control, bounded by the first and last page numbers; none for an
/// empty gallery.
pub open spec fn jump_html(es: Seq<(u64, Seq<char>)>) -> Seq<char> {
    if es.len() == 0 {
        seq![]
    } else {
        "<form onsubmit=\"location.hash='page-'+this.p.value;return false\"><input name=\"p\" type=\"number\" min=\""@
            + decimal(es[0].0 as nat) + "\" max=\""@ + decimal(es.last().0 as nat)
            + "\"><button>Go</button></form>\n"@
    }
}

/// The rendered gallery document.
pub open spec fn render(es: Seq<(u64, Seq<char>)>) -> Seq<char> {
    "<!DOCTYPE html>\n<html><head><meta charset=\"utf-8\"><title>Gallery</title></head><body>\n"@
        + jump_html(es) + entries_html(es) + "</body></html>\n"@
}

fn append_entry_html(s: &mut String, e: &GalleryEntry)
    ensures
        final(s)@ == old(s)@ + entry_html(e@),
{
    s.append("<figure id=\"page-");
    push_decimal(s, e.page_number);
    s.append("\"><img src=\"");
    s.append(e.relative_asset_path.as_str());
    s.append("\" alt=\"Page ");
    push_decimal(s, e.page_number);
    s.append("\"></figure>\n");
    assert(final(s)@ =~= old(s)@ + entry_html(e@));
}

impl GalleryIndex {
    pub open spec fn wf(&self) -> bool {
        ordered(entries_view(self.entries@))
    }

    /// An open index with no entries.
    pub fn new() -> (r: GalleryIndex)
        ensures
            r.wf(),
            !r.finalized,
            r.entries@.len() == 0,
    {
        GalleryIndex { entries: Vec::new(), finalized: false }
    }

    /// Appends an entry. Fails with `Finalized` once the index is finalized and
    /// with `OutOfOrder` where the page number does not exceed the last one.
    pub fn append(&mut self, entry: GalleryEntry) -> (r: Result<(), GalleryError>)
        requires
            old(self).wf(),
        ensures
            final(self).wf(),
            final(self).finalized == old(self).finalized,
            old(self).finalized ==> r == Err::<(), GalleryError>(GalleryError::Finalized),
            !old(self).finalized && old(self).entries@.len() > 0 && entry.page_number
                <= old(self).entries@.last().page_number ==> r == Err::<(), GalleryError>(
                GalleryError::OutOfOrder,
            ),
            r is Ok <==> !old(self).finalized && (old(self).entries@.len() == 0
                || entry.page_number > old(self).entries@.last().page_number),
            r is Ok ==> entries_view(final(self).entries@) == entries_view(old(self).entries@).push(
                entry@,
            ),
            r is Err ==> final(self).entries@ == old(self).entries@,
    {
        if self.finalized {
            return Err(GalleryError::Finalized);
        }
        let n = self.entries.len();
        if n > 0 && entry.page_number <= self.entries[n - 1].page_number {
            return Err(GalleryError::OutOfOrder);
        }
        let ghost before = entries_view(self.entries@);
        let ghost ev = entry@;
        self.entries.push(entry);
        assert(entries_view(self.entries@) =~= before.push(ev));
        Ok(())
    }

    /// Records the outcome of a page's sync: a downloaded or skipped page gets
    /// its entry, a failed one none.
    pub fn record(&mut self, target: &PageTarget, outcome: PageOutcome) -> (r: Result<(), GalleryError>)
        requires
            old(self).wf(),
        ensures
            final(self).wf(),
            final(self).finalized == old(self).finalized,
            outcome is Failed ==> r is Ok && final(self).entries@ == old(self).entries@,
            !(outcome is Failed) ==> (r is Ok <==> !old(self).finalized && (old(self).entries@.len()
                == 0 || target.page.page_number > old(self).entries@.last().page_number)),
            !(outcome is Failed) && r is Ok ==> entries_view(final(self).entries@) == entries_view(
                old(self).entries@,
            ).push(entry_of(target@)),
            r is Err ==> final(self).entries@ == old(self).entries@,
    {
        match outcome {
            PageOutcome::Failed(_) => Ok(()),
            _ => {
                let path = asset_relative_path(target.chapter_id.as_str(), target.page.page_number);
                self.append(GalleryEntry { page_number: target.page.page_number, relative_asset_path: path })
            },
        }
    }

    /// The document for the entries so far.
    pub fn render(&self) -> (r: String)
        ensures
            r@ == render(entries_view(self.entries@)),
    {
        let ghost es = entries_view(self.entries@);
        let mut s = String::from_str(
            "<!DOCTYPE html>\n<html><head><meta charset=\"utf-8\"><title>Gallery</title></head><body>\n",
        );
        let n = self.entries.len();
        if n > 0 {
            s.append(
                "<form onsubmit=\"location.hash='page-'+this.p.value;return false\"><input name=\"p\" type=\"number\" min=\"",
            );
            push_decimal(&mut s, self.entries[0].page_number);
            s.append("\" max=\"");
            push_decimal(&mut s, self.entries[n - 1].page_number);
            s.append("\"><button>Go</button></form>\n");
        }
        let ghost head = s@;
        assert(head =~= "<!DOCTYPE html>\n<html><head><meta charset=\"utf-8\"><title>Gallery</title></head><body>\n"@
            + jump_html(es));
        let mut i: usize = 0;
        assert(es.take(0) =~= seq![]);
        while i < n
            invariant
                n == self.entries@.len(),
                es == entries_view(self.entries@),
                i <= n,
                s@ == head + entries_html(es.take(i as int)),
            decreases n - i,
        {
            append_entry_html(&mut s, &self.entries[i]);
            assert(es.take(i + 1).drop_last() =~= es.take(i as int));
            i = i + 1;
        }
        assert(es.take(n as int) =~= es);
        s.append("</body></html>\n");
        assert(s@ =~= render(es));
        s
    }

    /// Finalizes the index and gives its document; fails with `Finalized` the
    /// second time.
    pub fn finalize(&mut self) -> (r: Result<String, GalleryError>)
        requires
            old(self).wf(),
        ensures
            final(self).wf(),
            final(self).finalized,
            final(self).entries@ == old(self).entries@,
            match r {
                Ok(doc) => !old(self).finalized && doc@ == render(entries_view(old(self).entries@)),
                Err(e) => old(self).finalized && e == GalleryError::Finalized,
            },
    {
        if self.finalized {
            return Err(GalleryError::Finalized);
        }
        self.finalized = true;
        Ok(self.render())
    }
}

} // verus!
