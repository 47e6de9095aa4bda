//! Cursor pagination: drains a listing larger than one page into one
//! collection, up to a cap, and keeps the cursor for resuming.
use vstd::prelude::*;

verus! {

/// The largest page the service returns.
pub const MAX_PAGE_SIZE: usize = 1000;

pub open spec fn min_usize(a: usize, b: usize) -> usize {
    if a <= b {
        a
    } else {
        b
    }
}

/// Whether a page says more items follow: it is marked truncated, holds at
/// least one item, and names a non-empty cursor.
pub open spec fn page_continues(len: nat, truncated: bool, next: Option<Seq<char>>) -> bool {
    truncated && len > 0 && (next matches Some(c) && c.len() > 0)
}

/// The state of one paginated listing. The caller asks for the next page's
/// size and cursor, calls the listing endpoint, and hands the page back.
#[derive(Debug)]
pub struct Paginator<T> {
    max_items: usize,
    items: Vec<T>,
    prefixes: Vec<String>,
    cursor: Option<String>,
    done: bool,
}

impl<T> Paginator<T> {
    pub closed spec fn cap(&self) -> usize {
        self.max_items
    }

    pub closed spec fn collected(&self) -> Seq<T> {
        self.items@
    }

    pub closed spec fn grouped(&self) -> Seq<String> {
        self.prefixes@
    }

    pub closed spec fn resume(&self) -> Option<Seq<char>> {
        match self.cursor {
            Some(c) => Some(c@),
            None => None,
        }
    }

    pub closed spec fn finished(&self) -> bool {
        self.done
    }

    /// Never more items than the cap; an unfinished listing has room left.
    pub closed spec fn wf(&self) -> bool {
        &&& self.items@.len() <= self.max_items
        &&& (!self.done ==> self.items@.len() < self.max_items)
    }

    /// A listing of at most `max_items` items, from the start.
    pub fn new(max_items: usize) -> (r: Paginator<T>)
        ensures
            r.wf(),
            r.cap() == max_items,
            r.collected().len() == 0,
            r.grouped().len() == 0,
            r.resume() is None,
            r.finished() == (max_items == 0),
    {
        Paginator {
            max_items,
            items: Vec::new(),
            prefixes: Vec::new(),
            cursor: None,
            done: max_items == 0,
        }
    }

    /// A listing of at most `max_items` items that resumes at `cursor`.
    pub fn resume_from(max_items: usize, cursor: &str) -> (r: Paginator<T>)
        ensures
            r.wf(),
            r.cap() == max_items,
            r.collected().len() == 0,
            r.grouped().len() == 0,
            r.resume() == Some(cursor@),
            r.finished() == (max_items == 0),
    {
        Paginator {
            max_items,
            items: Vec::new(),
            prefixes: Vec::new(),
            cursor: Some(String::from_str(cursor)),
            done: max_items == 0,
        }
    }

    pub fn is_done(&self) -> (r: bool)
        ensures
            r == self.finished(),
    {
        self.done
    }

    /// The size of the next page to ask for: what is left under the cap, at
    /// most a full page. None once the listing is finished.
    pub fn next_page_size(&self) -> (r: Option<usize>)
        requires
            self.wf(),
        ensures
            self.finished() <==> r is None,
            r matches Some(n) ==> n == min_usize(
                MAX_PAGE_SIZE,
                (self.cap() - self.collected().len()) as usize,
            ) && n >= 1,
    {
        if self.done {
            None
        } else {
            let left = self.max_items - self.items.len();
            if left < MAX_PAGE_SIZE {
                Some(left)
            } else {
                Some(MAX_PAGE_SIZE)
            }
        }
    }

    /// The cursor to send with the next page, if any.
    pub fn cursor(&self) -> (r: Option<&str>)
        ensures
            match r {
                Some(c) => self.resume() == Some(c@),
                None => self.resume() is None,
            },
    {
        match &self.cursor {
            Some(c) => Some(c.as_str()),
            None => None,
        }
    }

    /// Takes in one page: its items (kept up to the cap), its grouped
    /// prefixes, its truncation flag and its next cursor. The listing ends
    /// when the cap is reached or the page does not continue; the cursor is
    /// kept only while the page continues.
    pub fn accept_page(
        &mut self,
        page: Vec<T>,
        page_prefixes: Vec<String>,
        truncated: bool,
        next: Option<String>,
    )
        requires
            old(self).wf(),
            !old(self).finished(),
        ensures
            final(self).wf(),
            final(self).cap() == old(self).cap(),
            final(self).collected() == old(self).collected() + page@.take(
                min_usize(page@.len() as usize, (old(self).cap() - old(self).collected().len()) as usize) as int,
            ),
            final(self).grouped() == old(self).grouped() + page_prefixes@,
            page_continues(
                page@.len(),
                truncated,
                match next {
                    Some(c) => Some(c@),
                    None => None,
                },
            ) ==> final(self).resume() == match next {
                Some(c) => Some(c@),
                None => None,
            },
            !page_continues(
                page@.len(),
                truncated,
                match next {
                    Some(c) => Some(c@),
                    None => None,
                },
            ) ==> final(self).resume() is None,
            final(self).finished() == (final(self).collected().len() >= old(self).cap()
                || !page_continues(
                page@.len(),
                truncated,
                match next {
                    Some(c) => Some(c@),
                    None => None,
                },
            )),
    {
        let page_len = page.len();
        let left = self.max_items - self.items.len();
        let take = if page_len < left {
            page_len
        } else {
            left
        };
        let mut page = page;
        page.truncate(take);
        let mut page_prefixes = page_prefixes;
        self.items.append(&mut page);
        self.prefixes.append(&mut page_prefixes);
        let continues = match &next {
            Some(c) => truncated && page_len > 0 && c.unicode_len() > 0,
            None => false,
        };
        self.cursor = if continues {
            next
        } else {
            None
        };
        self.done = self.items.len() >= self.max_items || !continues;
    }

    /// The items, the grouped prefixes, and the cursor for resuming.
    pub fn finish(self) -> (r: (Vec<T>, Vec<String>, Option<String>))
        ensures
            r.0@ == self.collected(),
            r.1@ == self.grouped(),
            match r.2 {
                Some(c) => self.resume() == Some(c@),
                None => self.resume() is None,
            },
    {
        (self.items, self.prefixes, self.cursor)
    }
}

/// Clamps a requested page size into 1..=1000.
pub fn clamp_page_size(n: u32) -> (r: u32)
    ensures
        1 <= r <= 1000,
        1 <= n <= 1000 ==> r == n,
        n == 0 ==> r == 1,
        n > 1000 ==> r == 1000,
{
    if n < 1 {
        1
    } else if n > 1000 {
        1000
    } else {
        n
    }
}

} // verus!
