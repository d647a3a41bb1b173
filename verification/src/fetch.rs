use vstd::prelude::*;

use crate::event::{views, RawEvent, RawEventView};

verus! {

/// One page as the ledger's event query returns it: the page's events,
/// and the opaque continuation token to send with the next call, absent
/// when this page ends the log.
pub struct EventPage {
    pub events: Vec<RawEvent>,
    pub continuation_token: Option<String>,
}

/// The events the pages carry, in order of arrival.
pub open spec fn page_views(pages: Seq<Seq<RawEventView>>) -> Seq<RawEventView>
    decreases pages.len(),
{
    if pages.len() == 0 {
        Seq::empty()
    } else {
        page_views(pages.drop_last()) + pages.last()
    }
}

/// The accumulator of the paginated fetch. The caller performs one
/// event-query round trip per page, hands each page in, and repeats
/// while `done` is false, sending `continuation_token` with the next
/// call; the accumulated events are then the concatenation of every
/// page's events, in retrieval order. The pages absorbed so far are kept
/// in ghost form, so that holds as a stated invariant, not a convention.
pub struct EventFetch {
    pub events: Vec<RawEvent>,
    pub continuation_token: Option<String>,
    pub done: bool,
    pub pages: Ghost<Seq<Seq<RawEventView>>>,
}

impl EventFetch {
    /// The accumulator's invariant: what it has drained is exactly the
    /// concatenation of the pages absorbed so far.
    pub open spec fn wf(self) -> bool {
        views(self.events@) == page_views(self.pages@)
    }

    /// A fresh fetch: nothing drained, no token, not done, so the first
    /// query goes out with no continuation token.
    pub fn new() -> (r: EventFetch)
        ensures
            r.wf(),
            r.events@.len() == 0,
            r.continuation_token is None,
            !r.done,
            r.pages@ == Seq::<Seq<RawEventView>>::empty(),
    {
        let r = EventFetch {
            events: Vec::new(),
            continuation_token: None,
            done: false,
            pages: Ghost(Seq::empty()),
        };
        proof {
            assert(views(r.events@) =~= page_views(r.pages@));
        }
        r
    }

    /// Absorbs one page: appends its events to the accumulator, keeps
    /// its continuation token for the next call, and is done exactly
    /// when the page carried no token.
    pub fn absorb_page(&mut self, page: EventPage)
        requires
            !old(self).done,
        ensures
            final(self).pages@ == old(self).pages@.push(views(page.events@)),
            views(final(self).events@) == views(old(self).events@) + views(page.events@),
            old(self).wf() ==> final(self).wf(),
            final(self).done <==> page.continuation_token is None,
            final(self).continuation_token == page.continuation_token,
    {
        let mut incoming = page.events;
        let ghost incoming0 = incoming@;
        self.events.append(&mut incoming);
        self.done = page.continuation_token.is_none();
        self.continuation_token = page.continuation_token;
        proof {
            self.pages@ = self.pages@.push(views(incoming0));
            assert(views(self.events@) =~= views(old(self).events@) + views(incoming0));
            assert(self.pages@.drop_last() =~= old(self).pages@);
            assert(self.pages@.last() == views(incoming0));
        }
    }
}

/// The paginated fetch yields the concatenation of all pages' events:
/// the fold the accumulator maintains equals the flat concatenation of
/// the page sequence, whatever the pages hold.
pub proof fn lemma_accumulator_is_concatenation(pages: Seq<Seq<RawEventView>>)
    ensures
        page_views(pages) == pages.flatten(),
    decreases pages.len(),
{
    if pages.len() == 0 {
        assert(pages.flatten() =~= Seq::<RawEventView>::empty());
    } else {
        lemma_accumulator_is_concatenation(pages.drop_last());
        pages.lemma_flatten_and_flatten_alt_are_equivalent();
        pages.drop_last().lemma_flatten_and_flatten_alt_are_equivalent();
    }
}

} // verus!
