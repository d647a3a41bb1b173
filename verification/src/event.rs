use vstd::prelude::*;

use crate::felt::Felt;

verus! {

/// One raw ledger event, as the paginated event query returns it: the
/// key fields (the first key carries the event-kind signature), the data
/// payload, and the block it was emitted in, absent for a pending block.
pub struct RawEvent {
    pub keys: Vec<Felt>,
    pub data: Vec<Felt>,
    pub block_number: Option<u64>,
}

/// The mathematical shadow of a raw event: its field elements as byte
/// sequences.
pub ghost struct RawEventView {
    pub keys: Seq<Seq<u8>>,
    pub data: Seq<Seq<u8>>,
    pub block_number: Option<u64>,
}

impl View for RawEvent {
    type V = RawEventView;

    open spec fn view(&self) -> RawEventView {
        RawEventView {
            keys: self.keys@.map_values(|f: Felt| f@),
            data: self.data@.map_values(|f: Felt| f@),
            block_number: self.block_number,
        }
    }
}

/// The views of a sequence of events.
pub open spec fn views(s: Seq<RawEvent>) -> Seq<RawEventView> {
    s.map_values(|e: RawEvent| e@)
}

/// Whether the event announces itself with the given signature as its
/// first key.
pub open spec fn has_signature(e: RawEventView, sig: Seq<u8>) -> bool {
    e.keys.len() > 0 && e.keys[0] == sig
}

/// The ledger derives an event kind's signature by a domain-specific
/// hash over the kind's ASCII name; the hash itself is outside this
/// library's scope and is only named here.
pub uninterp spec fn starknet_keccak_of(name: Seq<char>) -> Seq<u8>;

/// Relies on starknet_core::utils::starknet_keccak: the digest of the
/// name's bytes, truncated to 250 bits, a function of those bytes alone,
/// returned in its 32-byte big-endian encoding.
#[verifier::external_body]
pub(crate) fn event_selector(name: &str) -> (r: Felt)
    ensures
        r.wf(),
        r@ == starknet_keccak_of(name@),
{
    let digest = starknet_core::utils::starknet_keccak(name.as_bytes());
    Felt { bytes: digest.to_bytes_be().to_vec() }
}

fn dup_felts(v: &Vec<Felt>) -> (r: Vec<Felt>)
    ensures
        r@.map_values(|f: Felt| f@) == v@.map_values(|f: Felt| f@),
{
    let mut out: Vec<Felt> = Vec::new();
    let mut i: usize = 0;
    while i < v.len()
        invariant
            i <= v@.len(),
            out@.len() == i,
            forall|k: int| 0 <= k < i ==> (#[trigger] out@[k])@ == v@[k]@,
        decreases v@.len() - i,
    {
        out.push(v[i].dup());
        i = i + 1;
    }
    proof {
        assert(out@.map_values(|f: Felt| f@) =~= v@.map_values(|f: Felt| f@));
    }
    out
}

impl RawEvent {
    /// A fresh copy describing the same event.
    pub fn dup(&self) -> (r: RawEvent)
        ensures
            r@ == self@,
    {
        let keys = dup_felts(&self.keys);
        let data = dup_felts(&self.data);
        RawEvent { keys, data, block_number: self.block_number }
    }

    /// Whether this event's first key equals the given signature.
    pub fn matches_signature(&self, sig: &Felt) -> (r: bool)
        ensures
            r <==> has_signature(self@, sig@),
    {
        if self.keys.len() == 0 {
            return false;
        }
        self.keys[0].equals(sig)
    }
}

proof fn lemma_filter_push<A>(s: Seq<A>, pred: spec_fn(A) -> bool, x: A)
    ensures
        s.push(x).filter(pred) == if pred(x) {
            s.filter(pred).push(x)
        } else {
            s.filter(pred)
        },
{
    reveal(Seq::filter);
    assert(s.push(x).drop_last() =~= s);
    assert(s.push(x).last() == x);
}

/// Partitions the flat event sequence into the three typed buckets by
/// the signature in each event's first key, in order: registration
/// events, deployment events, upgrade events. An event matching none of
/// the three signatures is dropped. The partition is stable: each bucket
/// keeps the input's relative order.
pub fn classify_events(events: &Vec<RawEvent>, reg_sig: &Felt, dep_sig: &Felt, upg_sig: &Felt) -> (r:
    (Vec<RawEvent>, Vec<RawEvent>, Vec<RawEvent>))
    ensures
        views(r.0@) == views(events@).filter(|e: RawEventView| has_signature(e, reg_sig@)),
        views(r.1@) == views(events@).filter(
            |e: RawEventView| has_signature(e, dep_sig@) && !has_signature(e, reg_sig@),
        ),
        views(r.2@) == views(events@).filter(
            |e: RawEventView|
                has_signature(e, upg_sig@) && !has_signature(e, reg_sig@) && !has_signature(
                    e,
                    dep_sig@,
                ),
        ),
{
    let ghost reg_pred = |e: RawEventView| has_signature(e, reg_sig@);
    let ghost dep_pred = |e: RawEventView| has_signature(e, dep_sig@) && !has_signature(e, reg_sig@);
    let ghost upg_pred = |e: RawEventView|
        has_signature(e, upg_sig@) && !has_signature(e, reg_sig@) && !has_signature(e, dep_sig@);
    let mut registered: Vec<RawEvent> = Vec::new();
    let mut deployed: Vec<RawEvent> = Vec::new();
    let mut upgraded: Vec<RawEvent> = Vec::new();
    let mut i: usize = 0;
    #[verifier::loop_isolation(false)]
    while i < events.len()
        invariant
            i <= events@.len(),
            views(registered@) == views(events@.take(i as int)).filter(reg_pred),
            views(deployed@) == views(events@.take(i as int)).filter(dep_pred),
            views(upgraded@) == views(events@.take(i as int)).filter(upg_pred),
        decreases events@.len() - i,
    {
        let e = &events[i];
        let ghost x = events@[i as int]@;
        proof {
            assert(e@ == x);
            assert(views(events@.take(i + 1)) =~= views(events@.take(i as int)).push(x));
            lemma_filter_push(views(events@.take(i as int)), reg_pred, x);
            lemma_filter_push(views(events@.take(i as int)), dep_pred, x);
            lemma_filter_push(views(events@.take(i as int)), upg_pred, x);
        }
        if e.matches_signature(reg_sig) {
            registered.push(e.dup());
            proof {
                assert(reg_pred(x));
                assert(views(registered@) =~= views(events@.take(i as int)).filter(reg_pred).push(
                    x,
                ));
            }
        } else if e.matches_signature(dep_sig) {
            deployed.push(e.dup());
            proof {
                assert(!reg_pred(x));
                assert(dep_pred(x));
                assert(views(deployed@) =~= views(events@.take(i as int)).filter(dep_pred).push(x));
            }
        } else if e.matches_signature(upg_sig) {
            upgraded.push(e.dup());
            proof {
                assert(!reg_pred(x));
                assert(!dep_pred(x));
                assert(upg_pred(x));
                assert(views(upgraded@) =~= views(events@.take(i as int)).filter(upg_pred).push(x));
            }
        } else {
            proof {
                assert(!reg_pred(x));
                assert(!dep_pred(x));
                assert(!upg_pred(x));
            }
        }
        i = i + 1;
    }
    proof {
        assert(events@.take(events@.len() as int) =~= events@);
    }
    (registered, deployed, upgraded)
}

} // verus!
