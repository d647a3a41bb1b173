use vstd::prelude::*;

use crate::event::{views, RawEvent, RawEventView};
use crate::felt::Felt;
use crate::manifest::{bare_contract, Contract};

verus! {

/// A deployment event's payload is `[salt, class_hash, address]`.
pub open spec fn deploy_shaped(e: RawEventView) -> bool {
    e.data.len() >= 3
}

/// An upgrade event's payload is `[class_hash, address]`.
pub open spec fn upgrade_shaped(e: RawEventView) -> bool {
    e.data.len() >= 2
}

/// Whether the upgrade event speaks of this address and can be ordered,
/// that is, carries a block number.
pub open spec fn orderable_upgrade_of(e: RawEventView, addr: Seq<u8>) -> bool {
    e.data[1] == addr && e.block_number is Some
}

/// The latest-upgrade-wins reduction for one address: the block number
/// and class hash of the upgrade event with the greatest block number
/// among this address's orderable upgrade events, the earliest such
/// event winning a tie. Upgrade events without a block number cannot be
/// ordered and are left out entirely.
pub open spec fn latest_upgrade_for(events: Seq<RawEventView>, addr: Seq<u8>) -> Option<
    (u64, Seq<u8>),
>
    decreases events.len(),
{
    if events.len() == 0 {
        None
    } else {
        let prev = latest_upgrade_for(events.drop_last(), addr);
        let e = events.last();
        if orderable_upgrade_of(e, addr) {
            let n = e.block_number->0;
            match prev {
                Option::None => Some((n, e.data[0])),
                Option::Some((bn, ch)) => if bn < n {
                    Some((n, e.data[0]))
                } else {
                    Some((bn, ch))
                },
            }
        } else {
            prev
        }
    }
}

/// The class hash a deployment event reconciles to: the latest upgrade
/// for its address if one is orderable, else its own deployed class
/// hash.
pub open spec fn reconciled_class(deploy: RawEventView, upgraded: Seq<RawEventView>) -> Seq<u8> {
    match latest_upgrade_for(upgraded, deploy.data[2]) {
        Option::Some((bn, ch)) => ch,
        Option::None => deploy.data[1],
    }
}

/// Merges deployment and upgrade events into one contract record per
/// deployment event: the record keeps the deployment's address and takes
/// the latest orderable upgrade's class hash when there is one. An
/// address with upgrade events but no deployment event yields no record;
/// deployment is the only entry point into the output.
pub fn parse_contracts_events(deployed: &Vec<RawEvent>, upgraded: &Vec<RawEvent>) -> (r: Vec<
    Contract,
>)
    requires
        forall|i: int| 0 <= i < deployed@.len() ==> deploy_shaped(#[trigger] deployed@[i]@),
        forall|i: int| 0 <= i < upgraded@.len() ==> upgrade_shaped(#[trigger] upgraded@[i]@),
    ensures
        r@.len() == deployed@.len(),
        forall|i: int|
            0 <= i < r@.len() ==> {
                let c = #[trigger] r@[i];
                &&& bare_contract(c)
                &&& c.address matches Some(a) && a@ == deployed@[i]@.data[2]
                &&& c.class_hash@ == reconciled_class(deployed@[i]@, views(upgraded@))
            },
{
    let mut r: Vec<Contract> = Vec::new();
    let mut i: usize = 0;
    #[verifier::loop_isolation(false)]
    while i < deployed.len()
        invariant
            i <= deployed@.len(),
            r@.len() == i,
            forall|k: int|
                0 <= k < i ==> {
                    let c = #[trigger] r@[k];
                    &&& bare_contract(c)
                    &&& c.address matches Some(a) && a@ == deployed@[k]@.data[2]
                    &&& c.class_hash@ == reconciled_class(deployed@[k]@, views(upgraded@))
                },
        decreases deployed@.len() - i,
    {
        let e = &deployed[i];
        proof {
            assert(deploy_shaped(deployed@[i as int]@));
            assert(e@.data.len() >= 3);
        }
        let addr = e.data[2].dup();
        let class_hash = latest_upgraded_class(upgraded, &addr, &e.data[1]);
        r.push(Contract::deployed(addr, class_hash));
        i = i + 1;
    }
    r
}

/// Scans the upgrade events for the one address and returns the class
/// hash of its latest orderable upgrade, or the given fallback (the
/// deployed class hash) if it has none.
fn latest_upgraded_class(upgraded: &Vec<RawEvent>, addr: &Felt, fallback: &Felt) -> (r: Felt)
    requires
        forall|i: int| 0 <= i < upgraded@.len() ==> upgrade_shaped(#[trigger] upgraded@[i]@),
    ensures
        r@ == match latest_upgrade_for(views(upgraded@), addr@) {
            Option::Some((bn, ch)) => ch,
            Option::None => fallback@,
        },
{
    let mut best: Option<(u64, Felt)> = None;
    let mut j: usize = 0;
    #[verifier::loop_isolation(false)]
    while j < upgraded.len()
        invariant
            j <= upgraded@.len(),
            match best {
                Option::None => latest_upgrade_for(views(upgraded@.take(j as int)), addr@)
                    is None,
                Option::Some((bn, ch)) => latest_upgrade_for(
                    views(upgraded@.take(j as int)),
                    addr@,
                ) == Some((bn, ch@)),
            },
        decreases upgraded@.len() - j,
    {
        let u = &upgraded[j];
        proof {
            assert(upgrade_shaped(upgraded@[j as int]@));
            assert(u@.data.len() >= 2);
            assert(views(upgraded@.take(j + 1)) =~= views(upgraded@.take(j as int)).push(
                upgraded@[j as int]@,
            ));
            assert(views(upgraded@.take(j + 1)).drop_last() =~= views(upgraded@.take(j as int)));
        }
        if let Some(n) = u.block_number {
            if u.data[1].equals(addr) {
                let replace = match &best {
                    Option::None => true,
                    Option::Some((bn, _)) => *bn < n,
                };
                if replace {
                    best = Some((n, u.data[0].dup()));
                }
            }
        }
        j = j + 1;
    }
    proof {
        assert(upgraded@.take(upgraded@.len() as int) =~= upgraded@);
    }
    match best {
        Option::Some((_, ch)) => ch,
        Option::None => fallback.dup(),
    }
}

/// The latest-wins reduction is sound: when it yields a result, that
/// result is the block number and class hash of an actual orderable
/// upgrade event for the address, no orderable upgrade event for the
/// address has a greater block number, and the earliest event with that
/// block number is the one kept. When it yields none, the address has no
/// orderable upgrade event at all, and the deployment's own class hash
/// stands.
pub proof fn lemma_latest_upgrade_wins(events: Seq<RawEventView>, addr: Seq<u8>)
    ensures
        latest_upgrade_for(events, addr) matches Some(res) ==> {
            &&& exists|i: int|
                0 <= i < events.len() && orderable_upgrade_of(#[trigger] events[i], addr)
                    && events[i].block_number == Some(res.0) && events[i].data[0] == res.1
            &&& forall|i: int|
                0 <= i < events.len() && orderable_upgrade_of(#[trigger] events[i], addr)
                    ==> events[i].block_number->0 <= res.0
        },
        latest_upgrade_for(events, addr) is None <==> forall|i: int|
            0 <= i < events.len() ==> !orderable_upgrade_of(#[trigger] events[i], addr),
    decreases events.len(),
{
    if events.len() > 0 {
        lemma_latest_upgrade_wins(events.drop_last(), addr);
        let prev = latest_upgrade_for(events.drop_last(), addr);
        let e = events.last();
        if latest_upgrade_for(events, addr) is Some {
            let res = latest_upgrade_for(events, addr)->0;
            if orderable_upgrade_of(e, addr) && (prev is None || (prev->0).0 < e.block_number->0) {
                assert(events[events.len() - 1] == e);
            } else {
                let i = choose|i: int|
                    0 <= i < events.drop_last().len() && orderable_upgrade_of(
                        #[trigger] events.drop_last()[i],
                        addr,
                    ) && events.drop_last()[i].block_number == Some(res.0)
                        && events.drop_last()[i].data[0] == res.1;
                assert(events[i] == events.drop_last()[i]);
            }
            assert forall|i: int|
                0 <= i < events.len() && orderable_upgrade_of(#[trigger] events[i], addr) implies
                events[i].block_number->0 <= res.0 by {
                if i < events.len() - 1 {
                    assert(events.drop_last()[i] == events[i]);
                }
            }
        }
        assert forall|i: int| 0 <= i < events.len() - 1 implies events.drop_last()[i] == events[i]
            by {}
    }
}

/// For one address's deployment and upgrade events, the reconciled
/// class hash is the class hash of an upgrade event holding the maximum
/// block number among those that have one; if no upgrade event for the
/// address has a block number, it is the deployment event's own class
/// hash.
pub proof fn lemma_reconciled_class_latest_wins(deploy: RawEventView, upgraded: Seq<RawEventView>)
    ensures
        (forall|i: int|
            0 <= i < upgraded.len() ==> !orderable_upgrade_of(#[trigger] upgraded[i], deploy.data[2]))
            ==> reconciled_class(deploy, upgraded) == deploy.data[1],
        (exists|i: int|
            0 <= i < upgraded.len() && orderable_upgrade_of(#[trigger] upgraded[i], deploy.data[2]))
            ==> exists|i: int|
            {
                &&& 0 <= i < upgraded.len()
                &&& orderable_upgrade_of(#[trigger] upgraded[i], deploy.data[2])
                &&& upgraded[i].data[0] == reconciled_class(deploy, upgraded)
                &&& forall|j: int|
                    0 <= j < upgraded.len() && orderable_upgrade_of(
                        #[trigger] upgraded[j],
                        deploy.data[2],
                    ) ==> upgraded[j].block_number->0 <= upgraded[i].block_number->0
            },
{
    let addr = deploy.data[2];
    lemma_latest_upgrade_wins(upgraded, addr);
    if exists|i: int| 0 <= i < upgraded.len() && orderable_upgrade_of(#[trigger] upgraded[i], addr) {
        let res = latest_upgrade_for(upgraded, addr)->0;
        let w = choose|i: int|
            0 <= i < upgraded.len() && orderable_upgrade_of(#[trigger] upgraded[i], addr)
                && upgraded[i].block_number == Some(res.0) && upgraded[i].data[0] == res.1;
        assert(orderable_upgrade_of(upgraded[w], deploy.data[2]));
        assert(upgraded[w].data[0] == reconciled_class(deploy, upgraded));
    }
}

/// An upgrade event with no block number never influences the
/// reconciliation, wherever it stands in the sequence: dropping it
/// changes no address's latest-wins result.
pub proof fn lemma_blockless_upgrade_ignored(
    pre: Seq<RawEventView>,
    e: RawEventView,
    post: Seq<RawEventView>,
    addr: Seq<u8>,
)
    requires
        e.block_number is None,
    ensures
        latest_upgrade_for(pre + seq![e] + post, addr) == latest_upgrade_for(pre + post, addr),
    decreases post.len(),
{
    if post.len() == 0 {
        assert((pre + seq![e] + post).drop_last() =~= pre);
        assert((pre + seq![e] + post).last() == e);
        assert(pre + post =~= pre);
    } else {
        lemma_blockless_upgrade_ignored(pre, e, post.drop_last(), addr);
        assert((pre + seq![e] + post).drop_last() =~= pre + seq![e] + post.drop_last());
        assert((pre + post).drop_last() =~= pre + post.drop_last());
        assert((pre + seq![e] + post).last() == post.last());
        assert((pre + post).last() == post.last());
    }
}

} // verus!
