use vstd::prelude::*;

use crate::errors::ManifestError;
use crate::event::{views, RawEvent, RawEventView};
use crate::manifest::Model;
use crate::short_string::{decode_short_string, short_string_decodable};

verus! {

/// A registration event's payload is `[class_hash, prev_class_hash, name]`.
pub open spec fn registration_shaped(e: RawEventView) -> bool {
    e.data.len() >= 3
}

/// One chain-link step of the registry fold. A first registration for a
/// name is inserted; a later one overwrites the recorded class hash only
/// when its declared previous class hash equals the recorded one (a
/// valid forward link); a mismatched link is ignored.
pub open spec fn apply_registration(
    m: Map<Seq<char>, Seq<u8>>,
    name: Seq<char>,
    class_hash: Seq<u8>,
    prev_class_hash: Seq<u8>,
) -> Map<Seq<char>, Seq<u8>> {
    if m.contains_key(name) {
        if m[name] == prev_class_hash {
            m.insert(name, class_hash)
        } else {
            m
        }
    } else {
        m.insert(name, class_hash)
    }
}

/// The name-to-class-hash registry after replaying the registration
/// events in retrieval order. Retrieval order is not guaranteed to equal
/// ledger order across a full history scan; the chain-link rule is
/// nonetheless applied in retrieval order on purpose, since consumers
/// may depend on that order-sensitive tie-break.
pub open spec fn registered_models(events: Seq<RawEventView>) -> Map<Seq<char>, Seq<u8>>
    decreases events.len(),
{
    if events.len() == 0 {
        Map::empty()
    } else {
        let e = events.last();
        apply_registration(
            registered_models(events.drop_last()),
            decode_short_string(e.data[2]),
            e.data[0],
            e.data[1],
        )
    }
}

/// Whether every event's packed name field holds decodable text.
pub open spec fn all_names_decodable(events: Seq<RawEventView>) -> bool {
    forall|i: int| 0 <= i < events.len() ==> short_string_decodable(#[trigger] events[i].data[2])
}

/// The registry a model list denotes: its entries read as a map, later
/// entries shadowing earlier ones of the same name.
pub open spec fn model_map(s: Seq<Model>) -> Map<Seq<char>, Seq<u8>>
    decreases s.len(),
{
    if s.len() == 0 {
        Map::empty()
    } else {
        model_map(s.drop_last()).insert(s.last().name@, s.last().class_hash@)
    }
}

/// Pairwise distinct names.
pub open spec fn names_unique(s: Seq<Model>) -> bool {
    forall|i: int, j: int|
        0 <= i < j < s.len() ==> (#[trigger] s[i]).name@ != (#[trigger] s[j]).name@
}

proof fn lemma_model_map_entry(s: Seq<Model>, k: int)
    requires
        names_unique(s),
        0 <= k < s.len(),
    ensures
        model_map(s).contains_key(s[k].name@),
        model_map(s)[s[k].name@] == s[k].class_hash@,
    decreases s.len(),
{
    if k == s.len() - 1 {
    } else {
        assert(names_unique(s.drop_last()));
        assert(s.drop_last()[k] == s[k]);
        lemma_model_map_entry(s.drop_last(), k);
        assert(s[k].name@ != s.last().name@);
    }
}

proof fn lemma_model_map_absent(s: Seq<Model>, name: Seq<char>)
    requires
        forall|k: int| 0 <= k < s.len() ==> (#[trigger] s[k]).name@ != name,
    ensures
        !model_map(s).contains_key(name),
    decreases s.len(),
{
    if s.len() > 0 {
        assert forall|k: int| 0 <= k < s.drop_last().len() implies (#[trigger] s.drop_last()[k]).name@
            != name by {
            assert(s.drop_last()[k] == s[k]);
        }
        lemma_model_map_absent(s.drop_last(), name);
        assert(s.last() == s[s.len() - 1]);
    }
}

proof fn lemma_model_map_update(s: Seq<Model>, k: int, m2: Model)
    requires
        names_unique(s),
        0 <= k < s.len(),
        m2.name@ == s[k].name@,
    ensures
        model_map(s.update(k, m2)) == model_map(s).insert(s[k].name@, m2.class_hash@),
    decreases s.len(),
{
    let s2 = s.update(k, m2);
    if k == s.len() - 1 {
        assert(s2.drop_last() =~= s.drop_last());
        assert(s2.last() == m2);
        assert(model_map(s2) =~= model_map(s).insert(s[k].name@, m2.class_hash@));
    } else {
        assert(names_unique(s.drop_last()));
        assert(s.drop_last()[k] == s[k]);
        lemma_model_map_update(s.drop_last(), k, m2);
        assert(s2.drop_last() =~= s.drop_last().update(k, m2));
        assert(s2.last() == s.last());
        assert(s[k].name@ != s.last().name@);
        assert(model_map(s2) =~= model_map(s).insert(s[k].name@, m2.class_hash@));
    }
}

fn find_model(models: &Vec<Model>, name: &String) -> (r: Option<usize>)
    ensures
        r matches Some(k) ==> 0 <= k < models@.len() && models@[k as int].name@ == name@,
        r is None ==> forall|k: int| 0 <= k < models@.len() ==> (#[trigger] models@[k]).name@
            != name@,
{
    let mut i: usize = 0;
    #[verifier::loop_isolation(false)]
    while i < models.len()
        invariant
            i <= models@.len(),
            forall|k: int| 0 <= k < i ==> (#[trigger] models@[k]).name@ != name@,
        decreases models@.len() - i,
    {
        if models[i].name == *name {
            return Some(i);
        }
        i = i + 1;
    }
    None
}

/// Builds the model registry from the registration events, processed in
/// retrieval order: the first event for a name inserts it, a later event
/// overwrites the name's class hash exactly when its declared previous
/// class hash matches the recorded one, and a broken link is silently
/// ignored. Fails exactly when some event's packed name is not decodable
/// text. Members and schema descriptions are left for the collaborators
/// that own those formats.
pub fn parse_models_events(events: &Vec<RawEvent>) -> (r: Result<Vec<Model>, ManifestError>)
    requires
        forall|i: int| 0 <= i < events@.len() ==> registration_shaped(#[trigger] events@[i]@),
    ensures
        r is Ok <==> all_names_decodable(views(events@)),
        r matches Ok(models) ==> {
            &&& model_map(models@) == registered_models(views(events@))
            &&& names_unique(models@)
            &&& forall|i: int|
                0 <= i < models@.len() ==> (#[trigger] models@[i]).members@.len() == 0
                    && models@[i].abi is None
        },
        r matches Err(e) ==> e == ManifestError::ShortStringDecode,
{
    let mut models: Vec<Model> = Vec::new();
    let mut i: usize = 0;
    #[verifier::loop_isolation(false)]
    while i < events.len()
        invariant
            i <= events@.len(),
            forall|k: int|
                0 <= k < i ==> short_string_decodable(#[trigger] views(events@)[k].data[2]),
            model_map(models@) == registered_models(views(events@.take(i as int))),
            names_unique(models@),
            forall|k: int|
                0 <= k < models@.len() ==> (#[trigger] models@[k]).members@.len() == 0
                    && models@[k].abi is None,
        decreases events@.len() - i,
    {
        let e = &events[i];
        proof {
            assert(registration_shaped(events@[i as int]@));
            assert(e@.data.len() >= 3);
            assert(e.data@.len() >= 3);
            assert(e@.data[2] == e.data@[2]@);
            assert(e@.data[0] == e.data@[0]@);
            assert(e@.data[1] == e.data@[1]@);
            assert(views(events@)[i as int] == e@);
            assert(views(events@.take(i + 1)) =~= views(events@.take(i as int)).push(e@));
            assert(views(events@.take(i + 1)).drop_last() =~= views(events@.take(i as int)));
        }
        let name = match e.data[2].parse_short_string() {
            Ok(n) => n,
            Err(err) => {
                proof {
                    assert(!short_string_decodable(views(events@)[i as int].data[2]));
                }
                return Err(err);
            },
        };
        let ghost m_before = model_map(models@);
        match find_model(&models, &name) {
            Some(k) => {
                proof {
                    lemma_model_map_entry(models@, k as int);
                }
                if models[k].class_hash.equals(&e.data[1]) {
                    let updated = Model {
                        name,
                        members: Vec::new(),
                        class_hash: e.data[0].dup(),
                        abi: None,
                    };
                    let ghost pre = models@;
                    models[k] = updated;
                    proof {
                        lemma_model_map_update(pre, k as int, models@[k as int]);
                        assert(model_map(models@) == m_before.insert(
                            decode_short_string(e@.data[2]),
                            e@.data[0],
                        ));
                    }
                } else {
                    proof {
                        assert(m_before[name@] != e@.data[1]);
                    }
                }
            },
            Option::None => {
                proof {
                    lemma_model_map_absent(models@, name@);
                }
                let ghost pre = models@;
                models.push(
                    Model { name, members: Vec::new(), class_hash: e.data[0].dup(), abi: None },
                );
                proof {
                    assert(models@.drop_last() =~= pre);
                    assert(models@.last() == models@[models@.len() - 1]);
                    assert(model_map(models@) == m_before.insert(
                        decode_short_string(e@.data[2]),
                        e@.data[0],
                    ));
                }
            },
        }
        i = i + 1;
    }
    proof {
        assert(events@.take(events@.len() as int) =~= events@);
    }
    Ok(models)
}

/// The chain-link rule itself: a registration is applied — it overwrites
/// the class hash recorded for its name — exactly when its declared
/// previous class hash equals the recorded one; with no recorded entry
/// it is inserted; a mismatched link leaves the registry unchanged.
pub proof fn lemma_registration_chain_link(
    m: Map<Seq<char>, Seq<u8>>,
    name: Seq<char>,
    class_hash: Seq<u8>,
    prev_class_hash: Seq<u8>,
)
    ensures
        m.contains_key(name) && m[name] == prev_class_hash ==> apply_registration(
            m,
            name,
            class_hash,
            prev_class_hash,
        ) == m.insert(name, class_hash),
        m.contains_key(name) && m[name] != prev_class_hash ==> apply_registration(
            m,
            name,
            class_hash,
            prev_class_hash,
        ) == m,
        !m.contains_key(name) ==> apply_registration(m, name, class_hash, prev_class_hash)
            == m.insert(name, class_hash),
{
}

} // verus!
