//! In-process bundle store: the authority for which refs are admitted in a
//! bundle. It fails closed on an unknown bundle and on a ref outside the
//! bundle's admitted inventory.

use vstd::prelude::*;

use crate::assemble::{
    lemma_payload_map_absent, lemma_payload_map_last, payload_map, payload_views, AssembledBundle,
    BundleView, StoredPayload, StoredPayloadView,
};
use crate::error::{ContextError, Result};
use crate::text::views;

verus! {

/// Bundles by `context_bundle_id`; storing a bundle under an id already in
/// the store replaces the earlier one.
///
/// The bundles sit in a `Vec` whose ids are kept distinct (the type
/// invariant), not in a `HashMap<String, _>` or `BTreeMap<String, _>`:
/// vstd's specifications of those maps hold only for key types with a key
/// model (`obeys_key_model`, `key_obeys_cmp_spec`), which vstd gives to integers
/// and `bool` but not to `String`, and which could only be taken on trust
/// here. With the `Vec`, what `put` and `get` do is proved.
pub struct BundleStore {
    bundles: Vec<AssembledBundle>,
}

/// The store's contents, inserting the bundles in order by their ids.
pub open spec fn bundle_map(s: Seq<AssembledBundle>) -> Map<Seq<char>, BundleView>
    decreases s.len(),
{
    if s.len() == 0 {
        Map::empty()
    } else {
        bundle_map(s.drop_last()).insert(s.last()@.context_bundle_id, s.last()@)
    }
}

pub open spec fn ids_distinct(s: Seq<AssembledBundle>) -> bool {
    forall|i: int, j: int|
        0 <= i < j < s.len() ==> (#[trigger] s[i])@.context_bundle_id != (#[trigger] s[j])@.context_bundle_id
}

proof fn lemma_bundle_map_lookup(s: Seq<AssembledBundle>, k: Seq<char>)
    requires
        ids_distinct(s),
    ensures
        bundle_map(s).contains_key(k) <==> exists|j: int| 0 <= j < s.len() && (#[trigger] s[j])@.context_bundle_id == k,
        forall|j: int| 0 <= j < s.len() && (#[trigger] s[j])@.context_bundle_id == k ==> bundle_map(s)[k] == s[j]@,
    decreases s.len(),
{
    if s.len() > 0 {
        let p = s.drop_last();
        assert(ids_distinct(p));
        lemma_bundle_map_lookup(p, k);
        if bundle_map(s).contains_key(k) && s.last()@.context_bundle_id != k {
            let j = choose|j: int| 0 <= j < p.len() && (#[trigger] p[j])@.context_bundle_id == k;
            assert(s[j] == p[j]);
        }
        if s.last()@.context_bundle_id == k {
            assert(s[s.len() - 1] == s.last());
        }
        assert forall|j: int| 0 <= j < s.len() && (#[trigger] s[j])@.context_bundle_id == k implies bundle_map(s)[k] == s[j]@ by {
            if j < s.len() - 1 {
                assert(s[j] == p[j]);
            }
        }
        assert forall|j: int| 0 <= j < s.len() && (#[trigger] s[j])@.context_bundle_id == k implies bundle_map(s).contains_key(k) by {
            if j < s.len() - 1 {
                assert(s[j] == p[j]);
            }
        }
    }
}

proof fn lemma_bundle_map_update(s: Seq<AssembledBundle>, i: int, b: AssembledBundle)
    requires
        ids_distinct(s),
        0 <= i < s.len(),
        s[i]@.context_bundle_id == b@.context_bundle_id,
    ensures
        bundle_map(s.update(i, b)) =~= bundle_map(s).insert(b@.context_bundle_id, b@),
    decreases s.len(),
{
    let t = s.update(i, b);
    if i == s.len() - 1 {
        assert(t.drop_last() =~= s.drop_last());
    } else {
        assert(t.drop_last() =~= s.drop_last().update(i, b));
        assert(ids_distinct(s.drop_last()));
        lemma_bundle_map_update(s.drop_last(), i, b);
        assert(s[s.len() - 1] == s.last());
        assert(s.last()@.context_bundle_id != b@.context_bundle_id);
    }
}

impl View for BundleStore {
    type V = Map<Seq<char>, BundleView>;

    closed spec fn view(&self) -> Map<Seq<char>, BundleView> {
        bundle_map(self.bundles@)
    }
}

impl BundleStore {
    #[verifier::type_invariant]
    spec fn inv(self) -> bool {
        ids_distinct(self.bundles@)
    }

    /// An empty store.
    pub fn new() -> (s: Self)
        ensures
            s@ == Map::<Seq<char>, BundleView>::empty(),
    {
        BundleStore { bundles: Vec::new() }
    }

    /// Stores a bundle under its `context_bundle_id` and returns that id.
    pub fn put(&mut self, bundle: AssembledBundle) -> (id: String)
        ensures
            id@ == bundle@.context_bundle_id,
            final(self)@ == old(self)@.insert(bundle@.context_bundle_id, bundle@),
    {
        proof {
            use_type_invariant(&*self);
        }
        let id = bundle.manifest.context_bundle_id.clone();
        let ghost s = self.bundles@;
        let mut i: usize = 0;
        while i < self.bundles.len()
            invariant
                s == self.bundles@,
                s == old(self).bundles@,
                ids_distinct(s),
                i <= s.len(),
                id@ == bundle@.context_bundle_id,
                forall|k: int| 0 <= k < i ==> (#[trigger] s[k])@.context_bundle_id != id@,
            decreases s.len() - i,
        {
            if self.bundles[i].manifest.context_bundle_id == id {
                proof {
                    lemma_bundle_map_update(s, i as int, bundle);
                    assert forall|a: int, b: int| 0 <= a < b < s.len() implies (#[trigger] s.update(i as int, bundle)[a])@.context_bundle_id
                        != (#[trigger] s.update(i as int, bundle)[b])@.context_bundle_id by {
                        assert(s[a] == s[a]);
                        assert(s[b] == s[b]);
                    }
                }
                let mut bundles: Vec<AssembledBundle> = Vec::new();
                std::mem::swap(&mut bundles, &mut self.bundles);
                bundles.set(i, bundle);
                self.bundles = bundles;
                return id;
            }
            i = i + 1;
        }
        proof {
            assert(s.push(bundle).drop_last() =~= s);
            assert forall|a: int, b: int| 0 <= a < b < s.len() + 1 implies (#[trigger] s.push(bundle)[a])@.context_bundle_id
                != (#[trigger] s.push(bundle)[b])@.context_bundle_id by {
                if b == s.len() {
                    assert(s[a] == s.push(bundle)[a]);
                } else {
                    assert(s[a] == s.push(bundle)[a]);
                    assert(s[b] == s.push(bundle)[b]);
                }
            }
        }
        let mut bundles: Vec<AssembledBundle> = Vec::new();
                std::mem::swap(&mut bundles, &mut self.bundles);
        bundles.push(bundle);
        self.bundles = bundles;
        id
    }

    fn index_of(&self, bundle_id: &str) -> (r: Option<usize>)
        ensures
            match r {
                Some(j) => j < self.bundles@.len() && self.bundles@[j as int]@.context_bundle_id == bundle_id@,
                None => forall|j: int| 0 <= j < self.bundles@.len() ==> (#[trigger] self.bundles@[j])@.context_bundle_id != bundle_id@,
            },
    {
        let key = bundle_id.to_owned();
        let mut i: usize = 0;
        while i < self.bundles.len()
            invariant
                i <= self.bundles@.len(),
                key@ == bundle_id@,
                forall|j: int| 0 <= j < i ==> (#[trigger] self.bundles@[j])@.context_bundle_id != bundle_id@,
            decreases self.bundles@.len() - i,
        {
            if self.bundles[i].manifest.context_bundle_id == key {
                return Some(i);
            }
            i = i + 1;
        }
        None
    }

    /// The bundle stored under `bundle_id`, if any.
    pub fn get(&self, bundle_id: &str) -> (r: Option<AssembledBundle>)
        ensures
            match r {
                Some(b) => self@.contains_key(bundle_id@) && b@ == self@[bundle_id@],
                None => !self@.contains_key(bundle_id@),
            },
    {
        proof {
            use_type_invariant(self);
            lemma_bundle_map_lookup(self.bundles@, bundle_id@);
        }
        match self.index_of(bundle_id) {
            Some(j) => Some(self.bundles[j].clone()),
            None => None,
        }
    }

    /// The payload stored under `payload_ref` in bundle `bundle_id`.
    /// Fails closed: `BundleNotFound` for an unknown bundle, and
    /// `RefNotAdmitted` for a ref outside the bundle's admitted inventory or
    /// with no payload behind it.
    pub fn get_payload(&self, bundle_id: &str, payload_ref: &str) -> (r: Result<StoredPayload>)
        ensures
            !self@.contains_key(bundle_id@) ==> (r matches Err(ContextError::BundleNotFound(m)) && m@
                == bundle_id@),
            self@.contains_key(bundle_id@) && !self@[bundle_id@].payload_refs.contains(payload_ref@)
                ==> (r matches Err(ContextError::RefNotAdmitted(m)) && m@ == payload_ref@),
            self@.contains_key(bundle_id@) && self@[bundle_id@].payload_refs.contains(payload_ref@)
                && !self@[bundle_id@].payloads.contains_key(payload_ref@) ==> (r matches Err(
                ContextError::RefNotAdmitted(m),
            ) && m@ == payload_ref@),
            self@.contains_key(bundle_id@) && self@[bundle_id@].payload_refs.contains(payload_ref@)
                && self@[bundle_id@].payloads.contains_key(payload_ref@) ==> (r matches Ok(p) && p@
                == self@[bundle_id@].payloads[payload_ref@]),
            r matches Ok(p) ==> served(self@, bundle_id@, payload_ref@) == Some(p@),
            r is Err ==> served(self@, bundle_id@, payload_ref@) is None,
    {
        proof {
            use_type_invariant(self);
            lemma_bundle_map_lookup(self.bundles@, bundle_id@);
        }
        let j = match self.index_of(bundle_id) {
            None => {
                return Err(ContextError::BundleNotFound(bundle_id.to_owned()));
            },
            Some(j) => j,
        };
        let bundle = &self.bundles[j];
        assert(self@[bundle_id@] == bundle@);
        if !contains_string(&bundle.payload_refs, payload_ref) {
            return Err(ContextError::RefNotAdmitted(payload_ref.to_owned()));
        }
        match last_payload_index(&bundle.payloads, payload_ref) {
            Some(k) => Ok(bundle.payloads[k].clone()),
            None => Err(ContextError::RefNotAdmitted(payload_ref.to_owned())),
        }
    }
}

/// Whether `key` is one of `v`.
fn contains_string(v: &Vec<String>, key: &str) -> (r: bool)
    ensures
        r == views(v@).contains(key@),
{
    let k = key.to_owned();
    let mut i: usize = 0;
    while i < v.len()
        invariant
            i <= v@.len(),
            k@ == key@,
            forall|m: int| 0 <= m < i ==> views(v@)[m] != key@,
        decreases v@.len() - i,
    {
        if v[i] == k {
            assert(views(v@)[i as int] == key@);
            return true;
        }
        i = i + 1;
    }
    false
}

/// The index of the last payload stored under `key`, if any.
fn last_payload_index(ps: &Vec<StoredPayload>, key: &str) -> (r: Option<usize>)
    ensures
        match r {
            Some(j) => j < ps@.len() && payload_map(payload_views(ps@)).contains_key(key@)
                && payload_map(payload_views(ps@))[key@] == ps@[j as int]@,
            None => !payload_map(payload_views(ps@)).contains_key(key@),
        },
{
    let ghost s = payload_views(ps@);
    let k = key.to_owned();
    let mut j: usize = ps.len();
    while j > 0
        invariant
            s == payload_views(ps@),
            j <= ps@.len(),
            k@ == key@,
            forall|m: int| j <= m < s.len() ==> (#[trigger] s[m]).payload_ref != key@,
        decreases j,
    {
        if ps[j - 1].payload_ref == k {
            proof {
                lemma_payload_map_last(s, key@, j - 1);
            }
            return Some(j - 1);
        }
        j = j - 1;
    }
    proof {
        lemma_payload_map_absent(s, key@);
    }
    None
}


} // verus!

verus! {

/// What a read gives back of a write: after `put(b)`, the store holds `b`
/// under its id, and every other bundle is unchanged.
pub proof fn law_put_then_get(store: Map<Seq<char>, BundleView>, b: BundleView, other: Seq<char>)
    ensures
        store.insert(b.context_bundle_id, b).contains_key(b.context_bundle_id),
        store.insert(b.context_bundle_id, b)[b.context_bundle_id] == b,
        other != b.context_bundle_id ==> (store.insert(b.context_bundle_id, b).contains_key(other)
            == store.contains_key(other) && (store.contains_key(other) ==> store.insert(
            b.context_bundle_id,
            b,
        )[other] == store[other])),
{
}

/// Scope policy: a payload is served only for a ref in the bundle's
/// admitted inventory, and then it is the payload stored under that ref.
pub open spec fn served(store: Map<Seq<char>, BundleView>, bundle_id: Seq<char>, payload_ref: Seq<char>) -> Option<StoredPayloadView> {
    if store.contains_key(bundle_id) && store[bundle_id].payload_refs.contains(payload_ref)
        && store[bundle_id].payloads.contains_key(payload_ref) {
        Some(store[bundle_id].payloads[payload_ref])
    } else {
        None
    }
}

/// A bundle just stored serves exactly its admitted refs that carry a payload,
/// whatever else the store held.
pub proof fn law_put_then_serve(store: Map<Seq<char>, BundleView>, b: BundleView, payload_ref: Seq<char>)
    ensures
        served(store.insert(b.context_bundle_id, b), b.context_bundle_id, payload_ref) == (if b.payload_refs.contains(payload_ref) && b.payloads.contains_key(payload_ref) {
            Some(b.payloads[payload_ref])
        } else {
            None
        }),
{
}

} // verus!
