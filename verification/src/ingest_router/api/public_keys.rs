//! The relay public keys endpoint: the request goes to every cell and the
//! answers are merged key by key.

use crate::ingest_router::handler::{
    first_success_outcome, lemma_first_success_outcome_stable, CellId, CellOutcome, ExecutionMode,
};
use crate::ingest_router::locale::Cells;
use crate::support::strmap::StrMap;
use vstd::prelude::*;

verus! {

/// Status returned when the merged answer is incomplete or no cell answered.
pub const BAD_GATEWAY: u16 = 502;

/// What a cell knows of one relay.
#[derive(Debug, PartialEq, Eq)]
pub struct RelayInfo {
    pub public_key: String,
    pub internal: bool,
}

/// Body of a public keys request.
#[derive(Debug, PartialEq, Eq)]
pub struct PublicKeysRequest {
    pub relay_ids: Vec<String>,
}

/// Body of a public keys answer: for each relay id, its key and its
/// information, `None` where unknown.
#[derive(Debug, PartialEq, Eq)]
pub struct PublicKeysResponse {
    pub public_keys: StrMap<Option<String>>,
    pub relays: StrMap<Option<RelayInfo>>,
}

impl PublicKeysResponse {
    pub open spec fn wf(&self) -> bool {
        self.public_keys.wf() && self.relays.wf()
    }
}

/// What the split step hands to the merge step.
pub struct PublicKeysMetadata {
    pub requested_relay_ids: Vec<String>,
}

/// Handler for `POST /api/0/relays/publickeys/`.
pub struct PublicKeysHandler;

/// The ids as character sequences.
pub open spec fn ids_view(ids: Seq<String>) -> Seq<Seq<char>> {
    ids.map_values(|s: String| s@)
}

/// Every requested id, mapped to `None`.
pub open spec fn unset_for<V>(ids: Seq<Seq<char>>) -> Map<Seq<char>, Option<V>> {
    Map::new(|k: Seq<char>| ids.contains(k), |k: Seq<char>| None)
}

/// One entry of an answer taken into the merged map: it is set when the
/// key is new or the value is known, so a `None` never hides a value.
pub open spec fn keep_or_set<V>(acc: Map<Seq<char>, Option<V>>, k: Seq<char>, v: Option<V>) -> Map<
    Seq<char>,
    Option<V>,
> {
    if !acc.contains_key(k) || v is Some {
        acc.insert(k, v)
    } else {
        acc
    }
}

/// The first `n` entries of an answer taken into the merged map in order.
pub open spec fn merge_entries<V>(
    acc: Map<Seq<char>, Option<V>>,
    keys: Seq<Seq<char>>,
    vals: Seq<Option<V>>,
    n: nat,
) -> Map<Seq<char>, Option<V>>
    decreases n,
{
    if n == 0 {
        acc
    } else {
        keep_or_set(merge_entries(acc, keys, vals, (n - 1) as nat), keys[n - 1], vals[n - 1])
    }
}

/// An answer that adds nothing: a failed request, another status than 2xx,
/// or a body that could not be read.
pub open spec fn outcome_failed(o: CellOutcome<PublicKeysResponse>) -> bool {
    !(o matches CellOutcome::Success(Some(_)))
}

pub open spec fn any_failed(outs: Seq<CellOutcome<PublicKeysResponse>>) -> bool
    decreases outs.len(),
{
    if outs.len() == 0 {
        false
    } else {
        any_failed(outs.drop_last()) || outcome_failed(outs.last())
    }
}

/// The public keys of all readable answers merged in order over `init`.
pub open spec fn merged_public_keys(
    init: Map<Seq<char>, Option<String>>,
    outs: Seq<CellOutcome<PublicKeysResponse>>,
) -> Map<Seq<char>, Option<String>>
    decreases outs.len(),
{
    if outs.len() == 0 {
        init
    } else {
        let acc = merged_public_keys(init, outs.drop_last());
        match outs.last() {
            CellOutcome::Success(Some(r)) => merge_entries(
                acc,
                r.public_keys.key_seq(),
                r.public_keys.val_seq(),
                r.public_keys.key_seq().len(),
            ),
            _ => acc,
        }
    }
}

/// The relay information of all readable answers merged in order over `init`.
pub open spec fn merged_relays(
    init: Map<Seq<char>, Option<RelayInfo>>,
    outs: Seq<CellOutcome<PublicKeysResponse>>,
) -> Map<Seq<char>, Option<RelayInfo>>
    decreases outs.len(),
{
    if outs.len() == 0 {
        init
    } else {
        let acc = merged_relays(init, outs.drop_last());
        match outs.last() {
            CellOutcome::Success(Some(r)) => merge_entries(
                acc,
                r.relays.key_seq(),
                r.relays.val_seq(),
                r.relays.key_seq().len(),
            ),
            _ => acc,
        }
    }
}

/// Whether every requested id has a known key and known information.
pub open spec fn all_present(
    pk: Map<Seq<char>, Option<String>>,
    rl: Map<Seq<char>, Option<RelayInfo>>,
    ids: Seq<Seq<char>>,
) -> bool {
    forall|i: int|
        0 <= i < ids.len() ==> {
            &&& pk.contains_key(#[trigger] ids[i])
            &&& pk[ids[i]] is Some
            &&& rl.contains_key(ids[i])
            &&& rl[ids[i]] is Some
        }
}

/// The merged key map of a set of answers.
pub open spec fn public_keys_of(ids: Seq<String>, outs: Seq<CellOutcome<PublicKeysResponse>>) -> Map<
    Seq<char>,
    Option<String>,
> {
    merged_public_keys(unset_for(ids_view(ids)), outs)
}

/// The merged relay map of a set of answers.
pub open spec fn relays_of(ids: Seq<String>, outs: Seq<CellOutcome<PublicKeysResponse>>) -> Map<
    Seq<char>,
    Option<RelayInfo>,
> {
    merged_relays(unset_for(ids_view(ids)), outs)
}

/// Whether the merge answers with an error: some answer failed and the
/// merged maps miss a requested value, or no cell succeeded at all.
pub open spec fn merge_refused(ids: Seq<String>, outs: Seq<CellOutcome<PublicKeysResponse>>) -> bool {
    ||| (any_failed(outs) && !all_present(public_keys_of(ids, outs), relays_of(ids, outs), ids_view(ids)))
    ||| first_success_outcome(outs) is None
}

/// A map holding `None` for each of the ids.
fn unset_map<V>(ids: &Vec<String>) -> (m: StrMap<Option<V>>)
    ensures
        m.wf(),
        m@ == unset_for::<V>(ids_view(ids@)),
{
    let mut m: StrMap<Option<V>> = StrMap::new();
    let mut i: usize = 0;
    let ghost iv = ids_view(ids@);
    assert(iv.take(0) =~= Seq::<Seq<char>>::empty());
    assert(m@ =~= unset_for::<V>(iv.take(0)));
    while i < ids.len()
        invariant
            i <= ids@.len(),
            iv == ids_view(ids@),
            m.wf(),
            m@ == unset_for::<V>(iv.take(i as int)),
        decreases ids@.len() - i,
    {
        let ghost before = m@;
        m.insert(ids[i].clone(), None);
        proof {
            let t = iv.take(i as int);
            assert(iv.take(i + 1) =~= t.push(iv[i as int]));
            assert forall|q: Seq<char>| #[trigger] t.push(iv[i as int]).contains(q) <==> (t.contains(q) || q
                == iv[i as int]) by {
                if t.push(iv[i as int]).contains(q) && q != iv[i as int] {
                    let j = choose|j: int|
                        0 <= j < t.push(iv[i as int]).len() && t.push(iv[i as int])[j] == q;
                    assert(t[j] == q);
                }
                if t.contains(q) {
                    let j = choose|j: int| 0 <= j < t.len() && t[j] == q;
                    assert(t.push(iv[i as int])[j] == q);
                }
                if q == iv[i as int] {
                    assert(t.push(iv[i as int])[t.len() as int] == q);
                }
            }
            assert(m@ =~= unset_for::<V>(iv.take(i + 1)));
        }
        i = i + 1;
    }
    assert(iv.take(ids@.len() as int) =~= iv);
    m
}

/// Takes every entry of `src` into `acc` by the rule of `keep_or_set`.
fn merge_into<V>(acc: &mut StrMap<Option<V>>, src: StrMap<Option<V>>)
    requires
        old(acc).wf(),
    ensures
        final(acc).wf(),
        final(acc)@ == merge_entries(old(acc)@, src.key_seq(), src.val_seq(), src.key_seq().len()),
{
    let ghost ks = src.key_seq();
    let ghost vs = src.val_seq();
    proof {
        src.lemma_shape();
    }
    let mut rest = src.into_entries();
    let total = rest.len();
    let ghost n = total as nat;
    let ghost start = acc@;
    let mut i: usize = 0;
    while rest.len() > 0
        invariant
            n == ks.len(),
            n <= usize::MAX,
            ks.len() == vs.len(),
            i <= n,
            rest@.len() == n - i,
            forall|j: int|
                0 <= j < rest@.len() ==> (#[trigger] rest@[j]).0@ == ks[i + j] && rest@[j].1 == vs[i
                    + j],
            acc.wf(),
            acc@ == merge_entries(start, ks, vs, i as nat),
        decreases rest@.len(),
    {
        let (k, v) = rest.remove(0);
        let present = acc.contains_key(k.as_str());
        if !present || v.is_some() {
            acc.insert(k, v);
        }
        i = i + 1;
    }
}

impl PublicKeysHandler {
    pub fn name(&self) -> (n: &'static str)
        ensures
            n@ == "PublicKeysHandler"@,
    {
        "PublicKeysHandler"
    }

    /// All cells are asked at once.
    pub fn execution_mode(&self) -> (m: ExecutionMode)
        ensures
            m == ExecutionMode::Parallel,
    {
        ExecutionMode::Parallel
    }

    /// The request goes to every cell; the merge step is told which relay
    /// ids were asked for.
    pub fn split_request(&self, request: PublicKeysRequest, cells: &Cells) -> (r: (
        Vec<CellId>,
        PublicKeysMetadata,
    ))
        ensures
            r.0@.len() == cells.cell_order().len(),
            forall|i: int| 0 <= i < r.0@.len() ==> (#[trigger] r.0@[i])@ == cells.cell_order()[i],
            r.1.requested_relay_ids@ == request.relay_ids@,
    {
        (cells.cell_list(), PublicKeysMetadata { requested_relay_ids: request.relay_ids })
    }

    /// Merges the answers of all cells. Each requested id starts as
    /// unknown; the entries of each readable answer are taken in order, a
    /// known value always replacing an unknown one. The result is an error
    /// when some cell failed and a requested id is still missing a value,
    /// or when no cell succeeded; otherwise it is the position of the first
    /// successful answer (whose headers are reused) and the merged body.
    pub fn merge_responses(
        &self,
        responses: Vec<CellOutcome<PublicKeysResponse>>,
        metadata: PublicKeysMetadata,
    ) -> (r: Result<(usize, PublicKeysResponse), u16>)
        ensures
            match r {
                Ok((i, body)) => {
                    &&& !merge_refused(metadata.requested_relay_ids@, responses@)
                    &&& first_success_outcome(responses@) == Some(i as int)
                    &&& body.wf()
                    &&& body.public_keys@ == public_keys_of(metadata.requested_relay_ids@, responses@)
                    &&& body.relays@ == relays_of(metadata.requested_relay_ids@, responses@)
                },
                Err(s) => s == BAD_GATEWAY && merge_refused(
                    metadata.requested_relay_ids@,
                    responses@,
                ),
            },
    {
        let ids = metadata.requested_relay_ids;
        let ghost idv = ids_view(ids@);
        let ghost outs = responses@;
        let mut public_keys: StrMap<Option<String>> = unset_map(&ids);
        let mut relays: StrMap<Option<RelayInfo>> = unset_map(&ids);
        let ghost pk0 = public_keys@;
        let ghost rl0 = relays@;
        let mut has_failed = false;
        let mut first: Option<usize> = None;
        let mut rest = responses;
        let total = rest.len();
        let mut i: usize = 0;
        assert(outs.take(0) =~= Seq::<CellOutcome<PublicKeysResponse>>::empty());
        assert(outs.skip(0) =~= outs);
        while rest.len() > 0
            invariant
                i <= outs.len(),
                outs.len() <= usize::MAX,
                rest@ == outs.skip(i as int),
                public_keys.wf(),
                relays.wf(),
                public_keys@ == merged_public_keys(pk0, outs.take(i as int)),
                relays@ == merged_relays(rl0, outs.take(i as int)),
                has_failed == any_failed(outs.take(i as int)),
                match first {
                    Some(j) => first_success_outcome(outs.take(i as int)) == Some(j as int),
                    None => first_success_outcome(outs.take(i as int)) is None,
                },
            decreases rest@.len(),
        {
            let o = rest.remove(0);
            proof {
                assert(outs.take(i + 1).drop_last() =~= outs.take(i as int));
                assert(outs.take(i + 1).last() == outs[i as int]);
                assert(rest@ =~= outs.skip(i + 1));
            }
            match o {
                CellOutcome::Success(body) => {
                    if first.is_none() {
                        first = Some(i);
                    } else {
                        proof {
                            lemma_first_success_outcome_stable(outs, i as int, i + 1);
                        }
                    }
                    match body {
                        Some(b) => {
                            merge_into(&mut public_keys, b.public_keys);
                            merge_into(&mut relays, b.relays);
                        },
                        None => {
                            has_failed = true;
                        },
                    }
                },
                _ => {
                    has_failed = true;
                    proof {
                        if first.is_some() {
                            lemma_first_success_outcome_stable(outs, i as int, i + 1);
                        }
                    }
                },
            }
            i = i + 1;
        }
        proof {
            assert(outs.take(i as int) =~= outs);
        }
        if has_failed {
            let mut j: usize = 0;
            while j < ids.len()
                invariant
                    j <= ids@.len(),
                    idv == ids_view(ids@),
                    ids@ == metadata.requested_relay_ids@,
                    outs == responses@,
                    any_failed(outs),
                    public_keys@ == public_keys_of(ids@, outs),
                    relays@ == relays_of(ids@, outs),
                    public_keys.wf(),
                    relays.wf(),
                    forall|m: int|
                        0 <= m < j ==> {
                            &&& public_keys@.contains_key(#[trigger] idv[m])
                            &&& public_keys@[idv[m]] is Some
                            &&& relays@.contains_key(idv[m])
                            &&& relays@[idv[m]] is Some
                        },
                decreases ids@.len() - j,
            {
                let known = match (public_keys.get(ids[j].as_str()), relays.get(ids[j].as_str())) {
                    (Some(Some(_)), Some(Some(_))) => true,
                    _ => false,
                };
                if !known {
                    assert(!all_present(public_keys@, relays@, idv)) by {
                        assert(idv[j as int] == ids@[j as int]@);
                    }
                    return Err(BAD_GATEWAY);
                }
                j = j + 1;
            }
        }
        match first {
            Some(f) => Ok((f, PublicKeysResponse { public_keys, relays })),
            None => Err(BAD_GATEWAY),
        }
    }
}

/// Merging entries never drops a key, and never turns a known value
/// into an unknown one.
pub proof fn lemma_merge_entries_keeps<V>(acc: Map<Seq<char>, Option<V>>, keys: Seq<Seq<char>>, vals: Seq<Option<V>>, n: nat, k: Seq<char>)
    requires
        acc.contains_key(k),
    ensures
        merge_entries(acc, keys, vals, n).contains_key(k),
        acc[k] is Some ==> merge_entries(acc, keys, vals, n)[k] is Some,
    decreases n,
{
    if n > 0 {
        lemma_merge_entries_keeps(acc, keys, vals, (n - 1) as nat, k);
    }
}

/// An entry with a known value leaves the key known.
pub proof fn lemma_merge_entries_sets<V>(acc: Map<Seq<char>, Option<V>>, keys: Seq<Seq<char>>, vals: Seq<Option<V>>, n: nat, m: int)
    requires
        0 <= m < n,
        vals[m] is Some,
    ensures
        merge_entries(acc, keys, vals, n).contains_key(keys[m]),
        merge_entries(acc, keys, vals, n)[keys[m]] is Some,
    decreases n,
{
    if m == n - 1 {
    } else {
        lemma_merge_entries_sets(acc, keys, vals, (n - 1) as nat, m);
        lemma_merge_entries_keeps(merge_entries(acc, keys, vals, (n - 1) as nat), seq![keys[n - 1]], seq![vals[n - 1]], 1, keys[m]);
    }
}

proof fn lemma_merged_keys_keep(init: Map<Seq<char>, Option<String>>, outs: Seq<CellOutcome<PublicKeysResponse>>, k: Seq<char>)
    requires
        init.contains_key(k),
    ensures
        merged_public_keys(init, outs).contains_key(k),
        init[k] is Some ==> merged_public_keys(init, outs)[k] is Some,
    decreases outs.len(),
{
    if outs.len() > 0 {
        lemma_merged_keys_keep(init, outs.drop_last(), k);
        match outs.last() {
            CellOutcome::Success(Some(r)) => {
                lemma_merge_entries_keeps(merged_public_keys(init, outs.drop_last()), r.public_keys.key_seq(), r.public_keys.val_seq(), r.public_keys.key_seq().len(), k);
            },
            _ => {},
        }
    }
}

proof fn lemma_merged_relays_keep(init: Map<Seq<char>, Option<RelayInfo>>, outs: Seq<CellOutcome<PublicKeysResponse>>, k: Seq<char>)
    requires
        init.contains_key(k),
    ensures
        merged_relays(init, outs).contains_key(k),
        init[k] is Some ==> merged_relays(init, outs)[k] is Some,
    decreases outs.len(),
{
    if outs.len() > 0 {
        lemma_merged_relays_keep(init, outs.drop_last(), k);
        match outs.last() {
            CellOutcome::Success(Some(r)) => {
                lemma_merge_entries_keeps(merged_relays(init, outs.drop_last()), r.relays.key_seq(), r.relays.val_seq(), r.relays.key_seq().len(), k);
            },
            _ => {},
        }
    }
}

/// Every requested relay id is answered, with a value or as unknown.
pub proof fn law_requested_ids_answered(ids: Seq<String>, outs: Seq<CellOutcome<PublicKeysResponse>>, i: int)
    requires
        0 <= i < ids.len(),
    ensures
        public_keys_of(ids, outs).contains_key(ids[i]@),
        relays_of(ids, outs).contains_key(ids[i]@),
{
    assert(ids_view(ids)[i] == ids[i]@);
    assert(unset_for::<String>(ids_view(ids)).contains_key(ids[i]@));
    assert(unset_for::<RelayInfo>(ids_view(ids)).contains_key(ids[i]@));
    lemma_merged_keys_keep(unset_for(ids_view(ids)), outs, ids[i]@);
    lemma_merged_relays_keep(unset_for(ids_view(ids)), outs, ids[i]@);
}

/// A known key is never hidden: once a readable answer gives a relay's
/// key, the merged answer has a key for that relay, whatever the other
/// cells say.
pub proof fn law_known_key_is_kept(ids: Seq<String>, outs: Seq<CellOutcome<PublicKeysResponse>>, j: int, k: Seq<char>)
    requires
        0 <= j < outs.len(),
        outs[j] matches CellOutcome::Success(Some(r)) && r.wf() && r.public_keys@.contains_key(k) && r.public_keys@[k] is Some,
    ensures
        public_keys_of(ids, outs).contains_key(k),
        public_keys_of(ids, outs)[k] is Some,
    decreases outs.len(),
{
    if j < outs.len() - 1 {
        assert(outs.drop_last()[j] == outs[j]);
        law_known_key_is_kept(ids, outs.drop_last(), j, k);
        match outs.last() {
            CellOutcome::Success(Some(r2)) => {
                lemma_merge_entries_keeps(merged_public_keys(unset_for(ids_view(ids)), outs.drop_last()), r2.public_keys.key_seq(), r2.public_keys.val_seq(), r2.public_keys.key_seq().len(), k);
            },
            _ => {},
        }
    } else {
        match outs[j] {
            CellOutcome::Success(Some(r)) => {
                let m = r.public_keys.key_seq().index_of(k);
                assert(r.public_keys.key_seq().contains(k));
                r.public_keys.lemma_index(m);
                r.public_keys.lemma_shape();
                lemma_merge_entries_sets(merged_public_keys(unset_for(ids_view(ids)), outs.drop_last()), r.public_keys.key_seq(), r.public_keys.val_seq(), r.public_keys.key_seq().len(), m);
            },
            _ => {},
        }
    }
}

} // verus!
