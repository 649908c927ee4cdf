//! Locales and their cells: each locale has an ordered list of cells (the
//! first has the highest priority), and each cell its upstream URLs.

use crate::ingest_router::config::CellConfig;
use crate::support::strmap::StrMap;
use indexmap::IndexMap;
use vstd::prelude::*;

verus! {

/// The upstream URLs of a cell.
#[derive(Debug, PartialEq, Eq)]
pub struct Upstream {
    /// Relay URL, for relay endpoints.
    pub relay_url: String,
    /// Sentry URL, for Sentry API endpoints.
    pub sentry_url: String,
}

impl Clone for Upstream {
    fn clone(&self) -> (u: Self)
        ensures
            u == *self,
    {
        Upstream { relay_url: self.relay_url.clone(), sentry_url: self.sentry_url.clone() }
    }
}

impl Upstream {
    pub fn from(config: CellConfig) -> (u: Self)
        ensures
            u.relay_url == config.relay_url,
            u.sentry_url == config.sentry_url,
    {
        Upstream { relay_url: config.relay_url, sentry_url: config.sentry_url }
    }
}

#[verifier::external_type_specification]
#[verifier::external_body]
#[verifier::reject_recursive_types(K)]
#[verifier::reject_recursive_types(V)]
#[verifier::reject_recursive_types(S)]
pub struct ExIndexMap<K, V, S>(indexmap::IndexMap<K, V, S>);

/// The entries of a map from cell names to upstreams, in the map's order.
pub uninterp spec fn cell_entries(m: IndexMap<String, Upstream>) -> Seq<(Seq<char>, Upstream)>;

/// The names of a sequence of entries, in order.
pub open spec fn entry_names(e: Seq<(Seq<char>, Upstream)>) -> Seq<Seq<char>> {
    e.map_values(|x: (Seq<char>, Upstream)| x.0)
}

/// The value of each name, taken from its first entry.
pub open spec fn upstreams_in(e: Seq<(Seq<char>, Upstream)>) -> Map<Seq<char>, Upstream> {
    Map::new(
        |k: Seq<char>| entry_names(e).contains(k),
        |k: Seq<char>| e[entry_names(e).index_of(k)].1,
    )
}

/// `IndexMap::new`: an empty map.
#[verifier::external_body]
fn cell_map_new() -> (m: IndexMap<String, Upstream>)
    ensures
        cell_entries(m) == Seq::<(Seq<char>, Upstream)>::empty(),
{
    IndexMap::new()
}

/// `IndexMap::insert`. As its documentation says: where the key is there,
/// it keeps its place and its value is replaced; otherwise the pair goes
/// last.
#[verifier::external_body]
fn cell_map_insert(m: &mut IndexMap<String, Upstream>, key: String, value: Upstream)
    ensures
        entry_names(cell_entries(*old(m))).contains(key@) ==> cell_entries(*final(m)) == cell_entries(
            *old(m),
        ).update(entry_names(cell_entries(*old(m))).index_of(key@), (key@, value)),
        !entry_names(cell_entries(*old(m))).contains(key@) ==> cell_entries(*final(m)) == cell_entries(
            *old(m),
        ).push((key@, value)),
{
    m.insert(key, value);
}

/// `IndexMap::len`.
#[verifier::external_body]
fn cell_map_len(m: &IndexMap<String, Upstream>) -> (n: usize)
    ensures
        n == cell_entries(*m).len(),
{
    m.len()
}

/// Whether a looked-up pair is the given entry.
pub open spec fn shows_entry(r: Option<(&String, &Upstream)>, e: (Seq<char>, Upstream)) -> bool {
    match r {
        Some((k, v)) => k@ == e.0 && *v == e.1,
        None => false,
    }
}

/// `IndexMap::get_index`: the entry at a position.
#[verifier::external_body]
fn cell_map_get_index(m: &IndexMap<String, Upstream>, i: usize) -> (r: Option<(&String, &Upstream)>)
    ensures
        i < cell_entries(*m).len() ==> shows_entry(r, cell_entries(*m)[i as int]),
        i >= cell_entries(*m).len() ==> r is None,
{
    m.get_index(i)
}

/// `IndexMap::get`: the value of the first entry with the key.
#[verifier::external_body]
fn cell_map_get<'a>(m: &'a IndexMap<String, Upstream>, key: &str) -> (r: Option<&'a Upstream>)
    ensures
        entry_names(cell_entries(*m)).contains(key@) ==> r is Some && *r->0 == cell_entries(
            *m,
        )[entry_names(cell_entries(*m)).index_of(key@)].1,
        !entry_names(cell_entries(*m)).contains(key@) ==> r is None,
{
    m.get(key)
}

/// `IndexMap::contains_key`.
#[verifier::external_body]
fn cell_map_contains_key(m: &IndexMap<String, Upstream>, key: &str) -> (b: bool)
    ensures
        b == entry_names(cell_entries(*m)).contains(key@),
{
    m.contains_key(key)
}

/// `IndexMap::clone`: the entries cloned one by one, in order (the clone of
/// an `Upstream` equals it).
#[verifier::external_body]
fn cell_map_clone(m: &IndexMap<String, Upstream>) -> (c: IndexMap<String, Upstream>)
    ensures
        cell_entries(c) == cell_entries(*m),
{
    m.clone()
}

/// The cells of a locale, in priority order.
#[derive(Debug)]
pub struct Cells {
    pub locality: String,
    pub cells: IndexMap<String, Upstream>,
}

impl Clone for Cells {
    fn clone(&self) -> (c: Self)
        ensures
            c.locality == self.locality,
            c.entries() == self.entries(),
    {
        Cells { locality: self.locality.clone(), cells: cell_map_clone(&self.cells) }
    }
}

/// The upstreams of cells listed in order, by cell name: a later entry of
/// the same name replaces the value but keeps the first position.
pub open spec fn upstreams_of(configs: Seq<CellConfig>) -> Map<Seq<char>, Upstream>
    decreases configs.len(),
{
    if configs.len() == 0 {
        Map::empty()
    } else {
        let c = configs.last();
        upstreams_of(configs.drop_last()).insert(
            c.name@,
            Upstream { relay_url: c.relay_url, sentry_url: c.sentry_url },
        )
    }
}

/// The cell names in order of first appearance.
pub open spec fn names_in_order(configs: Seq<CellConfig>) -> Seq<Seq<char>>
    decreases configs.len(),
{
    if configs.len() == 0 {
        Seq::empty()
    } else {
        let prev = names_in_order(configs.drop_last());
        if prev.contains(configs.last().name@) {
            prev
        } else {
            prev.push(configs.last().name@)
        }
    }
}

impl Cells {
    /// The cells with their upstreams, in priority order.
    pub open spec fn entries(&self) -> Seq<(Seq<char>, Upstream)> {
        cell_entries(self.cells)
    }

    /// The cell names, in priority order.
    pub open spec fn cell_order(&self) -> Seq<Seq<char>> {
        entry_names(self.entries())
    }

    /// The upstream of each cell.
    pub open spec fn upstreams(&self) -> Map<Seq<char>, Upstream> {
        upstreams_in(self.entries())
    }

    /// No cell is listed twice.
    pub open spec fn wf(&self) -> bool {
        self.cell_order().no_duplicates()
    }

    /// The cell at a position has the upstream stored beside it.
    pub proof fn lemma_index(&self, i: int)
        requires
            self.wf(),
            0 <= i < self.cell_order().len(),
        ensures
            self.upstreams().contains_key(self.cell_order()[i]),
            self.upstreams()[self.cell_order()[i]] == self.entries()[i].1,
            self.cell_order().index_of(self.cell_order()[i]) == i,
    {
        let k = self.cell_order()[i];
        assert(self.cell_order().contains(k));
        let j = self.cell_order().index_of(k);
        assert(self.cell_order()[j] == k);
    }

    /// Builds the cells of a locality from their configurations, keeping
    /// their order.
    pub fn from_config(locality: String, cell_configs: Vec<CellConfig>) -> (c: Self)
        ensures
            c.wf(),
            c.locality == locality,
            c.upstreams() == upstreams_of(cell_configs@),
            c.cell_order() == names_in_order(cell_configs@),
    {
        let ghost cfgs = cell_configs@;
        let mut cells: IndexMap<String, Upstream> = cell_map_new();
        let mut i: usize = 0;
        assert(cfgs.take(0) =~= Seq::<CellConfig>::empty());
        assert(entry_names(cell_entries(cells)) =~= Seq::<Seq<char>>::empty());
        assert(upstreams_in(cell_entries(cells)) =~= Map::<Seq<char>, Upstream>::empty());
        while i < cell_configs.len()
            invariant
                cfgs == cell_configs@,
                i <= cfgs.len(),
                entry_names(cell_entries(cells)).no_duplicates(),
                upstreams_in(cell_entries(cells)) == upstreams_of(cfgs.take(i as int)),
                entry_names(cell_entries(cells)) == names_in_order(cfgs.take(i as int)),
            decreases cfgs.len() - i,
        {
            let config = cell_configs[i].clone();
            assert(cfgs.take((i + 1) as int).drop_last() =~= cfgs.take(i as int));
            assert(cfgs.take((i + 1) as int).last() == config);
            let ghost before = cell_entries(cells);
            let name = config.name.clone();
            let upstream = Upstream::from(config);
            cell_map_insert(&mut cells, name, upstream);
            proof {
                lemma_insert_entries(before, cell_entries(cells), config.name@, upstream);
            }
            i = i + 1;
        }
        assert(cfgs.take(i as int) =~= cfgs);
        Cells { locality, cells }
    }

    pub fn locality(&self) -> (l: &str)
        ensures
            l@ == self.locality@,
    {
        self.locality.as_str()
    }

    /// The number of cells.
    pub fn len(&self) -> (n: usize)
        ensures
            n == self.cell_order().len(),
    {
        cell_map_len(&self.cells)
    }

    /// The name of the cell at a position.
    pub fn cell_at(&self, i: usize) -> (k: &String)
        requires
            i < self.cell_order().len(),
        ensures
            k@ == self.cell_order()[i as int],
    {
        let entry = cell_map_get_index(&self.cells, i);
        match entry {
            Some((k, _)) => k,
            None => {
                proof {
                    assert(false);
                }
                &self.locality
            },
        }
    }

    /// The cell names, in priority order.
    pub fn cell_list(&self) -> (v: Vec<String>)
        ensures
            v@.len() == self.cell_order().len(),
            forall|i: int| 0 <= i < v@.len() ==> (#[trigger] v@[i])@ == self.cell_order()[i],
    {
        let n = self.len();
        let mut v: Vec<String> = Vec::new();
        let mut i: usize = 0;
        while i < n
            invariant
                n == self.cell_order().len(),
                i <= n,
                v@.len() == i,
                forall|k: int| 0 <= k < i ==> (#[trigger] v@[k])@ == self.cell_order()[k],
            decreases n - i,
        {
            v.push(self.cell_at(i).clone());
            i = i + 1;
        }
        v
    }

    /// The upstream of a cell, if the cell belongs to this locale.
    pub fn get_upstream(&self, cell_id: &str) -> (u: Option<&Upstream>)
        ensures
            match u {
                Some(x) => self.upstreams().contains_key(cell_id@) && *x == self.upstreams()[cell_id@],
                None => !self.upstreams().contains_key(cell_id@),
            },
    {
        cell_map_get(&self.cells, cell_id)
    }

    pub fn contains_cell(&self, cell_id: &str) -> (b: bool)
        ensures
            b == self.upstreams().contains_key(cell_id@),
    {
        cell_map_contains_key(&self.cells, cell_id)
    }
}

/// What an insertion does to the names and upstreams of a map without
/// repeated names.
proof fn lemma_insert_entries(
    before: Seq<(Seq<char>, Upstream)>,
    after: Seq<(Seq<char>, Upstream)>,
    key: Seq<char>,
    value: Upstream,
)
    requires
        entry_names(before).no_duplicates(),
        entry_names(before).contains(key) ==> after == before.update(
            entry_names(before).index_of(key),
            (key, value),
        ),
        !entry_names(before).contains(key) ==> after == before.push((key, value)),
    ensures
        entry_names(after).no_duplicates(),
        entry_names(after) == if entry_names(before).contains(key) {
            entry_names(before)
        } else {
            entry_names(before).push(key)
        },
        upstreams_in(after) == upstreams_in(before).insert(key, value),
{
    let nb = entry_names(before);
    let na = entry_names(after);
    if nb.contains(key) {
        let j = nb.index_of(key);
        assert(na =~= nb);
    } else {
        assert(na =~= nb.push(key));
        assert forall|a: int, b: int| 0 <= a < b < na.len() implies na[a] != na[b] by {
            if b == nb.len() {
                assert(nb.contains(na[a]) ==> na[a] != key);
                assert(nb[a] == na[a]);
            }
        }
    }
    let ma = upstreams_in(after);
    let mb = upstreams_in(before);
    assert forall|k: Seq<char>| na.contains(k) <==> (nb.contains(k) || k == key) by {
        if na.contains(k) {
            let p = na.index_of(k);
            if p < nb.len() && !(nb.contains(key) && p == nb.index_of(key)) {
                assert(nb[p] == na[p]);
            }
        }
        if nb.contains(k) {
            let q = nb.index_of(k);
            assert(nb[q] == k);
            if nb.contains(key) {
                assert(na[q] == nb[q]);
            } else {
                assert(na[q] == nb[q]);
            }
        }
        if k == key && !nb.contains(key) {
            assert(na[nb.len() as int] == key);
        }
    }
    assert forall|k: Seq<char>| #[trigger] ma.contains_key(k) implies ma[k] == mb.insert(key, value)[k] by {
        let p = na.index_of(k);
        assert(na[p] == k);
        if k == key {
            if nb.contains(key) {
                let j = nb.index_of(key);
                assert(nb[j] == key);
                assert(na[j] == key);
                assert(p == j);
            } else {
                assert(na[nb.len() as int] == key);
                assert(p == nb.len());
            }
            assert(after[p].1 == value);
        } else {
            assert(nb.contains(k));
            let q = nb.index_of(k);
            assert(nb[q] == k);
            assert(na[q] == k);
            assert(p == q);
            assert(after[q] == before[q]);
        }
    }
    assert(ma =~= mb.insert(key, value));
}

fn clone_configs(v: &Vec<CellConfig>) -> (r: Vec<CellConfig>)
    ensures
        r@ == v@,
{
    let mut r: Vec<CellConfig> = Vec::new();
    let mut i: usize = 0;
    while i < v.len()
        invariant
            i <= v@.len(),
            r@ == v@.take(i as int),
        decreases v@.len() - i,
    {
        r.push(v[i].clone());
        i = i + 1;
        assert(r@ =~= v@.take(i as int));
    }
    assert(v@.take(i as int) =~= v@);
    r
}

/// The cells of each locale.
pub struct Locales {
    pub locale_to_cells: StrMap<Cells>,
}

impl Locales {
    pub open spec fn wf(&self) -> bool {
        &&& self.locale_to_cells.wf()
        &&& forall|k: Seq<char>| #[trigger] self.locale_to_cells@.contains_key(k) ==> self.locale_to_cells@[k].wf()
    }

    /// Builds the cells of every configured locale.
    pub fn new(locales: StrMap<Vec<CellConfig>>) -> (l: Self)
        requires
            locales.wf(),
        ensures
            l.wf(),
            l.locale_to_cells@.dom() == locales@.dom(),
            forall|k: Seq<char>|
                #[trigger] l.locale_to_cells@.contains_key(k) ==> l.locale_to_cells@[k].locality@ == k
                    && l.locale_to_cells@[k].upstreams() == upstreams_of(locales@[k]@)
                    && l.locale_to_cells@[k].cell_order() == names_in_order(locales@[k]@),
    {
        let mut out: StrMap<Cells> = StrMap::new();
        let n = locales.len();
        let mut i: usize = 0;
        while i < n
            invariant
                n == locales.key_seq().len(),
                locales.wf(),
                i <= n,
                out.wf(),
                out@.dom() == locales.key_seq().take(i as int).to_set(),
                forall|k: Seq<char>| #[trigger] out@.contains_key(k) ==> out@[k].wf(),
                forall|k: Seq<char>|
                    #[trigger] out@.contains_key(k) ==> out@[k].locality@ == k && out@[k].upstreams()
                        == upstreams_of(locales@[k]@) && out@[k].cell_order() == names_in_order(
                        locales@[k]@,
                    ),
            decreases n - i,
        {
            let locale = locales.key_at(i);
            proof {
                locales.lemma_index(i as int);
            }
            let cells = Cells::from_config(locale.clone(), clone_configs(locales.value_at(i)));
            out.insert(locale.clone(), cells);
            proof {
                broadcast use vstd::seq_lib::lemma_seq_contains_after_push;
                let t = locales.key_seq().take(i as int);
                assert(locales.key_seq().take(i + 1) =~= t.push(locale@));
                assert forall|q: Seq<char>| t.push(locale@).contains(q) <==> (t.contains(q) || q == locale@) by {
                    if t.push(locale@).contains(q) && q != locale@ {
                        let j = choose|j: int| 0 <= j < t.push(locale@).len() && t.push(locale@)[j] == q;
                        assert(t[j] == q);
                    }
                }
                assert(out@.dom() =~= t.push(locale@).to_set());
            }
            i = i + 1;
        }
        proof {
            locales.lemma_dom();
            assert(locales.key_seq().take(n as int) =~= locales.key_seq());
        }
        Locales { locale_to_cells: out }
    }

    /// The cells of a locale, if it is configured.
    pub fn get_cells(&self, locale: &str) -> (c: Option<Cells>)
        requires
            self.wf(),
        ensures
            match c {
                Some(x) => self.locale_to_cells@.contains_key(locale@) && x.wf()
                    && x.locality == self.locale_to_cells@[locale@].locality
                    && x.upstreams() == self.locale_to_cells@[locale@].upstreams()
                    && x.cell_order() == self.locale_to_cells@[locale@].cell_order(),
                None => !self.locale_to_cells@.contains_key(locale@),
            },
    {
        match self.locale_to_cells.get(locale) {
            Some(c) => Some(c.clone()),
            None => None,
        }
    }
}

} // verus!
