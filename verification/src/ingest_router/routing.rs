//! The routing table: locales to the cells that serve them, cells to
//! their upstream URLs. Built at startup and never changed.

use crate::support::strmap::StrMap;
use vstd::prelude::*;

verus! {

#[verifier::external_type_specification]
#[verifier::external_body]
pub struct ExUrl(url::Url);

/// The URLs of a cell.
#[derive(Debug)]
pub struct CellConfig {
    pub sentry_url: url::Url,
    pub relay_url: url::Url,
}

/// A cell's upstream: its name and URLs.
#[derive(Debug)]
pub struct UpstreamTarget {
    pub name: String,
    /// For relay endpoints.
    pub relay_url: url::Url,
    /// For Sentry API endpoints.
    pub sentry_url: url::Url,
}

/// The upstream targets of a locale's cells, by cell name.
#[derive(Debug)]
pub struct CellRegistry {
    cells: StrMap<UpstreamTarget>,
}

impl CellRegistry {
    pub closed spec fn view(&self) -> Map<Seq<char>, UpstreamTarget> {
        self.cells@
    }

    pub closed spec fn wf(&self) -> bool {
        self.cells.wf()
    }

    /// A registry with one target per cell, named after it.
    pub fn from_cells(cell_configs: StrMap<CellConfig>) -> (r: Self)
        requires
            cell_configs.wf(),
        ensures
            r.wf(),
            r@.dom() == cell_configs@.dom(),
            forall|k: Seq<char>| #[trigger] r@.contains_key(k) ==> r@[k].name@ == k
                && r@[k].relay_url == cell_configs@[k].relay_url && r@[k].sentry_url == cell_configs@[k].sentry_url,
    {
        let ghost src = cell_configs@;
        let ghost ks = cell_configs.key_seq();
        let ghost vs = cell_configs.val_seq();
        proof {
            cell_configs.lemma_shape();
            cell_configs.lemma_dom();
        }
        let entries = cell_configs.into_entries();
        let total = entries.len();
        let mut rest = entries;
        let mut cells: StrMap<UpstreamTarget> = StrMap::new();
        let mut i: usize = 0;
        while rest.len() > 0
            invariant
                total == ks.len(),
                ks.len() == vs.len(),
                i <= total,
                rest@.len() == total - i,
                forall|j: int| 0 <= j < rest@.len() ==> (#[trigger] rest@[j]).0@ == ks[i + j] && rest@[j].1 == vs[i + j],
                cells.wf(),
                forall|k: Seq<char>| #[trigger] cells@.contains_key(k) <==> ks.take(i as int).contains(k),
                forall|k: Seq<char>| #[trigger] cells@.contains_key(k) ==> cells@[k].name@ == k
                    && cells@[k].relay_url == src[k].relay_url && cells@[k].sentry_url == src[k].sentry_url,
                src == cell_configs@,
                ks == cell_configs.key_seq(),
                vs == cell_configs.val_seq(),
                cell_configs.wf(),
            decreases rest@.len(),
        {
            let (name, config) = rest.remove(0);
            proof {
                cell_configs.lemma_index(i as int);
            }
            let ghost before = cells@;
            let CellConfig { sentry_url, relay_url } = config;
            cells.insert(name.clone(), UpstreamTarget { name, relay_url, sentry_url });
            proof {
                let t = ks.take(i as int);
                assert(ks.take(i + 1) =~= t.push(ks[i as int]));
                assert forall|k: Seq<char>| #[trigger] cells@.contains_key(k) <==> ks.take(i + 1).contains(k) by {
                    if ks.take(i + 1).contains(k) && k != ks[i as int] {
                        let tt = ks.take(i + 1);
                        let j = choose|j: int| 0 <= j < tt.len() && tt[j] == k;
                        assert(t[j] == k);
                    }
                    if t.contains(k) {
                        let j = choose|j: int| 0 <= j < t.len() && t[j] == k;
                        assert(ks.take(i + 1)[j] == k);
                    }
                    if k == ks[i as int] {
                        assert(ks.take(i + 1)[i as int] == k);
                    }
                }
            }
            i = i + 1;
        }
        proof {
            assert(ks.take(i as int) =~= ks);
            assert(cells@.dom() =~= src.dom()) by {
                assert forall|k: Seq<char>| cells@.dom().contains(k) <==> src.dom().contains(k) by {
                    assert(cells@.contains_key(k) <==> ks.contains(k));
                }
            }
        }
        CellRegistry { cells }
    }

    /// The target of a cell.
    pub fn get(&self, cell_name: &str) -> (r: Option<&UpstreamTarget>)
        requires
            self.wf(),
        ensures
            match r {
                Some(t) => self@.contains_key(cell_name@) && *t == self@[cell_name@],
                None => !self@.contains_key(cell_name@),
            },
    {
        self.cells.get(cell_name)
    }

    /// All targets by cell name.
    pub fn cells(&self) -> (m: &StrMap<UpstreamTarget>)
        ensures
            m@ == self@,
            m.wf() == self.wf(),
    {
        &self.cells
    }
}

/// The cell registries of the locales.
#[derive(Debug)]
pub struct RoutingTable {
    locale_to_cells: StrMap<CellRegistry>,
}

impl RoutingTable {
    pub closed spec fn view(&self) -> Map<Seq<char>, CellRegistry> {
        self.locale_to_cells@
    }

    pub closed spec fn wf(&self) -> bool {
        &&& self.locale_to_cells.wf()
        &&& forall|k: Seq<char>| #[trigger] self.locale_to_cells@.contains_key(k) ==> self.locale_to_cells@[k].wf()
    }

    /// A table with a registry per locale.
    pub fn new(locales: StrMap<StrMap<CellConfig>>) -> (r: Self)
        requires
            locales.wf(),
            forall|k: Seq<char>| #[trigger] locales@.contains_key(k) ==> locales@[k].wf(),
        ensures
            r.wf(),
            r@.dom() == locales@.dom(),
            forall|k: Seq<char>| #[trigger] r@.contains_key(k) ==> r@[k]@.dom() == locales@[k]@.dom(),
    {
        let ghost src = locales@;
        let ghost ks = locales.key_seq();
        let ghost vs = locales.val_seq();
        proof {
            locales.lemma_shape();
            locales.lemma_dom();
        }
        let entries = locales.into_entries();
        let total = entries.len();
        let mut rest = entries;
        let mut table: StrMap<CellRegistry> = StrMap::new();
        let mut i: usize = 0;
        while rest.len() > 0
            invariant
                total == ks.len(),
                ks.len() == vs.len(),
                i <= total,
                rest@.len() == total - i,
                forall|j: int| 0 <= j < rest@.len() ==> (#[trigger] rest@[j]).0@ == ks[i + j] && rest@[j].1 == vs[i + j],
                table.wf(),
                forall|k: Seq<char>| #[trigger] table@.contains_key(k) <==> ks.take(i as int).contains(k),
                forall|k: Seq<char>| #[trigger] table@.contains_key(k) ==> table@[k].wf() && table@[k]@.dom() == src[k]@.dom(),
                src == locales@,
                ks == locales.key_seq(),
                vs == locales.val_seq(),
                locales.wf(),
                forall|k: Seq<char>| #[trigger] locales@.contains_key(k) ==> locales@[k].wf(),
            decreases rest@.len(),
        {
            let (name, cells) = rest.remove(0);
            proof {
                locales.lemma_index(i as int);
            }
            let registry = CellRegistry::from_cells(cells);
            table.insert(name, registry);
            proof {
                let t = ks.take(i as int);
                assert(ks.take(i + 1) =~= t.push(ks[i as int]));
                assert forall|k: Seq<char>| #[trigger] table@.contains_key(k) <==> ks.take(i + 1).contains(k) by {
                    if ks.take(i + 1).contains(k) && k != ks[i as int] {
                        let tt = ks.take(i + 1);
                        let j = choose|j: int| 0 <= j < tt.len() && tt[j] == k;
                        assert(t[j] == k);
                    }
                    if t.contains(k) {
                        let j = choose|j: int| 0 <= j < t.len() && t[j] == k;
                        assert(ks.take(i + 1)[j] == k);
                    }
                    if k == ks[i as int] {
                        assert(ks.take(i + 1)[i as int] == k);
                    }
                }
            }
            i = i + 1;
        }
        proof {
            assert(ks.take(i as int) =~= ks);
            assert(table@.dom() =~= src.dom()) by {
                assert forall|k: Seq<char>| table@.dom().contains(k) <==> src.dom().contains(k) by {
                    assert(table@.contains_key(k) <==> ks.contains(k));
                }
            }
        }
        RoutingTable { locale_to_cells: table }
    }

    /// The registry of a locale.
    pub fn get_cell_registry(&self, locale: &str) -> (r: Option<&CellRegistry>)
        requires
            self.wf(),
        ensures
            match r {
                Some(c) => self@.contains_key(locale@) && *c == self@[locale@] && c.wf(),
                None => !self@.contains_key(locale@),
            },
    {
        self.locale_to_cells.get(locale)
    }
}

} // verus!
