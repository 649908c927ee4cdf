//! Configuration of the ingest router and its validation.

use crate::support::strmap::StrMap;
use vstd::prelude::*;

verus! {

/// Why a configuration is invalid.
#[derive(Debug, PartialEq, Eq)]
pub enum ValidationError {
    InvalidPort,
    UnknownLocale(String),
    DuplicateUpstream(String),
    EmptyUpstreamName,
    EmptyLocale,
    LocaleHasNoValidCells(String),
}

pub enum ValidationErrorView {
    InvalidPort,
    UnknownLocale(Seq<char>),
    DuplicateUpstream(Seq<char>),
    EmptyUpstreamName,
    EmptyLocale,
    LocaleHasNoValidCells(Seq<char>),
}

impl ValidationError {
    pub open spec fn view(&self) -> ValidationErrorView {
        match self {
            ValidationError::InvalidPort => ValidationErrorView::InvalidPort,
            ValidationError::UnknownLocale(s) => ValidationErrorView::UnknownLocale(s@),
            ValidationError::DuplicateUpstream(s) => ValidationErrorView::DuplicateUpstream(s@),
            ValidationError::EmptyUpstreamName => ValidationErrorView::EmptyUpstreamName,
            ValidationError::EmptyLocale => ValidationErrorView::EmptyLocale,
            ValidationError::LocaleHasNoValidCells(s) => ValidationErrorView::LocaleHasNoValidCells(s@),
        }
    }
}

pub open spec fn unit_result(r: Result<(), ValidationError>) -> Option<ValidationErrorView> {
    match r {
        Ok(_) => None,
        Err(e) => Some(e@),
    }
}

/// HTTP methods routes can match on.
#[derive(Debug, PartialEq, Eq, Clone, Copy)]
pub enum HttpMethod {
    Get,
    Post,
    Put,
    Delete,
}

impl HttpMethod {
    /// The method's name as it appears in requests.
    pub open spec fn name(&self) -> Seq<char> {
        match self {
            HttpMethod::Get => "GET"@,
            HttpMethod::Post => "POST"@,
            HttpMethod::Put => "PUT"@,
            HttpMethod::Delete => "DELETE"@,
        }
    }

    /// Whether a request's method (by name) is this method.
    pub fn matches_method(&self, method: &str) -> (b: bool)
        ensures
            b == (method@ == self.name()),
    {
        let m = method.to_owned();
        match self {
            HttpMethod::Get => m == "GET".to_owned(),
            HttpMethod::Post => m == "POST".to_owned(),
            HttpMethod::Put => m == "PUT".to_owned(),
            HttpMethod::Delete => m == "DELETE".to_owned(),
        }
    }
}

/// Arguments of the relay project configs handler.
#[derive(Debug, PartialEq, Eq)]
pub struct RelayProjectConfigsArgs {
    /// Locale the requests are routed to.
    pub locale: String,
}

/// The handler a route sends requests to.
#[derive(Debug, PartialEq, Eq)]
pub enum HandlerAction {
    /// Merges project configs from the cells of a locale.
    RelayProjectConfigs(RelayProjectConfigsArgs),
}

/// Whether `s` is among the names in `v`.
pub open spec fn names_contain(v: Seq<String>, s: Seq<char>) -> bool {
    exists|i: int| 0 <= i < v.len() && (#[trigger] v[i])@ == s
}

fn contains_name(v: &Vec<String>, s: &String) -> (b: bool)
    ensures
        b == names_contain(v@, s@),
{
    let mut i: usize = 0;
    while i < v.len()
        invariant
            i <= v@.len(),
            forall|k: int| 0 <= k < i ==> (#[trigger] v@[k])@ != s@,
        decreases v@.len() - i,
    {
        if v[i] == *s {
            return true;
        }
        i = i + 1;
    }
    false
}

impl HandlerAction {
    pub open spec fn locale(&self) -> Seq<char> {
        match self {
            HandlerAction::RelayProjectConfigs(args) => args.locale@,
        }
    }

    /// The action must name a configured locale.
    pub fn validate(&self, valid_locales: &Vec<String>) -> (r: Result<(), ValidationError>)
        ensures
            unit_result(r) == (if names_contain(valid_locales@, self.locale()) {
                None
            } else {
                Some(ValidationErrorView::UnknownLocale(self.locale()))
            }),
    {
        match self {
            HandlerAction::RelayProjectConfigs(args) => {
                if !contains_name(valid_locales, &args.locale) {
                    return Err(ValidationError::UnknownLocale(args.locale.clone()));
                }
                Ok(())
            },
        }
    }
}

/// A cell of a locale: its name and its two upstream URLs.
#[derive(Debug, PartialEq, Eq)]
pub struct CellConfig {
    pub name: String,
    pub sentry_url: String,
    pub relay_url: String,
}

impl Clone for CellConfig {
    fn clone(&self) -> (c: Self)
        ensures
            c == *self,
    {
        CellConfig {
            name: self.name.clone(),
            sentry_url: self.sentry_url.clone(),
            relay_url: self.relay_url.clone(),
        }
    }
}

/// Main listener.
#[derive(Debug, PartialEq, Eq)]
pub struct Listener {
    pub host: String,
    pub port: u16,
}

impl Default for Listener {
    fn default() -> (l: Self)
        ensures
            l.host@ == "0.0.0.0"@,
            l.port == 3000,
    {
        Listener { host: "0.0.0.0".to_owned(), port: 3000 }
    }
}

impl Listener {
    /// The port must not be 0.
    pub fn validate(&self) -> (r: Result<(), ValidationError>)
        ensures
            unit_result(r) == (if self.port == 0 {
                Some(ValidationErrorView::InvalidPort)
            } else {
                None
            }),
    {
        if self.port == 0 {
            return Err(ValidationError::InvalidPort);
        }
        Ok(())
    }
}

/// Admin listener.
#[derive(Debug, PartialEq, Eq)]
pub struct AdminListener {
    pub host: String,
    pub port: u16,
}

impl Default for AdminListener {
    fn default() -> (l: Self)
        ensures
            l.host@ == "0.0.0.0"@,
            l.port == 3001,
    {
        AdminListener { host: "0.0.0.0".to_owned(), port: 3001 }
    }
}

impl AdminListener {
    /// The port must not be 0.
    pub fn validate(&self) -> (r: Result<(), ValidationError>)
        ensures
            unit_result(r) == (if self.port == 0 {
                Some(ValidationErrorView::InvalidPort)
            } else {
                None
            }),
    {
        if self.port == 0 {
            return Err(ValidationError::InvalidPort);
        }
        Ok(())
    }
}

/// A routing rule.
#[derive(Debug, PartialEq, Eq)]
pub struct Route {
    pub route_match: Match,
    pub action: HandlerAction,
}

/// Match conditions of a route; each one is checked only when present.
#[derive(Debug, PartialEq, Eq)]
pub struct Match {
    /// Host, compared without its port.
    pub host: Option<String>,
    /// Exact path.
    pub path: Option<String>,
    pub method: Option<HttpMethod>,
}

/// Timeouts of the requests to the cells, in seconds: of one HTTP
/// request, of the wait for the first answer, and of the wait for the
/// others once one has come.
#[derive(Debug, PartialEq, Eq, Clone, Copy)]
pub struct RelayTimeouts {
    pub http_timeout_secs: u64,
    pub task_initial_timeout_secs: u64,
    pub task_subsequent_timeout_secs: u64,
}

/// Router configuration. The cells of a locale are listed in priority
/// order: the first has the highest priority.
#[derive(Debug, PartialEq, Eq)]
pub struct Config {
    pub listener: Listener,
    pub admin_listener: AdminListener,
    pub locales: StrMap<Vec<CellConfig>>,
    pub routes: Vec<Route>,
}

/// The error of the cell at `i`, given that the cells before it are fine:
/// an empty name, or a name already used by an earlier cell.
pub open spec fn cell_error(cells: Seq<CellConfig>, i: int) -> Option<ValidationErrorView> {
    if cells[i].name@.len() == 0 {
        Some(ValidationErrorView::EmptyUpstreamName)
    } else if exists|j: int| 0 <= j < i && (#[trigger] cells[j]).name@ == cells[i].name@ {
        Some(ValidationErrorView::DuplicateUpstream(cells[i].name@))
    } else {
        None
    }
}

/// The first error among the first `n` cells.
pub open spec fn first_cell_error(cells: Seq<CellConfig>, n: int) -> Option<ValidationErrorView>
    decreases n,
{
    if n <= 0 {
        None
    } else {
        match first_cell_error(cells, n - 1) {
            Some(e) => Some(e),
            None => cell_error(cells, n - 1),
        }
    }
}

/// The error of a locale: no cells, or the first error among its cells.
pub open spec fn locale_error(locale: Seq<char>, cells: Seq<CellConfig>) -> Option<ValidationErrorView> {
    if cells.len() == 0 {
        Some(ValidationErrorView::LocaleHasNoValidCells(locale))
    } else {
        first_cell_error(cells, cells.len() as int)
    }
}

/// The first error among the first `n` locales, in the map's key order.
pub open spec fn first_locale_error(locales: StrMap<Vec<CellConfig>>, n: int) -> Option<ValidationErrorView>
    decreases n,
{
    if n <= 0 {
        None
    } else {
        match first_locale_error(locales, n - 1) {
            Some(e) => Some(e),
            None => locale_error(locales.key_seq()[n - 1], locales.val_seq()[n - 1]@),
        }
    }
}

/// The first route among the first `n` whose locale is not configured.
pub open spec fn first_route_error(routes: Seq<Route>, locales: Set<Seq<char>>, n: int) -> Option<ValidationErrorView>
    decreases n,
{
    if n <= 0 {
        None
    } else {
        match first_route_error(routes, locales, n - 1) {
            Some(e) => Some(e),
            None => if locales.contains(routes[n - 1].action.locale()) {
                None
            } else {
                Some(ValidationErrorView::UnknownLocale(routes[n - 1].action.locale()))
            },
        }
    }
}

/// The error `Config::validate` reports, if any: listeners first, then
/// locales in key order, then routes in order.
pub open spec fn config_error(c: Config) -> Option<ValidationErrorView> {
    if c.listener.port == 0 || c.admin_listener.port == 0 {
        Some(ValidationErrorView::InvalidPort)
    } else {
        match first_locale_error(c.locales, c.locales.key_seq().len() as int) {
            Some(e) => Some(e),
            None => first_route_error(c.routes@, c.locales@.dom(), c.routes@.len() as int),
        }
    }
}

proof fn lemma_first_cell_error_stable(cells: Seq<CellConfig>, m: int, n: int)
    requires
        0 <= m <= n,
        first_cell_error(cells, m) is Some,
    ensures
        first_cell_error(cells, n) == first_cell_error(cells, m),
    decreases n - m,
{
    if m < n {
        lemma_first_cell_error_stable(cells, m, n - 1);
    }
}

proof fn lemma_first_locale_error_stable(l: StrMap<Vec<CellConfig>>, m: int, n: int)
    requires
        0 <= m <= n,
        first_locale_error(l, m) is Some,
    ensures
        first_locale_error(l, n) == first_locale_error(l, m),
    decreases n - m,
{
    if m < n {
        lemma_first_locale_error_stable(l, m, n - 1);
    }
}

proof fn lemma_first_route_error_stable(routes: Seq<Route>, locales: Set<Seq<char>>, m: int, n: int)
    requires
        0 <= m <= n,
        first_route_error(routes, locales, m) is Some,
    ensures
        first_route_error(routes, locales, n) == first_route_error(routes, locales, m),
    decreases n - m,
{
    if m < n {
        lemma_first_route_error_stable(routes, locales, m, n - 1);
    }
}

#[verifier::loop_isolation(false)]
fn validate_cells(locale: &String, cells: &Vec<CellConfig>) -> (r: Result<(), ValidationError>)
    ensures
        unit_result(r) == locale_error(locale@, cells@),
{
    if cells.len() == 0 {
        return Err(ValidationError::LocaleHasNoValidCells(locale.clone()));
    }
    let mut seen: Vec<String> = Vec::new();
    let mut i: usize = 0;
    while i < cells.len()
        invariant
            i <= cells@.len(),
            seen@.len() == i,
            forall|k: int| 0 <= k < i ==> (#[trigger] seen@[k])@ == cells@[k].name@,
            first_cell_error(cells@, i as int) is None,
        decreases cells@.len() - i,
    {
        let name = &cells[i].name;
        if name.as_str().is_empty() {
            assert(name@.len() == 0);
            proof {
                lemma_first_cell_error_stable(cells@, i + 1, cells@.len() as int);
            }
            return Err(ValidationError::EmptyUpstreamName);
        }
        if contains_name(&seen, name) {
            let ghost j = choose|j: int| 0 <= j < seen@.len() && (#[trigger] seen@[j])@ == name@;
            assert(cells@[j].name@ == cells@[i as int].name@);
            proof {
                lemma_first_cell_error_stable(cells@, i + 1, cells@.len() as int);
            }
            return Err(ValidationError::DuplicateUpstream(name.clone()));
        }
        assert(!exists|j: int| 0 <= j < i && (#[trigger] cells@[j]).name@ == cells@[i as int].name@) by {
            if exists|j: int| 0 <= j < i && (#[trigger] cells@[j]).name@ == cells@[i as int].name@ {
                let j = choose|j: int| 0 <= j < i && (#[trigger] cells@[j]).name@ == cells@[i as int].name@;
                assert(seen@[j]@ == name@);
            }
        }
        seen.push(name.clone());
        i = i + 1;
    }
    Ok(())
}

impl Config {
    /// Validates the configuration: listener ports, that each locale has
    /// cells with non-empty, distinct names, and that each route names a
    /// configured locale. The first error found is reported.
    #[verifier::loop_isolation(false)]
    pub fn validate(&self) -> (r: Result<(), ValidationError>)
        requires
            self.locales.wf(),
        ensures
            unit_result(r) == config_error(*self),
    {
        self.listener.validate()?;
        self.admin_listener.validate()?;
        let n = self.locales.len();
        let mut i: usize = 0;
        while i < n
            invariant
                n == self.locales.key_seq().len(),
                i <= n,
                first_locale_error(self.locales, i as int) is None,
            decreases n - i,
        {
            proof {
                self.locales.lemma_shape();
            }
            let res = validate_cells(self.locales.key_at(i), self.locales.value_at(i));
            if res.is_err() {
                proof {
                    lemma_first_locale_error_stable(self.locales, i + 1, n as int);
                }
                return res;
            }
            i = i + 1;
        }
        let mut valid_locales: Vec<String> = Vec::new();
        let mut k: usize = 0;
        while k < n
            invariant
                n == self.locales.key_seq().len(),
                k <= n,
                valid_locales@.len() == k,
                forall|j: int| 0 <= j < k ==> (#[trigger] valid_locales@[j])@ == self.locales.key_seq()[j],
            decreases n - k,
        {
            valid_locales.push(self.locales.key_at(k).clone());
            k = k + 1;
        }
        proof {
            self.locales.lemma_dom();
            assert forall|l: Seq<char>| names_contain(valid_locales@, l) <==> self.locales@.dom().contains(l) by {
                if names_contain(valid_locales@, l) {
                    let j = choose|j: int| 0 <= j < valid_locales@.len() && (#[trigger] valid_locales@[j])@ == l;
                    assert(self.locales.key_seq().contains(l)) by {
                        assert(self.locales.key_seq()[j] == l);
                    }
                }
                if self.locales@.dom().contains(l) {
                    let j = self.locales.key_seq().index_of(l);
                    assert(valid_locales@[j]@ == l);
                }
            }
        }
        let mut r: usize = 0;
        while r < self.routes.len()
            invariant
                r <= self.routes@.len(),
                first_route_error(self.routes@, self.locales@.dom(), r as int) is None,
                forall|l: Seq<char>| names_contain(valid_locales@, l) <==> self.locales@.dom().contains(l),
            decreases self.routes@.len() - r,
        {
            let res = self.routes[r].action.validate(&valid_locales);
            if res.is_err() {
                proof {
                    lemma_first_route_error_stable(self.routes@, self.locales@.dom(), r + 1, self.routes@.len() as int);
                }
                return res;
            }
            r = r + 1;
        }
        Ok(())
    }
}

/// A configuration that validates has listeners on real ports, only
/// non-empty locales whose cells have non-empty, distinct names, and only
/// routes to configured locales.
pub proof fn law_valid_config(c: Config)
    requires
        config_error(c) is None,
        c.locales.wf(),
    ensures
        c.listener.port != 0,
        c.admin_listener.port != 0,
        forall|i: int|
            0 <= i < c.locales.key_seq().len() ==> locale_error(
                c.locales.key_seq()[i],
                #[trigger] c.locales.val_seq()[i]@,
            ) is None,
        forall|i: int| 0 <= i < c.routes@.len() ==> c.locales@.dom().contains((#[trigger] c.routes@[i]).action.locale()),
{
    assert forall|i: int| 0 <= i < c.locales.key_seq().len() implies locale_error(
        c.locales.key_seq()[i],
        #[trigger] c.locales.val_seq()[i]@,
    ) is None by {
        lemma_first_locale_prefix(c.locales, c.locales.key_seq().len() as int, i + 1);
    }
    assert forall|i: int| 0 <= i < c.routes@.len() implies c.locales@.dom().contains(
        (#[trigger] c.routes@[i]).action.locale(),
    ) by {
        lemma_first_route_prefix(c.routes@, c.locales@.dom(), c.routes@.len() as int, i + 1);
    }
}

proof fn lemma_first_locale_prefix(l: StrMap<Vec<CellConfig>>, n: int, m: int)
    requires
        0 <= m <= n,
        first_locale_error(l, n) is None,
    ensures
        first_locale_error(l, m) is None,
        m > 0 ==> locale_error(l.key_seq()[m - 1], l.val_seq()[m - 1]@) is None,
    decreases n - m,
{
    if m < n {
        lemma_first_locale_prefix(l, n, m + 1);
    }
}

proof fn lemma_first_route_prefix(routes: Seq<Route>, locales: Set<Seq<char>>, n: int, m: int)
    requires
        0 <= m <= n,
        first_route_error(routes, locales, n) is None,
    ensures
        first_route_error(routes, locales, m) is None,
        m > 0 ==> locales.contains(routes[m - 1].action.locale()),
    decreases n - m,
{
    if m < n {
        lemma_first_route_prefix(routes, locales, n, m + 1);
    }
}

} // verus!
