//! Assembly of a parameterized history query from optional filters.

use crate::chrome_time::{day_number, from_date, micros_of_day, Date};
use crate::decimal::{digit, natural_text, parse_positive, positive_value, push_natural};
use chrono::Datelike;
use vstd::prelude::*;

verus! {

/// The selection that every query starts from.
pub const BASE_QUERY: &'static str = "SELECT url, title, visit_count, last_visit_time FROM urls WHERE 1=1";

/// The ordering that every query ends with: most recent visit first.
pub const ORDER_CLAUSE: &'static str = " ORDER BY last_visit_time DESC";

/// What joins each predicate to the query.
pub const AND_SEPARATOR: &'static str = " AND ";

pub const DATE_BETWEEN: &'static str = "last_visit_time BETWEEN ? AND ?";

pub const DATE_FROM: &'static str = "last_visit_time >= ?";

pub const DATE_BEFORE: &'static str = "last_visit_time < ?";

pub const TITLE_LIKE: &'static str = "title LIKE ?";

pub const URL_LIKE: &'static str = "url LIKE ?";

pub const LIMIT_PREFIX: &'static str = " LIMIT ";

/// A value bound to one placeholder of a query.
#[derive(Debug)]
pub enum Param {
    Int64(i64),
    Text(String),
}

/// The mathematical value of a `Param`.
pub enum ParamValue {
    Int64(int),
    Text(Seq<char>),
}

impl View for Param {
    type V = ParamValue;

    open spec fn view(&self) -> ParamValue {
        match self {
            Param::Int64(n) => ParamValue::Int64(*n as int),
            Param::Text(s) => ParamValue::Text(s@),
        }
    }
}

/// The state of a `QueryBuilder`: the predicates, the values bound to their
/// placeholders, and the limit clause.
pub struct BuilderView {
    pub conditions: Seq<Seq<char>>,
    pub params: Seq<ParamValue>,
    pub limit: Option<Seq<char>>,
}

/// Builds a query from filters added one by one.
pub struct QueryBuilder {
    conditions: Vec<String>,
    params: Vec<Param>,
    limit: Option<String>,
}

pub open spec fn opt_view(s: Option<&str>) -> Option<Seq<char>> {
    match s {
        Some(t) => Some(t@),
        None => None,
    }
}

/// What chrono's `%Y-%m-%d` parser makes of a text: year, month and day.
pub uninterp spec fn parsed_ymd(s: Seq<char>) -> Option<(int, int, int)>;

pub open spec fn date_fields(d: Option<Date>) -> Option<(int, int, int)> {
    match d {
        Some(d) => Some((d.year as int, d.month as int, d.day as int)),
        None => None,
    }
}

/// The timestamp of midnight of the date that an optional text names, if it
/// names one.
pub open spec fn date_bound(s: Option<Seq<char>>) -> Option<int> {
    match s {
        Some(t) => match parsed_ymd(t) {
            Some((y, m, d)) => Some(micros_of_day(day_number(y, m, d))),
            None => None,
        },
        None => None,
    }
}

/// The pattern that matches texts holding `t`.
pub open spec fn like_pattern(t: Seq<char>) -> Seq<char> {
    seq!['%'] + t + seq!['%']
}

pub open spec fn add_condition_spec(
    v: BuilderView,
    c: Seq<char>,
    ps: Seq<ParamValue>,
) -> BuilderView {
    BuilderView { conditions: v.conditions.push(c), params: v.params + ps, limit: v.limit }
}

pub open spec fn with_date_range(
    v: BuilderView,
    start: Option<Seq<char>>,
    end: Option<Seq<char>>,
) -> BuilderView {
    match (date_bound(start), date_bound(end)) {
        (Some(s), Some(e)) => add_condition_spec(
            v,
            DATE_BETWEEN@,
            seq![ParamValue::Int64(s), ParamValue::Int64(e)],
        ),
        (Some(s), None) => add_condition_spec(v, DATE_FROM@, seq![ParamValue::Int64(s)]),
        (None, Some(e)) => add_condition_spec(v, DATE_BEFORE@, seq![ParamValue::Int64(e)]),
        (None, None) => v,
    }
}

pub open spec fn with_title(v: BuilderView, search: Option<Seq<char>>) -> BuilderView {
    match search {
        Some(t) if t.len() > 0 => add_condition_spec(v, TITLE_LIKE@, seq![ParamValue::Text(like_pattern(t))]),
        _ => v,
    }
}

pub open spec fn with_url(v: BuilderView, url: Option<Seq<char>>) -> BuilderView {
    match url {
        Some(t) if t.len() > 0 => add_condition_spec(v, URL_LIKE@, seq![ParamValue::Text(like_pattern(t))]),
        _ => v,
    }
}

pub open spec fn with_limit(v: BuilderView, limit: Option<Seq<char>>) -> BuilderView {
    match limit {
        Some(t) => match positive_value(t) {
            Some(n) => BuilderView { limit: Some(LIMIT_PREFIX@ + natural_text(n)), ..v },
            None => v,
        },
        None => v,
    }
}

/// The predicates, each preceded by the separator.
pub open spec fn joined(cs: Seq<Seq<char>>) -> Seq<char>
    decreases cs.len(),
{
    if cs.len() == 0 {
        Seq::empty()
    } else {
        joined(cs.drop_last()) + AND_SEPARATOR@ + cs.last()
    }
}

/// The query text that a builder in state `v` produces.
pub open spec fn query_text(v: BuilderView) -> Seq<char> {
    let tail = match v.limit {
        Some(l) => l,
        None => Seq::empty(),
    };
    BASE_QUERY@ + joined(v.conditions) + ORDER_CLAUSE@ + tail
}

pub open spec fn empty_builder() -> BuilderView {
    BuilderView { conditions: Seq::empty(), params: Seq::empty(), limit: None }
}

/// The number of placeholders `?` in a text.
pub open spec fn placeholders(s: Seq<char>) -> nat
    decreases s.len(),
{
    if s.len() == 0 {
        0
    } else {
        placeholders(s.drop_last()) + if s.last() == '?' { 1nat } else { 0 }
    }
}

pub proof fn lemma_placeholders_concat(a: Seq<char>, b: Seq<char>)
    ensures
        placeholders(a + b) == placeholders(a) + placeholders(b),
    decreases b.len(),
{
    if b.len() > 0 {
        lemma_placeholders_concat(a, b.drop_last());
        assert((a + b).drop_last() =~= a + b.drop_last());
    } else {
        assert(a + b =~= a);
    }
}

proof fn lemma_no_placeholders(s: Seq<char>)
    requires
        forall|i: int| 0 <= i < s.len() ==> s[i] != '?',
    ensures
        placeholders(s) == 0,
    decreases s.len(),
{
    if s.len() > 0 {
        lemma_no_placeholders(s.drop_last());
    }
}

proof fn lemma_one_placeholder(s: Seq<char>, k: int)
    requires
        0 <= k < s.len(),
        s[k] == '?',
        forall|i: int| 0 <= i < s.len() && i != k ==> s[i] != '?',
    ensures
        placeholders(s) == 1,
{
    let a = s.subrange(0, k);
    let b = s.subrange(k + 1, s.len() as int);
    assert(s =~= a + seq!['?'] + b);
    lemma_no_placeholders(a);
    lemma_no_placeholders(b);
    lemma_placeholders_concat(a, seq!['?']);
    lemma_placeholders_concat(a + seq!['?'], b);
    assert(placeholders(seq!['?']) == 1) by {
        assert(seq!['?'].drop_last() =~= Seq::<char>::empty());
        assert(placeholders(Seq::<char>::empty()) == 0);
    }
}

/// How many placeholders each fixed piece of query text holds.
proof fn lemma_fixed_texts()
    ensures
        placeholders(BASE_QUERY@) == 0,
        placeholders(ORDER_CLAUSE@) == 0,
        placeholders(AND_SEPARATOR@) == 0,
        placeholders(LIMIT_PREFIX@) == 0,
        placeholders(DATE_BETWEEN@) == 2,
        placeholders(DATE_FROM@) == 1,
        placeholders(DATE_BEFORE@) == 1,
        placeholders(TITLE_LIKE@) == 1,
        placeholders(URL_LIKE@) == 1,
{
    reveal_strlit("SELECT url, title, visit_count, last_visit_time FROM urls WHERE 1=1");
    reveal_strlit(" ORDER BY last_visit_time DESC");
    reveal_strlit(" AND ");
    reveal_strlit(" LIMIT ");
    reveal_strlit("last_visit_time BETWEEN ? AND ?");
    reveal_strlit("last_visit_time >= ?");
    reveal_strlit("last_visit_time < ?");
    reveal_strlit("title LIKE ?");
    reveal_strlit("url LIKE ?");
    lemma_no_placeholders(BASE_QUERY@);
    lemma_no_placeholders(ORDER_CLAUSE@);
    lemma_no_placeholders(AND_SEPARATOR@);
    lemma_no_placeholders(LIMIT_PREFIX@);
    let s = DATE_BETWEEN@;
    let a = s.subrange(0, 25);
    let b = s.subrange(25, 31);
    assert(s =~= a + b);
    lemma_one_placeholder(a, 24);
    lemma_one_placeholder(b, 5);
    lemma_placeholders_concat(a, b);
    lemma_one_placeholder(DATE_FROM@, 19);
    lemma_one_placeholder(DATE_BEFORE@, 18);
    lemma_one_placeholder(TITLE_LIKE@, 11);
    lemma_one_placeholder(URL_LIKE@, 9);
}

/// Each predicate of the builder holds one placeholder per parameter.
pub open spec fn aligned(v: BuilderView) -> bool {
    placeholders(joined(v.conditions)) == v.params.len()
}

proof fn lemma_add_condition_aligned(v: BuilderView, c: Seq<char>, ps: Seq<ParamValue>)
    requires
        aligned(v),
        placeholders(c) == ps.len(),
    ensures
        aligned(add_condition_spec(v, c, ps)),
{
    lemma_fixed_texts();
    let cs = v.conditions.push(c);
    assert(cs.drop_last() =~= v.conditions);
    lemma_placeholders_concat(joined(v.conditions), AND_SEPARATOR@);
    lemma_placeholders_concat(joined(v.conditions) + AND_SEPARATOR@, c);
}

/// The values bound by a date range, in the order of their placeholders.
pub open spec fn date_params(start: Option<Seq<char>>, end: Option<Seq<char>>) -> Seq<
    ParamValue,
> {
    match (date_bound(start), date_bound(end)) {
        (Some(s), Some(e)) => seq![ParamValue::Int64(s), ParamValue::Int64(e)],
        (Some(s), None) => seq![ParamValue::Int64(s)],
        (None, Some(e)) => seq![ParamValue::Int64(e)],
        (None, None) => Seq::empty(),
    }
}

/// The value bound by a substring search, if one is given.
pub open spec fn search_params(t: Option<Seq<char>>) -> Seq<ParamValue> {
    match t {
        Some(t) if t.len() > 0 => seq![ParamValue::Text(like_pattern(t))],
        _ => Seq::empty(),
    }
}

/// A new builder given a date range, a title search, a URL search and a
/// limit, in this order.
pub open spec fn filtered_builder(
    start: Option<Seq<char>>,
    end: Option<Seq<char>>,
    title: Option<Seq<char>>,
    url: Option<Seq<char>>,
    limit: Option<Seq<char>>,
) -> BuilderView {
    with_limit(with_url(with_title(with_date_range(empty_builder(), start, end), title), url), limit)
}

proof fn lemma_natural_text_no_placeholders(n: nat)
    ensures
        placeholders(natural_text(n)) == 0,
    decreases n,
{
    if n >= 10 {
        lemma_natural_text_no_placeholders(n / 10);
        lemma_placeholders_concat(natural_text(n / 10), seq![digit((n % 10) as int)]);
        lemma_no_placeholders(seq![digit((n % 10) as int)]);
    } else {
        lemma_no_placeholders(natural_text(n));
    }
}

/// Each filter, applied to any builder in any order, keeps every predicate
/// paired with its own parameters; the query built from such a builder
/// holds exactly as many placeholders as there are parameters.
pub proof fn lemma_filters_keep_alignment(
    v: BuilderView,
    start: Option<Seq<char>>,
    end: Option<Seq<char>>,
    search: Option<Seq<char>>,
    limit: Option<Seq<char>>,
)
    requires
        aligned(v),
    ensures
        aligned(with_date_range(v, start, end)),
        aligned(with_title(v, search)),
        aligned(with_url(v, search)),
        aligned(with_limit(v, limit)),
        (v.limit matches Some(l) ==> placeholders(l) == 0) ==> placeholders(query_text(v))
            == v.params.len(),
{
    lemma_fixed_texts();
    match (date_bound(start), date_bound(end)) {
        (Some(s), Some(e)) => lemma_add_condition_aligned(
            v,
            DATE_BETWEEN@,
            seq![ParamValue::Int64(s), ParamValue::Int64(e)],
        ),
        (Some(s), None) => lemma_add_condition_aligned(v, DATE_FROM@, seq![ParamValue::Int64(s)]),
        (None, Some(e)) => lemma_add_condition_aligned(
            v,
            DATE_BEFORE@,
            seq![ParamValue::Int64(e)],
        ),
        (None, None) => {},
    }
    if let Some(t) = search {
        lemma_add_condition_aligned(v, TITLE_LIKE@, seq![ParamValue::Text(like_pattern(t))]);
        lemma_add_condition_aligned(v, URL_LIKE@, seq![ParamValue::Text(like_pattern(t))]);
    }
    let tail = match v.limit {
        Some(l) => l,
        None => Seq::empty(),
    };
    if v.limit is None {
        assert(placeholders(tail) == 0);
    }
    lemma_placeholders_concat(BASE_QUERY@, joined(v.conditions));
    lemma_placeholders_concat(BASE_QUERY@ + joined(v.conditions), ORDER_CLAUSE@);
    lemma_placeholders_concat(BASE_QUERY@ + joined(v.conditions) + ORDER_CLAUSE@, tail);
}

/// The limit clause is never a placeholder of its own: whatever limit text
/// is given, the clause that it sets holds none.
pub proof fn lemma_limit_clause_has_no_placeholder(v: BuilderView, limit: Option<Seq<char>>)
    requires
        v.limit is None,
    ensures
        with_limit(v, limit).limit matches Some(l) ==> placeholders(l) == 0,
{
    lemma_fixed_texts();
    if let Some(t) = limit {
        if let Some(n) = positive_value(t) {
            lemma_natural_text_no_placeholders(n);
            lemma_placeholders_concat(LIMIT_PREFIX@, natural_text(n));
        }
    }
}

/// Setting the limit commutes with each of the other filters.
pub proof fn lemma_limit_commutes(
    v: BuilderView,
    start: Option<Seq<char>>,
    end: Option<Seq<char>>,
    search: Option<Seq<char>>,
    limit: Option<Seq<char>>,
)
    ensures
        with_limit(with_date_range(v, start, end), limit) == with_date_range(
            with_limit(v, limit),
            start,
            end,
        ),
        with_limit(with_title(v, search), limit) == with_title(with_limit(v, limit), search),
        with_limit(with_url(v, search), limit) == with_url(with_limit(v, limit), search),
{
}

/// Whatever filters are given, the built query holds exactly as many
/// placeholders as there are parameters, and the parameters come in the
/// order of their placeholders: the date bounds, then the title pattern,
/// then the URL pattern.
pub proof fn lemma_placeholders_match_params(
    start: Option<Seq<char>>,
    end: Option<Seq<char>>,
    title: Option<Seq<char>>,
    url: Option<Seq<char>>,
    limit: Option<Seq<char>>,
)
    ensures
        placeholders(query_text(filtered_builder(start, end, title, url, limit)))
            == filtered_builder(start, end, title, url, limit).params.len(),
        filtered_builder(start, end, title, url, limit).params == date_params(start, end)
            + search_params(title) + search_params(url),
{
    let v0 = empty_builder();
    assert(aligned(v0));
    let v1 = with_date_range(v0, start, end);
    lemma_filters_keep_alignment(v0, start, end, title, limit);
    assert(v1.params =~= date_params(start, end));
    let v2 = with_title(v1, title);
    lemma_filters_keep_alignment(v1, start, end, title, limit);
    assert(v2.params =~= date_params(start, end) + search_params(title));
    let v3 = with_url(v2, url);
    lemma_filters_keep_alignment(v2, start, end, url, limit);
    assert(v3.params =~= date_params(start, end) + search_params(title) + search_params(url));
    assert(v3.limit is None);
    let v4 = with_limit(v3, limit);
    lemma_filters_keep_alignment(v3, start, end, url, limit);
    lemma_limit_clause_has_no_placeholder(v3, limit);
    lemma_filters_keep_alignment(v4, start, end, url, limit);
}

/// A date text that names no date sets the same bound as no text at all, on
/// either side of the range.
pub proof fn lemma_unparsable_date_ignored(
    v: BuilderView,
    start: Option<Seq<char>>,
    end: Option<Seq<char>>,
)
    ensures
        start matches Some(t) && parsed_ymd(t) is None ==> with_date_range(v, start, end)
            == with_date_range(v, None, end),
        end matches Some(t) && parsed_ymd(t) is None ==> with_date_range(v, start, end)
            == with_date_range(v, start, None),
{
}

/// Relies on chrono's `NaiveDate::parse_from_str` with the format
/// `%Y-%m-%d`: a date that it parses is a valid date.
#[verifier::external_body]
fn parse_ymd(s: &str) -> (r: Option<Date>)
    ensures
        date_fields(r) == parsed_ymd(s@),
        r matches Some(d) ==> d.wf(),
{
    match chrono::NaiveDate::parse_from_str(s, "%Y-%m-%d") {
        Ok(d) => Some(Date { year: d.year(), month: d.month(), day: d.day() }),
        Err(_) => None,
    }
}

/// The date that a `YYYY-MM-DD` text names, if it names one.
pub fn parse_date(s: &str) -> (r: Option<Date>)
    ensures
        date_fields(r) == parsed_ymd(s@),
        r matches Some(d) ==> d.wf(),
{
    parse_ymd(s)
}

/// The timestamp of midnight of the date that `s` names, if it names one.
fn chrome_date(s: Option<&str>) -> (r: Option<i64>)
    ensures
        match r {
            Some(n) => date_bound(opt_view(s)) == Some(n as int),
            None => date_bound(opt_view(s)) is None,
        },
{
    match s {
        Some(t) => match parse_date(t) {
            Some(d) => Some(from_date(d)),
            None => None,
        },
        None => None,
    }
}

/// The text `%t%`.
fn like_text(t: &str) -> (r: String)
    ensures
        r@ == like_pattern(t@),
{
    let mut r = String::from_str("%");
    r.append(t);
    r.append("%");
    proof {
        reveal_strlit("%");
    }
    r
}

impl View for QueryBuilder {
    type V = BuilderView;

    closed spec fn view(&self) -> BuilderView {
        BuilderView {
            conditions: self.conditions@.map_values(|c: String| c@),
            params: self.params@.map_values(|p: Param| p@),
            limit: match self.limit {
                Some(l) => Some(l@),
                None => None,
            },
        }
    }
}

impl QueryBuilder {
    /// A builder with no filter and no limit.
    pub fn new() -> (r: Self)
        ensures
            r@ == empty_builder(),
    {
        let r = QueryBuilder { conditions: Vec::new(), params: Vec::new(), limit: None };
        assert(r@.conditions =~= Seq::<Seq<char>>::empty());
        assert(r@.params =~= Seq::<ParamValue>::empty());
        r
    }

    fn add_condition(&mut self, condition: &str, params: Vec<Param>)
        ensures
            final(self)@ == add_condition_spec(old(self)@, condition@, params@.map_values(
                |p: Param| p@,
            )),
    {
        let ghost before = self@;
        self.conditions.push(String::from_str(condition));
        let mut params = params;
        let ghost added = params@;
        self.params.append(&mut params);
        assert(self@.conditions =~= before.conditions.push(condition@));
        assert(self@.params =~= before.params + added.map_values(|p: Param| p@));
    }

    /// Adds a bound on the last-visit time for each side whose text names
    /// a date: between both, from the start on, or before the end. A side
    /// whose text is absent or names no date sets no bound.
    pub fn date_range(self, start: Option<&str>, end: Option<&str>) -> (r: Self)
        ensures
            r@ == with_date_range(self@, opt_view(start), opt_view(end)),
    {
        let mut b = self;
        match (chrome_date(start), chrome_date(end)) {
            (Some(start_ts), Some(end_ts)) => {
                let ps = vec![Param::Int64(start_ts), Param::Int64(end_ts)];
                assert(ps@.map_values(|p: Param| p@) =~= seq![
                    ParamValue::Int64(start_ts as int),
                    ParamValue::Int64(end_ts as int),
                ]);
                b.add_condition(DATE_BETWEEN, ps);
            },
            (Some(start_ts), None) => {
                let ps = vec![Param::Int64(start_ts)];
                assert(ps@.map_values(|p: Param| p@) =~= seq![ParamValue::Int64(start_ts as int)]);
                b.add_condition(DATE_FROM, ps);
            },
            (None, Some(end_ts)) => {
                let ps = vec![Param::Int64(end_ts)];
                assert(ps@.map_values(|p: Param| p@) =~= seq![ParamValue::Int64(end_ts as int)]);
                b.add_condition(DATE_BEFORE, ps);
            },
            (None, None) => {},
        }
        b
    }

    /// Keeps the rows whose title holds `search`, if it is given and not
    /// empty.
    pub fn title_search(self, search: Option<&str>) -> (r: Self)
        ensures
            r@ == with_title(self@, opt_view(search)),
    {
        let mut b = self;
        if let Some(term) = search {
            if term.unicode_len() > 0 {
                let ps = vec![Param::Text(like_text(term))];
                assert(ps@.map_values(|p: Param| p@) =~= seq![ParamValue::Text(like_pattern(term@))]);
                b.add_condition(TITLE_LIKE, ps);
            }
        }
        b
    }

    /// Keeps the rows whose URL holds `url`, if it is given and not empty.
    pub fn url_search(self, url: Option<&str>) -> (r: Self)
        ensures
            r@ == with_url(self@, opt_view(url)),
    {
        let mut b = self;
        if let Some(term) = url {
            if term.unicode_len() > 0 {
                let ps = vec![Param::Text(like_text(term))];
                assert(ps@.map_values(|p: Param| p@) =~= seq![ParamValue::Text(like_pattern(term@))]);
                b.add_condition(URL_LIKE, ps);
            }
        }
        b
    }

    /// Sets the limit clause ` LIMIT <n>` when `limit` is the decimal text of
    /// a positive number `n` that fits in an `i64`. Any other text sets no
    /// clause, so that no text of the caller's enters the query.
    pub fn limit(self, limit: Option<&str>) -> (r: Self)
        ensures
            r@ == with_limit(self@, opt_view(limit)),
    {
        let mut b = self;
        if let Some(term) = limit {
            if let Some(n) = parse_positive(term) {
                let mut clause = String::from_str(LIMIT_PREFIX);
                push_natural(&mut clause, n);
                b.limit = Some(clause);
            }
        }
        b
    }

    /// The query text and the values of its placeholders, in order.
    pub fn build(self) -> (r: (String, Vec<Param>))
        ensures
            r.0@ == query_text(self@),
            r.1@.map_values(|p: Param| p@) == self@.params,
    {
        let ghost v = self@;
        let mut query = String::from_str(BASE_QUERY);
        let mut i: usize = 0;
        while i < self.conditions.len()
            invariant
                v == self@,
                0 <= i <= self.conditions@.len(),
                query@ == BASE_QUERY@ + joined(v.conditions.subrange(0, i as int)),
            decreases self.conditions@.len() - i,
        {
            query.append(AND_SEPARATOR);
            query.append(self.conditions[i].as_str());
            assert(v.conditions.subrange(0, i + 1).drop_last() =~= v.conditions.subrange(
                0,
                i as int,
            ));
            assert(v.conditions.subrange(0, i + 1).last() == self.conditions@[i as int]@);
            i = i + 1;
        }
        assert(v.conditions.subrange(0, i as int) =~= v.conditions);
        query.append(ORDER_CLAUSE);
        match &self.limit {
            Some(l) => {
                query.append(l.as_str());
            },
            None => {
                assert(query@ + Seq::<char>::empty() =~= query@);
            },
        }
        (query, self.params)
    }
}

} // verus!
