//! Query configuration: the region and ressort filters, the timeframe, and
//! the construction of one request URL per queried date.

use vstd::prelude::*;
use vstd::string::StringExecFns;
use crate::dates::{dedup_keep_first, lemma_dedup_membership, DateRange, TDate};
use crate::errors::Error;
use crate::wire::{dec_digits, u64_to_string, wire_format};

verus! {

/// The fixed endpoint every query is addressed to.
pub const BASE_URL: &'static str = "https://www.tagesschau.de/api2u/news";

/// The German federal states usable as a server-side filter.
#[derive(Clone, Copy, PartialEq, Eq, Structural, Debug)]
pub enum Region {
    BadenWuerttemberg,
    Bayern,
    Berlin,
    Brandenburg,
    Bremen,
    Hamburg,
    Hessen,
    MecklenburgVorpommern,
    Niedersachsen,
    NordrheinWestfalen,
    RheinlandPfalz,
    Saarland,
    Sachsen,
    SachsenAnhalt,
    SchleswigHolstein,
    Thueringen,
}

/// The 1-based wire code of a region, following the fixed enumeration order.
pub open spec fn region_code(r: Region) -> int {
    match r {
        Region::BadenWuerttemberg => 1,
        Region::Bayern => 2,
        Region::Berlin => 3,
        Region::Brandenburg => 4,
        Region::Bremen => 5,
        Region::Hamburg => 6,
        Region::Hessen => 7,
        Region::MecklenburgVorpommern => 8,
        Region::Niedersachsen => 9,
        Region::NordrheinWestfalen => 10,
        Region::RheinlandPfalz => 11,
        Region::Saarland => 12,
        Region::Sachsen => 13,
        Region::SachsenAnhalt => 14,
        Region::SchleswigHolstein => 15,
        Region::Thueringen => 16,
    }
}

impl Region {
    /// The 1-based wire code of this region.
    pub fn code(&self) -> (r: u8)
        ensures
            r as int == region_code(*self),
    {
        match self {
            Region::BadenWuerttemberg => 1,
            Region::Bayern => 2,
            Region::Berlin => 3,
            Region::Brandenburg => 4,
            Region::Bremen => 5,
            Region::Hamburg => 6,
            Region::Hessen => 7,
            Region::MecklenburgVorpommern => 8,
            Region::Niedersachsen => 9,
            Region::NordrheinWestfalen => 10,
            Region::RheinlandPfalz => 11,
            Region::Saarland => 12,
            Region::Sachsen => 13,
            Region::SachsenAnhalt => 14,
            Region::SchleswigHolstein => 15,
            Region::Thueringen => 16,
        }
    }
}

/// The available news categories; `Unspecified` selects no category filter.
#[derive(Clone, Copy, PartialEq, Eq, Structural, Debug)]
pub enum Ressort {
    /// No category filter: results of every category are returned.
    Unspecified,
    /// News from Germany.
    Inland,
    /// News from outside of Germany.
    Ausland,
    /// Economic news.
    Wirtschaft,
    /// Sports news.
    Sport,
    /// Videos.
    Video,
    /// Investigative journalism.
    Investigativ,
    /// Background and explanatory news.
    Wissen,
}

/// The canonical lowercase encoding of a ressort; the unspecified ressort
/// encodes to the empty string and is never attached as a parameter.
pub open spec fn ressort_str(r: Ressort) -> Seq<char> {
    match r {
        Ressort::Unspecified => ""@,
        Ressort::Inland => "inland"@,
        Ressort::Ausland => "ausland"@,
        Ressort::Wirtschaft => "wirtschaft"@,
        Ressort::Sport => "sport"@,
        Ressort::Video => "video"@,
        Ressort::Investigativ => "investigativ"@,
        Ressort::Wissen => "wissen"@,
    }
}

impl Ressort {
    /// The canonical lowercase encoding of this ressort.
    pub fn as_str(&self) -> (r: &'static str)
        ensures
            r@ == ressort_str(*self),
    {
        match self {
            Ressort::Unspecified => "",
            Ressort::Inland => "inland",
            Ressort::Ausland => "ausland",
            Ressort::Wirtschaft => "wirtschaft",
            Ressort::Sport => "sport",
            Ressort::Video => "video",
            Ressort::Investigativ => "investigativ",
            Ressort::Wissen => "wissen",
        }
    }
}

/// A timeframe for which the news should be fetched.
#[derive(Clone, Debug)]
pub enum Timeframe {
    /// The current date.
    Now,
    /// A specific singular date.
    Date(TDate),
    /// A range of dates.
    DateRange(DateRange),
}

/// The comma-joined wire codes of a list of regions, every code followed by
/// a comma; the provider tolerates the trailing comma, and it is preserved
/// here as the established form of the parameter.
pub open spec fn regions_str(rs: Seq<Region>) -> Seq<char>
    decreases rs.len(),
{
    if rs.len() == 0 {
        Seq::empty()
    } else {
        regions_str(rs.drop_last()) + dec_digits(region_code(rs.last())) + ","@
    }
}

/// Renders the `regions` parameter value.
fn regions_param(rs: &Vec<Region>) -> (r: String)
    ensures
        r@ == regions_str(rs@),
{
    let mut s = String::new();
    let mut i: usize = 0;
    while i < rs.len()
        invariant
            i <= rs@.len(),
            s@ == regions_str(rs@.take(i as int)),
        decreases rs@.len() - i,
    {
        let code = u64_to_string(rs[i].code() as u64);
        s.append(code.as_str());
        s.append(",");
        proof {
            assert(rs@.take(i + 1).drop_last() =~= rs@.take(i as int));
            assert(rs@.take(i + 1).last() == rs@[i as int]);
            assert(s@ =~= regions_str(rs@.take(i + 1)));
        }
        i += 1;
    }
    proof {
        assert(rs@.take(rs@.len() as int) =~= rs@);
    }
    s
}

/// The views of a list of key/value string pairs.
pub open spec fn pairs_view(s: Seq<(String, String)>) -> Seq<(Seq<char>, Seq<char>)> {
    s.map_values(|p: (String, String)| (p.0@, p.1@))
}

pub uninterp spec fn url_base_ok(base: Seq<char>) -> bool;

pub uninterp spec fn rendered_url(base: Seq<char>, pairs: Seq<(Seq<char>, Seq<char>)>) -> Seq<char>;

/// Relies on `url::Url::parse`, `form_urlencoded::Serializer::append_pair`
/// (reached through `Url::query_pairs_mut`) and `Url`'s string form: whether
/// an absolute URL parses depends on the base text alone, and appending each
/// key/value pair in order and serializing yields one string determined by
/// the base and the pairs.
#[verifier::external_body]
fn render_url(base: &str, pairs: &Vec<(String, String)>) -> (r: Option<String>)
    ensures
        r is Some <==> url_base_ok(base@),
        r matches Some(u) ==> u@ == rendered_url(base@, pairs_view(pairs@)),
{
    let mut url = match url::Url::parse(base) {
        Ok(u) => u,
        Err(_) => return None,
    };
    {
        let mut q = url.query_pairs_mut();
        for p in pairs.iter() {
            q.append_pair(&p.0, &p.1);
        }
    }
    Some(url.to_string())
}

/// The request configuration: a ressort filter, a region filter, and the
/// timeframe whose dates are queried.
#[derive(Clone, Debug)]
pub struct TRequestBuilder {
    /// The selected ressort; `Unspecified` attaches no `ressort` parameter.
    pub ressort: Ressort,
    /// The selected regions, each held once, in the order first given.
    pub regions: Vec<Region>,
    /// The dates to query.
    pub timeframe: Timeframe,
}

impl TRequestBuilder {
    /// Whether the stored timeframe holds only valid dates.
    pub open spec fn dates_valid(self) -> bool {
        match self.timeframe {
            Timeframe::Now => true,
            Timeframe::Date(d) => d.valid(),
            Timeframe::DateRange(dr) => forall |i: int|
                0 <= i < dr.dates@.len() ==> (#[trigger] dr.dates@[i]).valid(),
        }
    }

    /// Creates a configuration with no ressort, no regions, and the current
    /// date as timeframe.
    pub fn new() -> (r: TRequestBuilder)
        ensures
            r.ressort == Ressort::Unspecified,
            r.regions@ =~= Seq::<Region>::empty(),
            r.timeframe is Now,
            r.dates_valid(),
    {
        TRequestBuilder {
            ressort: Ressort::Unspecified,
            regions: Vec::new(),
            timeframe: Timeframe::Now,
        }
    }

    /// Replaces the selected ressort.
    pub fn ressort(&mut self, res: Ressort) -> (r: &mut TRequestBuilder)
        ensures
            *r == (TRequestBuilder { ressort: res, ..*old(self) }),
            *final(self) == *final(r),
    {
        self.ressort = res;
        self
    }

    /// Replaces the selected regions, keeping each region once, in the order
    /// of its first occurrence.
    pub fn regions(&mut self, reg: Vec<Region>) -> (r: &mut TRequestBuilder)
        ensures
            r.ressort == old(self).ressort,
            r.timeframe == old(self).timeframe,
            r.regions@ == dedup_keep_first(reg@),
            *final(self) == *final(r),
    {
        let mut out: Vec<Region> = Vec::new();
        let ghost all: Seq<Region> = reg@;
        let mut i: usize = 0;
        while i < reg.len()
            invariant
                reg@ == all,
                i <= all.len(),
                out@ == dedup_keep_first(all.take(i as int)),
            decreases all.len() - i,
        {
            let d = reg[i];
            proof {
                assert(all.take(i + 1).drop_last() =~= all.take(i as int));
                assert(all.take(i + 1).last() == all[i as int]);
                lemma_dedup_membership(all.take(i as int), d);
            }
            if !vec_contains_region(&out, d) {
                out.push(d);
            }
            i += 1;
        }
        proof {
            assert(all.take(all.len() as int) =~= all);
        }
        self.regions = out;
        self
    }

    /// Replaces the selected timeframe.
    pub fn timeframe(&mut self, timeframe: Timeframe) -> (r: &mut TRequestBuilder)
        ensures
            *r == (TRequestBuilder { timeframe, ..*old(self) }),
            *final(self) == *final(r),
    {
        self.timeframe = timeframe;
        self
    }

    /// The query parameters attached for one date: always the date in wire
    /// form; the region codes only when regions are selected; the ressort
    /// encoding only when a ressort is selected.
    pub open spec fn query_pairs_spec(self, date: TDate) -> Seq<(Seq<char>, Seq<char>)> {
        let base = seq![("date"@, wire_format(date))];
        let with_regions = if self.regions@.len() > 0 {
            base + seq![("regions"@, regions_str(self.regions@))]
        } else {
            base
        };
        if self.ressort != Ressort::Unspecified {
            with_regions + seq![("ressort"@, ressort_str(self.ressort))]
        } else {
            with_regions
        }
    }

    /// Builds the query parameters for one date.
    pub fn query_pairs(&self, date: TDate) -> (r: Vec<(String, String)>)
        requires
            date.valid(),
        ensures
            pairs_view(r@) == self.query_pairs_spec(date),
    {
        let mut v: Vec<(String, String)> = Vec::new();
        v.push((String::from_str("date"), date.format()));
        if self.regions.len() > 0 {
            v.push((String::from_str("regions"), regions_param(&self.regions)));
        }
        if !(self.ressort == Ressort::Unspecified) {
            v.push((String::from_str("ressort"), String::from_str(self.ressort.as_str())));
        }
        proof {
            assert(pairs_view(v@) =~= self.query_pairs_spec(date));
        }
        v
    }

    /// Creates the queryable URL for one date against a caller-supplied
    /// base endpoint; this keeps the construction-failure path reachable
    /// from tests with a base that does not parse.
    pub fn prepare_url_with_base(&self, base: &str, date: TDate) -> (r: Result<String, Error>)
        requires
            date.valid(),
        ensures
            url_base_ok(base@) ==> (
                r matches Ok(u) && u@ == rendered_url(base@, self.query_pairs_spec(date))
            ),
            !url_base_ok(base@) ==> (r matches Err(e) && e == Error::UrlConstructionError),
    {
        let pairs = self.query_pairs(date);
        match render_url(base, &pairs) {
            Some(u) => Ok(u),
            None => Err(Error::UrlConstructionError),
        }
    }

    /// Creates the queryable URL for one date: the fixed base endpoint with
    /// the query parameters of `query_pairs_spec` appended.
    pub fn prepare_url(&self, date: TDate) -> (r: Result<String, Error>)
        requires
            date.valid(),
        ensures
            url_base_ok(BASE_URL@) ==> (
                r matches Ok(u) && u@ == rendered_url(BASE_URL@, self.query_pairs_spec(date))
            ),
            !url_base_ok(BASE_URL@) ==> (r matches Err(e) && e == Error::UrlConstructionError),
    {
        self.prepare_url_with_base(BASE_URL, date)
    }
}

/// Whether a vector holds the given region.
fn vec_contains_region(v: &Vec<Region>, d: Region) -> (r: bool)
    ensures
        r == v@.contains(d),
{
    let mut j: usize = 0;
    while j < v.len()
        invariant
            j <= v@.len(),
            forall |k: int| 0 <= k < j ==> v@[k] != d,
        decreases v@.len() - j,
    {
        if v[j] == d {
            proof {
                assert(v@[j as int] == d);
            }
            return true;
        }
        j += 1;
    }
    false
}

impl TRequestBuilder {
    /// The dates the configured timeframe selects, `today` standing for the
    /// current local date; a range contributes each of its dates once, in
    /// the order of its first occurrence, so the timeframe keeps the range's
    /// set semantics even for a range built by hand.
    pub open spec fn resolved_dates(self, today: TDate) -> Seq<TDate> {
        match self.timeframe {
            Timeframe::Now => seq![today],
            Timeframe::Date(d) => seq![d],
            Timeframe::DateRange(dr) => dedup_keep_first(dr.dates@),
        }
    }

    /// Whether the stored timeframe holds only valid dates, decided at run
    /// time; callers outside verified code test this before resolving.
    pub fn check_dates_valid(&self) -> (r: bool)
        ensures
            r == self.dates_valid(),
    {
        match &self.timeframe {
            Timeframe::Now => true,
            Timeframe::Date(d) => {
                TDate::from_calendar_date(d.year, d.month, d.day).is_ok()
            }
            Timeframe::DateRange(dr) => {
                let mut i: usize = 0;
                #[verifier::loop_isolation(false)]
                while i < dr.dates.len()
                    invariant
                        i <= dr.dates@.len(),
                        forall |k: int| 0 <= k < i ==> (#[trigger] dr.dates@[k]).valid(),
                    decreases dr.dates@.len() - i,
                {
                    let d = dr.dates[i];
                    if TDate::from_calendar_date(d.year, d.month, d.day).is_err() {
                        proof {
                            assert(!dr.dates@[i as int].valid());
                        }
                        return false;
                    }
                    i += 1;
                }
                true
            }
        }
    }

    /// Resolves the configured timeframe to the concrete dates to query.
    pub fn resolve_dates(&self, today: TDate) -> (r: Vec<TDate>)
        requires
            today.valid(),
            self.dates_valid(),
        ensures
            r@ == self.resolved_dates(today),
            forall |i: int| 0 <= i < r@.len() ==> (#[trigger] r@[i]).valid(),
    {
        match &self.timeframe {
            Timeframe::Now => {
                vec![today]
            }
            Timeframe::Date(d) => {
                vec![*d]
            }
            Timeframe::DateRange(dr) => {
                let mut v: Vec<TDate> = Vec::new();
                let mut i: usize = 0;
                while i < dr.dates.len()
                    invariant
                        forall |k: int| 0 <= k < dr.dates@.len() ==> (#[trigger] dr.dates@[k]).valid(),
                        i <= dr.dates@.len(),
                        v@ == dr.dates@.take(i as int),
                    decreases dr.dates@.len() - i,
                {
                    v.push(dr.dates[i]);
                    proof {
                        assert(v@ =~= dr.dates@.take(i + 1));
                    }
                    i += 1;
                }
                proof {
                    assert(dr.dates@.take(dr.dates@.len() as int) =~= dr.dates@);
                }
                DateRange::from_dates(v).dates
            }
        }
    }

    /// Builds one request URL per date the configured timeframe selects,
    /// in the timeframe's order.
    pub fn prepare_urls(&self, today: TDate) -> (r: Result<Vec<String>, Error>)
        requires
            today.valid(),
            self.dates_valid(),
        ensures
            r matches Ok(us) ==> {
                &&& us@.len() == self.resolved_dates(today).len()
                &&& forall |i: int| 0 <= i < us@.len() ==> (#[trigger] us@[i])@
                    == rendered_url(BASE_URL@, self.query_pairs_spec(self.resolved_dates(today)[i]))
            },
            r matches Err(e) ==> e == Error::UrlConstructionError && !url_base_ok(BASE_URL@),
            url_base_ok(BASE_URL@) ==> r is Ok,
            !url_base_ok(BASE_URL@) && self.resolved_dates(today).len() > 0 ==> r is Err,
    {
        let dates = self.resolve_dates(today);
        let mut urls: Vec<String> = Vec::new();
        let mut i: usize = 0;
        #[verifier::loop_isolation(false)]
        while i < dates.len()
            invariant
                urls@.len() == i as int,
                i <= dates@.len(),
                forall |k: int| 0 <= k < i ==> (#[trigger] urls@[k])@
                    == rendered_url(BASE_URL@, self.query_pairs_spec(dates@[k])),
                i > 0 ==> url_base_ok(BASE_URL@),
            decreases dates@.len() - i,
        {
            match self.prepare_url(dates[i]) {
                Ok(u) => {
                    urls.push(u);
                }
                Err(e) => {
                    return Err(e);
                }
            }
            i += 1;
        }
        Ok(urls)
    }
}

/// With no selected regions and no selected ressort, the query holds the
/// date parameter and nothing else.
pub proof fn lemma_minimal_query(b: TRequestBuilder, date: TDate)
    requires
        b.regions@.len() == 0,
        b.ressort == Ressort::Unspecified,
    ensures
        b.query_pairs_spec(date) =~= seq![("date"@, wire_format(date))],
{
}

/// With selected regions and a selected ressort, the query holds the date,
/// the region codes, and the ressort encoding, in that order.
pub proof fn lemma_full_query(b: TRequestBuilder, date: TDate)
    requires
        b.regions@.len() > 0,
        b.ressort != Ressort::Unspecified,
    ensures
        b.query_pairs_spec(date) =~= seq![
            ("date"@, wire_format(date)),
            ("regions"@, regions_str(b.regions@)),
            ("ressort"@, ressort_str(b.ressort)),
        ],
{
}

} // verus!
