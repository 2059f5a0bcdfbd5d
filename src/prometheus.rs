use vstd::prelude::*;
use crate::fetch::ScanError;
use crate::model::{MetricFamily, OutputRow};
use crate::json::nul_free;
use crate::project::{lemma_row_nul_free, project, row_nul_free, rows_match, sample_total};
use crate::source::{extract_source, source_of};

verus! {

/// The arguments of one scan, fixed when the query is bound.
pub struct PrometheusParams {
    pub url: String,
    pub source: Option<String>,
}

/// The source label of a bound scan.
pub open spec fn source_label(p: PrometheusParams) -> Seq<char> {
    match p.source {
        Some(s) => s@,
        None => Seq::empty(),
    }
}

/// Where a scan stands: it delivers its rows once, then nothing.
#[derive(Clone, Copy, Debug, PartialEq, Eq, Structural)]
pub enum ScanState {
    Pending,
    Delivered,
}

/// The per-query state of a scan.
pub struct PrometheusInitData {
    pub state: ScanState,
}

impl PrometheusInitData {
    /// Whether the next scan call needs the scraped families.
    pub fn needs_scrape(&self) -> (r: bool)
        ensures
            r == (self.state == ScanState::Pending),
    {
        self.state == ScanState::Pending
    }
}

/// Whether every row of `fams` can be written as host text, which holds no
/// NUL character. Kind names are fixed words and the JSON columns escape
/// control characters (see `lemma_row_nul_free`), so this rests on the
/// source, the family names and the units.
pub open spec fn encodable(fams: Seq<MetricFamily>, source: Seq<char>) -> bool {
    &&& nul_free(source)
    &&& forall|i: int| 0 <= i < fams.len() ==> #[trigger] family_encodable(fams[i])
}

/// Whether a family's name and unit are host text.
pub open spec fn family_encodable(f: MetricFamily) -> bool {
    nul_free(f.name@) && nul_free(f.unit@)
}

fn is_host_text(s: &str) -> (r: bool)
    ensures
        r == nul_free(s@),
{
    let n = s.unicode_len();
    let mut i: usize = 0;
    while i < n
        invariant
            n == s@.len(),
            i <= n,
            forall|k: int| 0 <= k < i ==> s@[k] != '\0',
        decreases n - i,
    {
        if s.get_char(i) == '\0' {
            return false;
        }
        i = i + 1;
    }
    true
}

fn families_encodable(fams: &Vec<MetricFamily>) -> (r: bool)
    ensures
        r == forall|i: int| 0 <= i < fams@.len() ==> #[trigger] family_encodable(fams@[i]),
{
    let mut i: usize = 0;
    while i < fams.len()
        invariant
            i <= fams@.len(),
            forall|k: int| 0 <= k < i ==> #[trigger] family_encodable(fams@[k]),
        decreases fams.len() - i,
    {
        if !is_host_text(fams[i].name.as_str()) || !is_host_text(fams[i].unit.as_str()) {
            assert(!family_encodable(fams@[i as int]));
            return false;
        }
        i = i + 1;
    }
    true
}

/// Whether no row of `fams`, laid out as `rows_match` lays them, holds a NUL
/// character in a text column.
pub open spec fn rows_nul_free(rows: Seq<OutputRow>, fams: Seq<MetricFamily>) -> bool {
    forall|i: int, j: int|
        0 <= i < fams.len() && 0 <= j < fams[i].samples@.len() ==> #[trigger] row_nul_free(
            row_at(rows, fams, i, j),
        )
}

/// The row of sample `j` of family `i`, as `rows_match` lays them out.
pub open spec fn row_at(rows: Seq<OutputRow>, fams: Seq<MetricFamily>, i: int, j: int) -> OutputRow {
    rows[sample_total(fams.take(i)) + j]
}

/// What one scan call does: from state `before`, given what was scraped,
/// it returns `r` and leaves state `after`.
pub open spec fn scan_step(
    before: ScanState,
    after: ScanState,
    params: PrometheusParams,
    scraped: Result<Vec<MetricFamily>, ScanError>,
    now: u64,
    r: Result<Vec<OutputRow>, ScanError>,
) -> bool {
    match before {
        ScanState::Delivered => {
            &&& after == ScanState::Delivered
            &&& r is Ok
            &&& r->Ok_0@.len() == 0
        },
        ScanState::Pending => match scraped {
            Ok(fams) => if encodable(fams@, source_label(params)) {
                &&& after == ScanState::Delivered
                &&& r is Ok
                &&& rows_match(r->Ok_0@, fams@, source_label(params), now)
                &&& rows_nul_free(r->Ok_0@, fams@)
            } else {
                &&& after == ScanState::Pending
                &&& r == Err::<Vec<OutputRow>, ScanError>(ScanError::Encoding)
            },
            Err(e) => {
                &&& after == ScanState::Pending
                &&& r == Err::<Vec<OutputRow>, ScanError>(e)
            },
        },
    }
}

/// The table function over Prometheus exposition text.
pub struct PrometheusVTab;

impl PrometheusVTab {
    /// Binds a scan of `url`; an empty `source` is derived from the location.
    pub fn bind(url: String, source: String) -> (r: PrometheusParams)
        ensures
            r.url == url,
            r.source is Some,
            r.source->0@ == if source@.len() == 0 {
                source_of(url@)
            } else {
                source@
            },
    {
        if source.as_str().is_empty() {
            let derived = extract_source(url.as_str());
            PrometheusParams { url, source: Some(derived) }
        } else {
            PrometheusParams { url, source: Some(source) }
        }
    }

    /// A fresh scan state, before any rows are delivered.
    pub fn init() -> (r: PrometheusInitData)
        ensures
            r.state == ScanState::Pending,
    {
        PrometheusInitData { state: ScanState::Pending }
    }

    /// One scan call. While pending, the scraped families become all the rows
    /// of the scan; a scrape error, or a text the host cannot take, is
    /// returned instead and the scan stays pending. Once delivered, every call
    /// yields no rows.
    pub fn func(
        init: &mut PrometheusInitData,
        params: &PrometheusParams,
        scraped: Result<Vec<MetricFamily>, ScanError>,
        now: u64,
    ) -> (r: Result<Vec<OutputRow>, ScanError>)
        ensures
            scan_step(old(init).state, final(init).state, *params, scraped, now, r),
    {
        match init.state {
            ScanState::Delivered => Ok(Vec::new()),
            ScanState::Pending => match scraped {
                Ok(fams) => {
                    let source = match &params.source {
                        Some(s) => s.clone(),
                        None => String::new(),
                    };
                    if !is_host_text(source.as_str()) || !families_encodable(&fams) {
                        return Err(ScanError::Encoding);
                    }
                    let rows = project(&fams, source.as_str(), now);
                    proof {
                        assert forall|i: int, j: int|
                            0 <= i < fams@.len() && 0 <= j < fams@[i].samples@.len() implies #[trigger] row_nul_free(
                            row_at(rows@, fams@, i, j),
                        ) by {
                            assert(family_encodable(fams@[i]));
                            lemma_row_nul_free(
                                rows@[sample_total(fams@.take(i)) + j],
                                fams@[i],
                                fams@[i].samples@[j],
                                source@,
                                now,
                            );
                        }
                    }
                    init.state = ScanState::Delivered;
                    assert(rows_nul_free(rows@, fams@));
                    Ok(rows)
                },
                Err(e) => Err(e),
            },
        }
    }
}

/// Once a scan call has succeeded, every later call yields zero rows,
/// whatever was scraped for it.
pub proof fn lemma_exhausted_after_success(
    s0: ScanState,
    s1: ScanState,
    s2: ScanState,
    params: PrometheusParams,
    first: Result<Vec<MetricFamily>, ScanError>,
    later: Result<Vec<MetricFamily>, ScanError>,
    now1: u64,
    now2: u64,
    r1: Result<Vec<OutputRow>, ScanError>,
    r2: Result<Vec<OutputRow>, ScanError>,
)
    requires
        scan_step(s0, s1, params, first, now1, r1),
        r1 is Ok,
        scan_step(s1, s2, params, later, now2, r2),
    ensures
        r2 is Ok,
        r2->Ok_0@.len() == 0,
        s2 == ScanState::Delivered,
{
}

} // verus!
