use vstd::prelude::*;
use crate::json::{
    append_decimal, append_json_string, append_number_json, decimal, join, json_string,
    lemma_decimal_nul_free, lemma_join_nul_free, lemma_json_string_nul_free,
    lemma_nul_free_concat, lemma_number_json_nul_free, lemma_string_round_trip, nul_free,
    number_json, parse_string,
};
use crate::model::{
    kind_name, MetricKind, Bucket, MetricFamily, MetricSample, MetricValue, Number, OutputRow, Quantile,
    RowValue,
};

verus! {

/// The text of an optional string.
pub open spec fn text_view(o: Option<String>) -> Option<Seq<char>> {
    match o {
        Some(s) => Some(s@),
        None => None,
    }
}

/// One `"key":"value"` member of a label object.
pub open spec fn label_entry(p: (String, String)) -> Seq<char> {
    json_string(p.0@) + ":"@ + json_string(p.1@)
}

/// A label set as a JSON object, members in the order given.
pub open spec fn labels_text(ls: Seq<(String, String)>) -> Seq<char> {
    "{"@ + join(ls.map_values(|p: (String, String)| label_entry(p))) + "}"@
}

/// The `labels` column: absent for an empty label set.
pub open spec fn labels_of(ls: Seq<(String, String)>) -> Option<Seq<char>> {
    if ls.len() == 0 {
        None
    } else {
        Some(labels_text(ls))
    }
}

/// One bucket as a JSON object.
pub open spec fn bucket_entry(b: Bucket) -> Seq<char> {
    "{\"upper_bound\":"@ + number_json(b.upper_bound.text@) + ", \"count\":"@ + number_json(
        b.count.text@,
    ) + "}"@
}

/// One quantile as a JSON object.
pub open spec fn quantile_entry(q: Quantile) -> Seq<char> {
    "{\"quantile\":"@ + number_json(q.quantile.text@) + ", \"value\":"@ + number_json(
        q.value.text@,
    ) + "}"@
}

/// The `buckets` member of a histogram's details, absent when there are none.
pub open spec fn buckets_member(bs: Seq<Bucket>) -> Seq<char> {
    if bs.len() == 0 {
        Seq::empty()
    } else {
        ", \"buckets\":["@ + join(bs.map_values(|b: Bucket| bucket_entry(b))) + "]"@
    }
}

/// The `quantiles` member of a summary's details, absent when there are none.
pub open spec fn quantiles_member(qs: Seq<Quantile>) -> Seq<char> {
    if qs.len() == 0 {
        Seq::empty()
    } else {
        ", \"quantiles\":["@ + join(qs.map_values(|q: Quantile| quantile_entry(q))) + "]"@
    }
}

/// A count that the exposition may leave out, zero when it does.
pub open spec fn count_or_zero(c: Option<u64>) -> u64 {
    match c {
        Some(c) => c,
        None => 0,
    }
}

/// The text of a sum that the exposition may leave out, `0` when it does.
pub open spec fn sum_text(s: Option<Number>) -> Seq<char> {
    match s {
        Some(n) => n.text@,
        None => "0"@,
    }
}

/// Whether `n` is the given sum, or zero when the sum is left out.
pub open spec fn is_sum(n: Number, s: Option<Number>) -> bool {
    match s {
        Some(x) => n == x,
        None => n.bits == 0 && n.text@ == "0"@,
    }
}

/// A details object: count, sum, and the member that lists the parts.
pub open spec fn details_text(count: u64, sum: Seq<char>, member: Seq<char>) -> Seq<char> {
    "{\"count\":"@ + decimal(count as nat) + ", \"sum\":"@ + sum + member + "}"@
}

/// The `details` column of a sample's value.
pub open spec fn details_of(v: MetricValue) -> Option<Seq<char>> {
    match v {
        MetricValue::Histogram { count, sum, buckets } => Some(
            details_text(count_or_zero(count), number_json(sum_text(sum)), buckets_member(buckets@)),
        ),
        MetricValue::Summary { count, sum, quantiles } => Some(
            details_text(count_or_zero(count), number_json(sum_text(sum)), quantiles_member(quantiles@)),
        ),
        _ => None,
    }
}

/// The mean rule of histograms and summaries: zero without observations,
/// else `sum / count`.
pub open spec fn mean_matches(r: RowValue, count: Option<u64>, sum: Option<Number>) -> bool {
    if count_or_zero(count) == 0 {
        r is Zero
    } else {
        r is Mean && r->count == count_or_zero(count) && is_sum(r->sum, sum)
    }
}

/// Whether `r` is how the `value` column is obtained from `v`.
pub open spec fn value_matches(r: RowValue, v: MetricValue) -> bool {
    match v {
        MetricValue::Unknown(n) => r == RowValue::Scalar(n),
        MetricValue::Untyped(n) => r == RowValue::Scalar(n),
        MetricValue::Gauge(n) => r == RowValue::Scalar(n),
        MetricValue::Counter(n) => r == RowValue::Scalar(n),
        MetricValue::Histogram { count, sum, .. } => mean_matches(r, count, sum),
        MetricValue::Summary { count, sum, .. } => mean_matches(r, count, sum),
    }
}

/// Whether `r` is the row of sample `s` of family `f`.
pub open spec fn row_matches(
    r: OutputRow,
    f: MetricFamily,
    s: MetricSample,
    source: Seq<char>,
    now: u64,
) -> bool {
    &&& r.metric_name@ == f.name@
    &&& r.metric_type@ == kind_name(f.kind)
    &&& value_matches(r.value, s.value)
    &&& r.unit@ == f.unit@
    &&& text_view(r.labels) == labels_of(s.labels@)
    &&& r.source@ == source
    &&& r.timestamp == match s.timestamp {
        Some(t) => t,
        None => now,
    }
    &&& text_view(r.details) == details_of(s.value)
}

/// The number of samples over all families.
pub open spec fn sample_total(fams: Seq<MetricFamily>) -> nat
    decreases fams.len(),
{
    if fams.len() == 0 {
        0
    } else {
        sample_total(fams.drop_last()) + fams.last().samples@.len()
    }
}

/// The rows of `fams`: one per sample, families in order, then samples in order.
pub open spec fn rows_match(
    rows: Seq<OutputRow>,
    fams: Seq<MetricFamily>,
    source: Seq<char>,
    now: u64,
) -> bool {
    &&& rows.len() == sample_total(fams)
    &&& forall|i: int, j: int|
        0 <= i < fams.len() && 0 <= j < fams[i].samples@.len() ==> row_matches(
            rows[sample_total(fams.take(i)) + j],
            fams[i],
            #[trigger] fams[i].samples@[j],
            source,
            now,
        )
}

proof fn lemma_join_push(es: Seq<Seq<char>>, e: Seq<char>)
    ensures
        join(es.push(e)) == if es.len() == 0 {
            e
        } else {
            join(es) + ","@ + e
        },
{
    assert(es.push(e).drop_last() =~= es);
}

proof fn lemma_total_step(fams: Seq<MetricFamily>, i: int)
    requires
        0 <= i < fams.len(),
    ensures
        sample_total(fams.take(i + 1)) == sample_total(fams.take(i)) + fams[i].samples@.len(),
{
    assert(fams.take(i + 1).drop_last() =~= fams.take(i));
}

proof fn lemma_total_mono(fams: Seq<MetricFamily>, a: int, b: int)
    requires
        0 <= a <= b <= fams.len(),
    ensures
        sample_total(fams.take(a)) <= sample_total(fams.take(b)),
    decreases b - a,
{
    if a < b {
        lemma_total_step(fams, b - 1);
        lemma_total_mono(fams, a, b - 1);
    }
}

fn append_labels(out: &mut String, ls: &Vec<(String, String)>)
    ensures
        final(out)@ == old(out)@ + join(ls@.map_values(|p: (String, String)| label_entry(p))),
{
    let ghost start = out@;
    let mut i: usize = 0;
    while i < ls.len()
        invariant
            i <= ls@.len(),
            out@ == start + join(ls@.take(i as int).map_values(|p: (String, String)| label_entry(p))),
        decreases ls.len() - i,
    {
        let ghost es = ls@.take(i as int).map_values(|p: (String, String)| label_entry(p));
        if i > 0 {
            out.append(",");
        }
        append_json_string(out, ls[i].0.as_str());
        out.append(":");
        append_json_string(out, ls[i].1.as_str());
        proof {
            assert(ls@.take(i + 1).map_values(|p: (String, String)| label_entry(p)) =~= es.push(
                label_entry(ls@[i as int]),
            ));
            lemma_join_push(es, label_entry(ls@[i as int]));
        }
        i = i + 1;
    }
    assert(ls@.take(ls@.len() as int) =~= ls@);
}

fn append_buckets(out: &mut String, bs: &Vec<Bucket>)
    ensures
        final(out)@ == old(out)@ + join(bs@.map_values(|b: Bucket| bucket_entry(b))),
{
    let ghost start = out@;
    let mut i: usize = 0;
    while i < bs.len()
        invariant
            i <= bs@.len(),
            out@ == start + join(bs@.take(i as int).map_values(|b: Bucket| bucket_entry(b))),
        decreases bs.len() - i,
    {
        let ghost es = bs@.take(i as int).map_values(|b: Bucket| bucket_entry(b));
        if i > 0 {
            out.append(",");
        }
        let ghost before = out@;
        out.append("{\"upper_bound\":");
        append_number_json(out, bs[i].upper_bound.text.as_str());
        out.append(", \"count\":");
        append_number_json(out, bs[i].count.text.as_str());
        out.append("}");
        assert(out@ =~= before + bucket_entry(bs@[i as int]));
        proof {
            assert(bs@.take(i + 1).map_values(|b: Bucket| bucket_entry(b)) =~= es.push(
                bucket_entry(bs@[i as int]),
            ));
            lemma_join_push(es, bucket_entry(bs@[i as int]));
        }
        i = i + 1;
    }
    assert(bs@.take(bs@.len() as int) =~= bs@);
}

fn append_quantiles(out: &mut String, qs: &Vec<Quantile>)
    ensures
        final(out)@ == old(out)@ + join(qs@.map_values(|q: Quantile| quantile_entry(q))),
{
    let ghost start = out@;
    let mut i: usize = 0;
    while i < qs.len()
        invariant
            i <= qs@.len(),
            out@ == start + join(qs@.take(i as int).map_values(|q: Quantile| quantile_entry(q))),
        decreases qs.len() - i,
    {
        let ghost es = qs@.take(i as int).map_values(|q: Quantile| quantile_entry(q));
        if i > 0 {
            out.append(",");
        }
        let ghost before = out@;
        out.append("{\"quantile\":");
        append_number_json(out, qs[i].quantile.text.as_str());
        out.append(", \"value\":");
        append_number_json(out, qs[i].value.text.as_str());
        out.append("}");
        assert(out@ =~= before + quantile_entry(qs@[i as int]));
        proof {
            assert(qs@.take(i + 1).map_values(|q: Quantile| quantile_entry(q)) =~= es.push(
                quantile_entry(qs@[i as int]),
            ));
            lemma_join_push(es, quantile_entry(qs@[i as int]));
        }
        i = i + 1;
    }
    assert(qs@.take(qs@.len() as int) =~= qs@);
}

/// The `labels` column of a sample: a JSON object of its label pairs, or
/// nothing for an empty label set.
pub fn labels_json(ls: &Vec<(String, String)>) -> (r: Option<String>)
    ensures
        text_view(r) == labels_of(ls@),
{
    if ls.len() == 0 {
        None
    } else {
        let mut out = String::new();
        out.append("{");
        append_labels(&mut out, ls);
        out.append("}");
        Some(out)
    }
}

fn mean_parts(count: &Option<u64>, sum: &Option<Number>) -> (r: (RowValue, u64, Number))
    ensures
        mean_matches(r.0, *count, *sum),
        r.1 == count_or_zero(*count),
        r.2.text@ == sum_text(*sum),
{
    let c: u64 = match count {
        Some(c) => *c,
        None => 0,
    };
    let s = match sum {
        Some(x) => x.copy(),
        None => Number::zero(),
    };
    if c > 0 {
        (RowValue::Mean { sum: s.copy(), count: c }, c, s)
    } else {
        (RowValue::Zero, c, s)
    }
}

fn details_head(count: u64, sum: &Number) -> (r: String)
    ensures
        r@ == "{\"count\":"@ + decimal(count as nat) + ", \"sum\":"@ + number_json(sum.text@),
{
    let mut out = String::new();
    out.append("{\"count\":");
    append_decimal(&mut out, count);
    out.append(", \"sum\":");
    append_number_json(&mut out, sum.text.as_str());
    out
}

/// The `value` and `details` columns of a sample's value.
pub fn project_value(v: &MetricValue) -> (r: (RowValue, Option<String>))
    ensures
        value_matches(r.0, *v),
        text_view(r.1) == details_of(*v),
{
    match v {
        MetricValue::Unknown(n) => (RowValue::Scalar(n.copy()), None),
        MetricValue::Untyped(n) => (RowValue::Scalar(n.copy()), None),
        MetricValue::Gauge(n) => (RowValue::Scalar(n.copy()), None),
        MetricValue::Counter(n) => (RowValue::Scalar(n.copy()), None),
        MetricValue::Histogram { count, sum, buckets } => {
            let (value, c, s) = mean_parts(count, sum);
            let mut out = details_head(c, &s);
            if buckets.len() > 0 {
                out.append(", \"buckets\":[");
                append_buckets(&mut out, buckets);
                out.append("]");
            }
            out.append("}");
            assert(out@ =~= details_text(c, number_json(s.text@), buckets_member(buckets@)));
            (value, Some(out))
        },
        MetricValue::Summary { count, sum, quantiles } => {
            let (value, c, s) = mean_parts(count, sum);
            let mut out = details_head(c, &s);
            if quantiles.len() > 0 {
                out.append(", \"quantiles\":[");
                append_quantiles(&mut out, quantiles);
                out.append("]");
            }
            out.append("}");
            assert(out@ =~= details_text(c, number_json(s.text@), quantiles_member(quantiles@)));
            (value, Some(out))
        },
    }
}

/// The row of one sample of a family.
pub fn project_sample(f: &MetricFamily, s: &MetricSample, source: &str, now: u64) -> (r:
    OutputRow)
    ensures
        row_matches(r, *f, *s, source@, now),
{
    let (value, details) = project_value(&s.value);
    let timestamp = match s.timestamp {
        Some(t) => t,
        None => now,
    };
    OutputRow {
        metric_name: f.name.clone(),
        metric_type: f.kind.name(),
        value,
        unit: f.unit.clone(),
        labels: labels_json(&s.labels),
        source: String::from_str(source),
        timestamp,
        details,
    }
}

/// All rows of a scrape: one per sample, families in order, then samples in
/// order; `now` stands for samples without a timestamp.
pub fn project(families: &Vec<MetricFamily>, source: &str, now: u64) -> (r: Vec<OutputRow>)
    ensures
        rows_match(r@, families@, source@, now),
{
    let ghost fams = families@;
    let mut rows: Vec<OutputRow> = Vec::new();
    let mut i: usize = 0;
    while i < families.len()
        invariant
            fams == families@,
            i <= fams.len(),
            rows@.len() == sample_total(fams.take(i as int)),
            forall|a: int, b: int|
                0 <= a < i && 0 <= b < fams[a].samples@.len() ==> row_matches(
                    rows@[sample_total(fams.take(a)) + b],
                    fams[a],
                    #[trigger] fams[a].samples@[b],
                    source@,
                    now,
                ),
        decreases families.len() - i,
    {
        let f = &families[i];
        let ghost base = sample_total(fams.take(i as int));
        let mut j: usize = 0;
        while j < f.samples.len()
            invariant
                fams == families@,
                i < fams.len(),
                *f == fams[i as int],
                j <= f.samples@.len(),
                rows@.len() == base + j,
                base == sample_total(fams.take(i as int)),
                forall|a: int, b: int|
                    0 <= a < i && 0 <= b < fams[a].samples@.len() ==> row_matches(
                        rows@[sample_total(fams.take(a)) + b],
                        fams[a],
                        #[trigger] fams[a].samples@[b],
                        source@,
                        now,
                    ),
                forall|b: int|
                    0 <= b < j ==> row_matches(
                        rows@[base + b],
                        fams[i as int],
                        #[trigger] fams[i as int].samples@[b],
                        source@,
                        now,
                    ),
            decreases f.samples.len() - j,
        {
            let row = project_sample(f, &f.samples[j], source, now);
            proof {
                assert forall|a: int, b: int|
                    0 <= a < i && 0 <= b < fams[a].samples@.len() implies sample_total(fams.take(a))
                    + b < base && #[trigger] fams[a].samples@[b] == fams[a].samples@[b] by {
                    lemma_total_step(fams, a);
                    lemma_total_mono(fams, a + 1, i as int);
                }
            }
            rows.push(row);
            j = j + 1;
        }
        proof {
            lemma_total_step(fams, i as int);
        }
        i = i + 1;
    }
    assert(fams.take(fams.len() as int) =~= fams);
    rows
}

/// Decodes the members of a label object after its `{`: `"key":"value"`
/// pairs separated by commas and closed by the final `}`. `fuel` bounds the
/// number of members.
pub open spec fn parse_members(t: Seq<char>, fuel: nat) -> Option<Seq<(Seq<char>, Seq<char>)>>
    decreases fuel,
{
    if fuel == 0 {
        None
    } else {
        match parse_string(t) {
            Some((k, r1)) => if r1.len() > 0 && r1[0] == ':' {
                match parse_string(r1.drop_first()) {
                    Some((v, r2)) => if r2 == "}"@ {
                        Some(seq![(k, v)])
                    } else if r2.len() > 0 && r2[0] == ',' {
                        match parse_members(r2.drop_first(), (fuel - 1) as nat) {
                            Some(m) => Some(seq![(k, v)] + m),
                            None => None,
                        }
                    } else {
                        None
                    },
                    None => None,
                }
            } else {
                None
            },
            None => None,
        }
    }
}

/// Decodes a non-empty JSON object of string members into its pairs.
pub open spec fn parse_labels(t: Seq<char>) -> Option<Seq<(Seq<char>, Seq<char>)>> {
    if t.len() > 0 && t[0] == '{' {
        parse_members(t.drop_first(), t.len())
    } else {
        None
    }
}

/// The text of each label pair.
pub open spec fn label_texts(ls: Seq<(String, String)>) -> Seq<(Seq<char>, Seq<char>)> {
    ls.map_values(|p: (String, String)| (p.0@, p.1@))
}

proof fn lemma_join_front(es: Seq<Seq<char>>)
    requires
        es.len() >= 2,
    ensures
        join(es) == es[0] + ","@ + join(es.drop_first()),
    decreases es.len(),
{
    if es.len() == 2 {
        assert(es.drop_last() =~= seq![es[0]]);
        assert(es.drop_first() =~= seq![es[1]]);
        assert(join(seq![es[0]]) == es[0]);
        assert(join(seq![es[1]]) == es[1]);
        assert(join(es) == join(es.drop_last()) + ","@ + es.last());
    } else {
        lemma_join_front(es.drop_last());
        assert(es.drop_last().drop_first() =~= es.drop_first().drop_last());
        assert(join(es) =~= es[0] + ","@ + join(es.drop_first()));
    }
}

proof fn lemma_member_step(t: Seq<char>, k: Seq<char>, v: Seq<char>, more: Seq<char>, fuel: nat)
    requires
        fuel > 0,
        t == json_string(k) + ":"@ + json_string(v) + more,
    ensures
        parse_members(t, fuel) == if more == "}"@ {
            Some(seq![(k, v)])
        } else if more.len() > 0 && more[0] == ',' {
            match parse_members(more.drop_first(), (fuel - 1) as nat) {
                Some(m) => Some(seq![(k, v)] + m),
                None => None,
            }
        } else {
            None
        },
{
    reveal_strlit(":");
    let r1 = ":"@ + json_string(v) + more;
    assert(t =~= json_string(k) + r1);
    lemma_string_round_trip(k, r1);
    assert(r1.drop_first() =~= json_string(v) + more);
    lemma_string_round_trip(v, more);
}

proof fn lemma_members_round_trip(ls: Seq<(String, String)>, fuel: nat)
    requires
        ls.len() > 0,
        fuel >= ls.len(),
    ensures
        parse_members(
            join(ls.map_values(|p: (String, String)| label_entry(p))) + "}"@,
            fuel,
        ) == Some(label_texts(ls)),
    decreases ls.len(),
{
    reveal_strlit("}");
    reveal_strlit(",");
    let es = ls.map_values(|p: (String, String)| label_entry(p));
    let k = ls[0].0@;
    let v = ls[0].1@;
    let t = join(es) + "}"@;
    if ls.len() == 1 {
        assert(join(es) == es[0]);
        lemma_member_step(t, k, v, "}"@, fuel);
        assert(label_texts(ls) =~= seq![(k, v)]);
    } else {
        lemma_join_front(es);
        let rest = ls.drop_first();
        let more = ","@ + join(es.drop_first()) + "}"@;
        assert(t =~= json_string(k) + ":"@ + json_string(v) + more);
        assert(more[0] == ',');
        assert(more.len() != 1);
        lemma_member_step(t, k, v, more, fuel);
        assert(rest.map_values(|p: (String, String)| label_entry(p)) =~= es.drop_first());
        assert(more.drop_first() =~= join(es.drop_first()) + "}"@);
        lemma_members_round_trip(rest, (fuel - 1) as nat);
        assert(label_texts(ls) =~= seq![(k, v)] + label_texts(rest));
    }
}

proof fn lemma_join_len(es: Seq<Seq<char>>)
    requires
        forall|i: int| 0 <= i < es.len() ==> #[trigger] es[i].len() > 0,
    ensures
        join(es).len() >= es.len(),
    decreases es.len(),
{
    if es.len() > 1 {
        lemma_join_len(es.drop_last());
    }
}

/// A label object decodes back to the label pairs it was built from, in order.
pub proof fn lemma_labels_round_trip(ls: Seq<(String, String)>)
    requires
        ls.len() > 0,
    ensures
        parse_labels(labels_text(ls)) == Some(label_texts(ls)),
{
    reveal_strlit("{");
    reveal_strlit("\"");
    let es = ls.map_values(|p: (String, String)| label_entry(p));
    assert forall|i: int| 0 <= i < es.len() implies #[trigger] es[i].len() > 0 by {
        assert(label_entry(ls[i])[0] == '"');
    }
    lemma_join_len(es);
    assert(labels_text(ls).drop_first() =~= join(es) + "}"@);
    lemma_members_round_trip(ls, labels_text(ls).len());
}

/// Whether no text column of a row holds a NUL character.
pub open spec fn row_nul_free(r: OutputRow) -> bool {
    &&& nul_free(r.metric_name@)
    &&& nul_free(r.metric_type@)
    &&& nul_free(r.unit@)
    &&& nul_free(r.source@)
    &&& (r.labels matches Some(t) ==> nul_free(t@))
    &&& (r.details matches Some(t) ==> nul_free(t@))
}

proof fn lemma_labels_nul_free(ls: Seq<(String, String)>)
    ensures
        nul_free(labels_text(ls)),
{
    reveal_strlit("{");
    reveal_strlit("}");
    reveal_strlit(":");
    let es = ls.map_values(|p: (String, String)| label_entry(p));
    assert forall|i: int| 0 <= i < es.len() implies nul_free(#[trigger] es[i]) by {
        let p = ls[i];
        lemma_json_string_nul_free(p.0@);
        lemma_json_string_nul_free(p.1@);
        lemma_nul_free_concat(json_string(p.0@), ":"@);
        lemma_nul_free_concat(json_string(p.0@) + ":"@, json_string(p.1@));
    }
    lemma_join_nul_free(es);
    lemma_nul_free_concat("{"@, join(es));
    lemma_nul_free_concat("{"@ + join(es), "}"@);
}

proof fn lemma_pair_nul_free(a: Seq<char>, x: Seq<char>, b: Seq<char>, y: Seq<char>)
    requires
        nul_free(a),
        nul_free(b),
    ensures
        nul_free(a + number_json(x) + b + number_json(y) + "}"@),
{
    reveal_strlit("}");
    lemma_number_json_nul_free(x);
    lemma_number_json_nul_free(y);
    lemma_nul_free_concat(a, number_json(x));
    lemma_nul_free_concat(a + number_json(x), b);
    lemma_nul_free_concat(a + number_json(x) + b, number_json(y));
    lemma_nul_free_concat(a + number_json(x) + b + number_json(y), "}"@);
}

proof fn lemma_member_nul_free(head: Seq<char>, es: Seq<Seq<char>>)
    requires
        nul_free(head),
        forall|i: int| 0 <= i < es.len() ==> nul_free(#[trigger] es[i]),
    ensures
        nul_free(head + join(es) + "]"@),
{
    reveal_strlit("]");
    lemma_join_nul_free(es);
    lemma_nul_free_concat(head, join(es));
    lemma_nul_free_concat(head + join(es), "]"@);
}

proof fn lemma_details_nul_free(v: MetricValue)
    ensures
        details_of(v) matches Some(t) ==> nul_free(t),
{
    reveal_strlit("{\"count\":");
    reveal_strlit(", \"sum\":");
    reveal_strlit("}");
    let (count, sum, member) = match v {
        MetricValue::Histogram { count, sum, buckets } => {
            if buckets@.len() > 0 {
                reveal_strlit(", \"buckets\":[");
                reveal_strlit("{\"upper_bound\":");
                reveal_strlit(", \"count\":");
                let es = buckets@.map_values(|b: Bucket| bucket_entry(b));
                assert forall|i: int| 0 <= i < es.len() implies nul_free(#[trigger] es[i]) by {
                    let b = buckets@[i];
                    lemma_pair_nul_free(
                        "{\"upper_bound\":"@,
                        b.upper_bound.text@,
                        ", \"count\":"@,
                        b.count.text@,
                    );
                }
                lemma_member_nul_free(", \"buckets\":["@, es);
            }
            (count, sum, buckets_member(buckets@))
        },
        MetricValue::Summary { count, sum, quantiles } => {
            if quantiles@.len() > 0 {
                reveal_strlit(", \"quantiles\":[");
                reveal_strlit("{\"quantile\":");
                reveal_strlit(", \"value\":");
                let es = quantiles@.map_values(|q: Quantile| quantile_entry(q));
                assert forall|i: int| 0 <= i < es.len() implies nul_free(#[trigger] es[i]) by {
                    let q = quantiles@[i];
                    lemma_pair_nul_free(
                        "{\"quantile\":"@,
                        q.quantile.text@,
                        ", \"value\":"@,
                        q.value.text@,
                    );
                }
                lemma_member_nul_free(", \"quantiles\":["@, es);
            }
            (count, sum, quantiles_member(quantiles@))
        },
        _ => (None, None, Seq::empty()),
    };
    if details_of(v) is Some {
        let n = number_json(sum_text(sum));
        lemma_decimal_nul_free(count_or_zero(count) as nat);
        lemma_number_json_nul_free(sum_text(sum));
        lemma_nul_free_concat("{\"count\":"@, decimal(count_or_zero(count) as nat));
        lemma_nul_free_concat("{\"count\":"@ + decimal(count_or_zero(count) as nat), ", \"sum\":"@);
        lemma_nul_free_concat("{\"count\":"@ + decimal(count_or_zero(count) as nat) + ", \"sum\":"@, n);
        lemma_nul_free_concat(
            "{\"count\":"@ + decimal(count_or_zero(count) as nat) + ", \"sum\":"@ + n,
            member,
        );
        lemma_nul_free_concat(
            "{\"count\":"@ + decimal(count_or_zero(count) as nat) + ", \"sum\":"@ + n + member,
            "}"@,
        );
    }
}

/// The row of a sample holds no NUL character where its family's name and
/// unit and the source hold none.
pub proof fn lemma_row_nul_free(
    r: OutputRow,
    f: MetricFamily,
    s: MetricSample,
    source: Seq<char>,
    now: u64,
)
    requires
        row_matches(r, f, s, source, now),
        nul_free(f.name@),
        nul_free(f.unit@),
        nul_free(source),
    ensures
        row_nul_free(r),
{
    match f.kind {
        MetricKind::Counter => reveal_strlit("counter"),
        MetricKind::Gauge => reveal_strlit("gauge"),
        MetricKind::Histogram => reveal_strlit("histogram"),
        MetricKind::Summary => reveal_strlit("summary"),
        MetricKind::Untyped => reveal_strlit("untyped"),
        MetricKind::Unknown => reveal_strlit("unknown"),
    }
    lemma_labels_nul_free(s.labels@);
    lemma_details_nul_free(s.value);
}

} // verus!
