//! The MRR chart: rows of MRR movements per day, as one series per plan or
//! as a single total series.
use vstd::prelude::*;

verus! {

/// A number of subscriptions and the MRR they moved.
#[derive(Debug, Clone, Copy, PartialEq, Eq)]
pub struct CountAndValue {
    pub count: i64,
    pub value: i64,
}

/// The MRR movements of one day.
#[derive(Debug, Clone, Copy, PartialEq, Eq)]
pub struct MrrBreakdown {
    pub new_business: CountAndValue,
    pub expansion: CountAndValue,
    pub contraction: CountAndValue,
    pub churn: CountAndValue,
    pub reactivation: CountAndValue,
    pub net_new_mrr: i64,
    pub total_net_mrr: i64,
}

/// One point of a series: the day, as text, and its movements.
#[derive(Debug)]
pub struct MrrChartDataPoint {
    pub x: String,
    pub data: MrrBreakdown,
}

/// The plan a series is about.
#[derive(Debug)]
pub struct PlanBrief {
    pub id: u128,
    pub name: String,
}

/// A named series of points.
#[derive(Debug)]
pub struct MrrChartSeries {
    pub name: String,
    pub code: String,
    pub plan: Option<PlanBrief>,
    pub data: Vec<MrrChartDataPoint>,
}

/// A day of MRR movements of one plan. `plan_key` is the plan id as text.
#[derive(Debug)]
pub struct PlanMrrRow {
    pub date: String,
    pub plan_id: u128,
    pub plan_key: String,
    pub plan_name: String,
    pub data: MrrBreakdown,
}

/// A day of MRR movements over all plans.
#[derive(Debug)]
pub struct TotalMrrRow {
    pub period: String,
    pub data: MrrBreakdown,
}

/// The view of a point.
pub open spec fn point_view(p: MrrChartDataPoint) -> (Seq<char>, MrrBreakdown) {
    (p.x@, p.data)
}

/// The views of a series' points.
pub open spec fn points_view(points: Seq<MrrChartDataPoint>) -> Seq<(Seq<char>, MrrBreakdown)> {
    points.map_values(|p: MrrChartDataPoint| point_view(p))
}

/// The points of the rows of the plan named `name`, in row order.
pub open spec fn plan_points(rows: Seq<PlanMrrRow>, name: Seq<char>) -> Seq<(Seq<char>, MrrBreakdown)>
    decreases rows.len(),
{
    if rows.len() == 0 {
        seq![]
    } else {
        plan_points(rows.drop_last(), name) + if rows.last().plan_name@ == name {
            seq![(rows.last().date@, rows.last().data)]
        } else {
            Seq::<(Seq<char>, MrrBreakdown)>::empty()
        }
    }
}

/// The first row of the plan named `name`.
pub open spec fn first_named(rows: Seq<PlanMrrRow>, name: Seq<char>) -> Option<PlanMrrRow>
    decreases rows.len(),
{
    if rows.len() == 0 {
        None
    } else {
        match first_named(rows.drop_last(), name) {
            Some(r) => Some(r),
            None => if rows.last().plan_name@ == name { Some(rows.last()) } else { None },
        }
    }
}

/// The code of the series of a plan.
pub open spec fn plan_series_code(plan_key: Seq<char>) -> Seq<char> {
    "mrr_breakdown_plan_"@ + plan_key
}

/// `s` is the series of its plan in `rows`: named after the plan, described
/// by the plan's first row, with the points of all its rows.
pub open spec fn is_plan_series(rows: Seq<PlanMrrRow>, s: MrrChartSeries) -> bool {
    &&& first_named(rows, s.name@) matches Some(r)
    &&& s.code@ == plan_series_code(r.plan_key@)
    &&& s.plan matches Some(p)
    &&& p.id == r.plan_id
    &&& p.name@ == r.plan_name@
    &&& points_view(s.data@) == plan_points(rows, s.name@)
}

/// Some series is named `name`.
pub open spec fn has_series(series: Seq<MrrChartSeries>, name: Seq<char>) -> bool {
    exists|i: int| #![trigger series[i]] 0 <= i < series.len() && series[i].name@ == name
}

/// The code of a plan's series.
fn plan_series_code_text(plan_key: &String) -> (s: String)
    ensures
        s@ == plan_series_code(plan_key@),
{
    let mut s = "mrr_breakdown_plan_".to_owned();
    s.append(plan_key.as_str());
    s
}

proof fn lemma_absent_name(rows: Seq<PlanMrrRow>, name: Seq<char>)
    requires
        forall|k: int| 0 <= k < rows.len() ==> (#[trigger] rows[k]).plan_name@ != name,
    ensures
        first_named(rows, name) is None,
        plan_points(rows, name) == Seq::<(Seq<char>, MrrBreakdown)>::empty(),
    decreases rows.len(),
{
    if rows.len() > 0 {
        lemma_absent_name(rows.drop_last(), name);
        assert(rows.last() == rows[rows.len() - 1]);
        assert(plan_points(rows, name) =~= plan_points(rows.drop_last(), name));
    }
}

proof fn lemma_prefix_step(rows: Seq<PlanMrrRow>, i: int, name: Seq<char>)
    requires
        0 <= i < rows.len(),
    ensures
        first_named(rows.take(i + 1), name) == (match first_named(rows.take(i), name) {
            Some(r) => Some(r),
            None => if rows[i].plan_name@ == name { Some(rows[i]) } else { None },
        }),
        plan_points(rows.take(i + 1), name) == plan_points(rows.take(i), name) + if rows[i].plan_name@ == name {
            seq![(rows[i].date@, rows[i].data)]
        } else {
            Seq::<(Seq<char>, MrrBreakdown)>::empty()
        },
{
    assert(rows.take(i + 1).drop_last() =~= rows.take(i));
    assert(rows.take(i + 1).last() == rows[i]);
}

proof fn lemma_points_view_push(points: Seq<MrrChartDataPoint>, p: MrrChartDataPoint)
    ensures
        points_view(points.push(p)) == points_view(points).push(point_view(p)),
{
    assert(points_view(points.push(p)) =~= points_view(points).push(point_view(p)));
}

/// Splits per-plan MRR rows into one series per plan name (in order of first
/// appearance), each with its rows' points in order and described by the
/// plan of its first row.
pub fn mrr_series_by_plan(rows: &Vec<PlanMrrRow>) -> (r: Vec<MrrChartSeries>)
    ensures
        forall|i: int| 0 <= i < r@.len() ==> is_plan_series(rows@, #[trigger] r@[i]),
        forall|i: int, j: int| #![trigger r@[i], r@[j]] 0 <= i < j < r@.len() ==> r@[i].name@ != r@[j].name@,
        forall|k: int| 0 <= k < rows@.len() ==> #[trigger] has_series(r@, rows@[k].plan_name@),
{
    let mut out: Vec<MrrChartSeries> = Vec::new();
    let mut i: usize = 0;
    while i < rows.len()
        invariant
            i <= rows@.len(),
            forall|m: int| 0 <= m < out@.len() ==> is_plan_series(rows@.take(i as int), #[trigger] out@[m]),
            forall|a: int, b: int| #![trigger out@[a], out@[b]] 0 <= a < b < out@.len() ==> out@[a].name@ != out@[b].name@,
            forall|k: int| 0 <= k < i ==> #[trigger] has_series(out@, rows@[k].plan_name@),
        decreases rows@.len() - i,
    {
        let row = &rows[i];
        let ghost t = rows@.take(i as int);
        let ghost t1 = rows@.take(i + 1);
        let mut found: Option<usize> = None;
        let mut k: usize = 0;
        while k < out.len()
            invariant
                k <= out@.len(),
                found matches Some(f) ==> f < out@.len() && out@[f as int].name@ == row.plan_name@,
                found is None ==> forall|m: int| 0 <= m < k ==> (#[trigger] out@[m]).name@ != row.plan_name@,
            decreases out@.len() - k,
        {
            if found.is_none() && out[k].name == row.plan_name {
                found = Some(k);
            }
            k = k + 1;
        }
        let point = MrrChartDataPoint { x: row.date.clone(), data: row.data };
        match found {
            Some(f) => {
                let ghost before = out@;
                let mut s = out.remove(f);
                let ghost pv = point_view(point);
                proof {
                    assert(s == before[f as int]);
                    lemma_points_view_push(s.data@, point);
                    assert(pv == (row.date@, row.data));
                }
                s.data.push(point);
                let ghost s1 = s;
                proof {
                    assert(points_view(s1.data@) == points_view(before[f as int].data@).push(pv));
                    assert(s1.name == before[f as int].name);
                    assert(s1.code == before[f as int].code);
                    assert(s1.plan == before[f as int].plan);
                    assert(*row == rows@[i as int]);
                    lemma_prefix_step(rows@, i as int, s1.name@);
                    assert(is_plan_series(t, before[f as int]));
                    assert(before[f as int].name@ == row.plan_name@);
                    assert(plan_points(t, s1.name@) + seq![(row.date@, row.data)] =~= plan_points(t, s1.name@).push(pv));
                    assert(is_plan_series(t1, s1));
                }
                out.insert(f, s);
                proof {
                    assert(out@ =~= before.update(f as int, s1));
                    assert forall|m: int| 0 <= m < out@.len() implies is_plan_series(t1, #[trigger] out@[m]) by {
                        lemma_prefix_step(rows@, i as int, out@[m].name@);
                        assert(is_plan_series(t, before[m]));
                        if m == f {
                            assert(out@[m] == s1);
                        } else {
                            assert(out@[m] == before[m]);
                            if (m as int) < (f as int) {
                                assert(before[m].name@ != before[f as int].name@);
                            } else {
                                assert(before[f as int].name@ != before[m].name@);
                            }
                        }
                    }
                    assert forall|a: int, b: int| #![trigger out@[a], out@[b]] 0 <= a < b < out@.len() implies out@[a].name@ != out@[b].name@ by {
                        assert(before[a].name@ != before[b].name@);
                    }
                    assert forall|kk: int| 0 <= kk < i + 1 implies #[trigger] has_series(out@, rows@[kk].plan_name@) by {
                        if kk < i {
                            assert(has_series(before, rows@[kk].plan_name@));
                            let w = choose|w: int| #![trigger before[w]] 0 <= w < before.len() && before[w].name@ == rows@[kk].plan_name@;
                            assert(out@[w].name@ == before[w].name@);
                        } else {
                            assert(out@[f as int].name@ == rows@[kk].plan_name@);
                        }
                    }
                }
            },
            None => {
                let name = row.plan_name.clone();
                let code = plan_series_code_text(&row.plan_key);
                let plan = Some(PlanBrief { id: row.plan_id, name: row.plan_name.clone() });
                let mut data: Vec<MrrChartDataPoint> = Vec::new();
                proof {
                    lemma_points_view_push(data@, point);
                }
                data.push(point);
                let ghost before = out@;
                let s = MrrChartSeries { name, code, plan, data };
                out.push(s);
                proof {
                    assert forall|kk: int| 0 <= kk < t.len() implies (#[trigger] t[kk]).plan_name@ != row.plan_name@ by {
                        assert(t[kk] == rows@[kk]);
                        assert(has_series(before, rows@[kk].plan_name@));
                    }
                    lemma_absent_name(t, row.plan_name@);
                    assert forall|m: int| 0 <= m < out@.len() implies is_plan_series(t1, #[trigger] out@[m]) by {
                        lemma_prefix_step(rows@, i as int, out@[m].name@);
                        if m < before.len() {
                            assert(out@[m] == before[m]);
                            assert(is_plan_series(t, before[m]));
                        } else {
                            assert(points_view(s.data@) =~= seq![(row.date@, row.data)]);
                            assert(plan_points(t1, s.name@) =~= seq![(row.date@, row.data)]);
                        }
                    }
                    assert forall|a: int, b: int| #![trigger out@[a], out@[b]] 0 <= a < b < out@.len() implies out@[a].name@ != out@[b].name@ by {
                        if b < before.len() {
                            assert(before[a].name@ != before[b].name@);
                        } else {
                            assert(out@[a] == before[a]);
                        }
                    }
                    assert forall|kk: int| 0 <= kk < i + 1 implies #[trigger] has_series(out@, rows@[kk].plan_name@) by {
                        if kk < i {
                            assert(has_series(before, rows@[kk].plan_name@));
                            let w = choose|w: int| #![trigger before[w]] 0 <= w < before.len() && before[w].name@ == rows@[kk].plan_name@;
                            assert(out@[w] == before[w]);
                        } else {
                            assert(out@[before.len() as int].name@ == rows@[kk].plan_name@);
                        }
                    }
                }
            },
        }
        i = i + 1;
    }
    assert(rows@.take(i as int) =~= rows@);
    out
}

/// The single series of total MRR: every row as a point, in order.
pub fn total_mrr_series(rows: &Vec<TotalMrrRow>) -> (s: MrrChartSeries)
    ensures
        s.name@ == "Total MRR"@,
        s.code@ == "total_mrr"@,
        s.plan is None,
        s.data@.len() == rows@.len(),
        forall|k: int| 0 <= k < rows@.len() ==> #[trigger] point_view(s.data@[k]) == (rows@[k].period@, rows@[k].data),
{
    let mut data: Vec<MrrChartDataPoint> = Vec::new();
    let mut i: usize = 0;
    while i < rows.len()
        invariant
            i <= rows@.len(),
            data@.len() == i,
            forall|k: int| 0 <= k < i ==> #[trigger] point_view(data@[k]) == (rows@[k].period@, rows@[k].data),
        decreases rows@.len() - i,
    {
        data.push(MrrChartDataPoint { x: rows[i].period.clone(), data: rows[i].data });
        i = i + 1;
    }
    MrrChartSeries { name: "Total MRR".to_owned(), code: "total_mrr".to_owned(), plan: None, data }
}

/// The chart is split by plan when the request selects at least one plan.
pub fn mrr_split_by_plan(plans_id: &Option<Vec<u128>>) -> (b: bool)
    ensures
        b == (plans_id matches Some(ids) && ids@.len() > 0),
{
    match plans_id {
        Some(ids) => ids.len() > 0,
        None => false,
    }
}

} // verus!
