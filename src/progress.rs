use vstd::prelude::*;

verus! {

/// The number of most recent answers that the recent average covers.
pub const RECENT_WINDOW: usize = 10;

/// The margin, in score points, by which one half's average must exceed the
/// other's to count as a change.
pub const TREND_MARGIN: i128 = 5;

/// How scores moved from the older half of the answers to the newer half.
#[derive(Debug, Clone, Copy, PartialEq, Eq, Structural)]
pub enum Trend {
    Improving,
    Declining,
    Stable,
}

impl Trend {
    pub fn as_str(&self) -> (r: &'static str)
        ensures
            r@ == match *self {
                Trend::Improving => "improving"@,
                Trend::Declining => "declining"@,
                Trend::Stable => "stable"@,
            },
    {
        match self {
            Trend::Improving => "improving",
            Trend::Declining => "declining",
            Trend::Stable => "stable",
        }
    }
}

/// The scores among `h`, in the same order.
pub open spec fn scores_of(h: Seq<Option<i32>>) -> Seq<int>
    decreases h.len(),
{
    if h.len() == 0 {
        Seq::empty()
    } else {
        scores_of(h.drop_last()) + match h.last() {
            Some(s) => seq![s as int],
            None => Seq::empty(),
        }
    }
}

pub open spec fn sum_of(s: Seq<int>) -> int
    decreases s.len(),
{
    if s.len() == 0 {
        0
    } else {
        sum_of(s.drop_last()) + s.last()
    }
}

/// The trend of scores listed newest first, once there are at least four:
/// the newer half (the larger one when the count is odd) against the older
/// half, compared by their exact averages with a margin of 5 points.
pub open spec fn trend_of(s: Seq<int>) -> Option<Trend> {
    if s.len() < 4 {
        None
    } else {
        let older_n = s.len() / 2;
        let newer_n = s.len() - older_n;
        let older = sum_of(s.skip(newer_n as int));
        let newer = sum_of(s.take(newer_n as int));
        if newer * older_n > (older + 5 * older_n) * newer_n {
            Some(Trend::Improving)
        } else if older * newer_n > (newer + 5 * newer_n) * older_n {
            Some(Trend::Declining)
        } else {
            Some(Trend::Stable)
        }
    }
}

/// Learning statistics over an answer history: averages are given exactly, as
/// a sum of scores over a count of scored answers.
pub struct ProgressSummary {
    pub total_questions_answered: usize,
    pub score_sum: i128,
    pub score_count: usize,
    pub recent_score_sum: i128,
    pub recent_score_count: usize,
    pub improvement_trend: Option<Trend>,
}

proof fn lemma_scores_len(h: Seq<Option<i32>>)
    ensures
        scores_of(h).len() <= h.len(),
    decreases h.len(),
{
    if h.len() > 0 {
        lemma_scores_len(h.drop_last());
    }
}

proof fn lemma_sum_bound(s: Seq<int>)
    requires
        forall|i: int| 0 <= i < s.len() ==> i32::MIN <= #[trigger] s[i] <= i32::MAX,
    ensures
        s.len() * i32::MIN <= sum_of(s) <= s.len() * i32::MAX,
    decreases s.len(),
{
    if s.len() > 0 {
        lemma_sum_bound(s.drop_last());
        assert(s.last() == s[s.len() - 1]);
    }
}

proof fn lemma_scores_range(h: Seq<Option<i32>>)
    ensures
        forall|i: int| 0 <= i < scores_of(h).len() ==> i32::MIN <= #[trigger] scores_of(h)[i] <= i32::MAX,
    decreases h.len(),
{
    if h.len() > 0 {
        lemma_scores_range(h.drop_last());
        let a = scores_of(h.drop_last());
        let b = match h.last() {
            Some(s) => seq![s as int],
            None => Seq::<int>::empty(),
        };
        assert forall|i: int| 0 <= i < scores_of(h).len() implies i32::MIN <= #[trigger] scores_of(h)[i] <= i32::MAX by {
            if i < a.len() {
                assert(scores_of(h)[i] == a[i]);
            } else {
                assert(scores_of(h)[i] == b[i - a.len()]);
            }
        }
    }
}

fn collect_scores(history: &Vec<Option<i32>>, upto: usize) -> (r: Vec<i32>)
    requires
        upto <= history.len(),
    ensures
        r@.map_values(|x: i32| x as int) == scores_of(history@.take(upto as int)),
{
    let mut r: Vec<i32> = Vec::new();
    let mut i: usize = 0;
    while i < upto
        invariant
            i <= upto <= history.len(),
            r@.map_values(|x: i32| x as int) == scores_of(history@.take(i as int)),
        decreases upto - i,
    {
        assert(history@.take(i + 1).drop_last() == history@.take(i as int));
        assert(history@.take(i + 1).last() == history@[i as int]);
        match history[i] {
            Some(s) => {
                r.push(s);
                assert(r@.map_values(|x: i32| x as int) =~= scores_of(history@.take(i as int)) + seq![s as int]);
            },
            None => {
                assert(scores_of(history@.take(i as int)) + Seq::<int>::empty() == scores_of(history@.take(i as int)));
            },
        }
        i = i + 1;
    }
    r
}

fn sum_range(v: &Vec<i32>, lo: usize, hi: usize) -> (r: i128)
    requires
        lo <= hi <= v.len(),
        v.len() <= u32::MAX,
    ensures
        r == sum_of(v@.map_values(|x: i32| x as int).subrange(lo as int, hi as int)),
{
    let ghost s = v@.map_values(|x: i32| x as int);
    let mut total: i128 = 0;
    let mut k: usize = lo;
    assert(s.subrange(lo as int, lo as int) == Seq::<int>::empty());
    while k < hi
        invariant
            lo <= k <= hi <= v.len(),
            v.len() <= u32::MAX,
            s == v@.map_values(|x: i32| x as int),
            total == sum_of(s.subrange(lo as int, k as int)),
            (k - lo) * i32::MIN <= total <= (k - lo) * i32::MAX,
        decreases hi - k,
    {
        assert(s.subrange(lo as int, k + 1).drop_last() == s.subrange(lo as int, k as int));
        assert(s[k as int] == v@[k as int] as int);
        assert((k + 1 - lo) * i32::MAX == (k - lo) * i32::MAX + i32::MAX) by (nonlinear_arith);
        assert((k + 1 - lo) * i32::MIN == (k - lo) * i32::MIN + i32::MIN) by (nonlinear_arith);
        assert((k - lo) * i32::MAX <= u32::MAX * i32::MAX) by (nonlinear_arith)
            requires k - lo <= u32::MAX;
        assert((k - lo) * i32::MIN >= u32::MAX * i32::MIN) by (nonlinear_arith)
            requires k - lo <= u32::MAX;
        total = total + v[k] as i128;
        k = k + 1;
    }
    total
}

/// The statistics of a history of answers listed newest first, each with its
/// score when it was graded.
pub fn summarize_progress(history: &Vec<Option<i32>>) -> (r: ProgressSummary)
    requires
        history.len() <= u32::MAX,
    ensures
        r.total_questions_answered == history.len(),
        r.score_count == scores_of(history@).len(),
        r.score_sum == sum_of(scores_of(history@)),
        r.recent_score_count == scores_of(history@.take(if history.len() < 10 { history.len() as int } else { 10 })).len(),
        r.recent_score_sum == sum_of(scores_of(history@.take(if history.len() < 10 { history.len() as int } else { 10 }))),
        r.improvement_trend == trend_of(scores_of(history@)),
{
    assert(history@.take(history.len() as int) == history@);
    let scores = collect_scores(history, history.len());
    let window = if history.len() < RECENT_WINDOW {
        history.len()
    } else {
        RECENT_WINDOW
    };
    let recent = collect_scores(history, window);
    proof {
        lemma_scores_len(history@);
        lemma_scores_len(history@.take(window as int));
    }
    let ghost s = scores@.map_values(|x: i32| x as int);
    assert(s.subrange(0, scores.len() as int) == s);
    let n = scores.len();
    let score_sum = sum_range(&scores, 0, n);
    assert(recent@.map_values(|x: i32| x as int).subrange(0, recent.len() as int) == recent@.map_values(|x: i32| x as int));
    let recent_sum = sum_range(&recent, 0, recent.len());
    let trend = if n < 4 {
        None
    } else {
        let older_n = n / 2;
        let newer_n = n - older_n;
        assert(s.subrange(newer_n as int, n as int) == s.skip(newer_n as int));
        assert(s.subrange(0, newer_n as int) == s.take(newer_n as int));
        let older = sum_range(&scores, newer_n, n);
        let newer = sum_range(&scores, 0, newer_n);
        proof {
            lemma_scores_range(history@);
            lemma_sum_bound(s.skip(newer_n as int));
            lemma_sum_bound(s.take(newer_n as int));
            assert(older_n * i32::MIN <= older <= older_n * i32::MAX);
            assert(newer_n * i32::MIN <= newer <= newer_n * i32::MAX);
            assert(older_n * i32::MAX <= u32::MAX * i32::MAX) by (nonlinear_arith)
                requires older_n <= u32::MAX;
            assert(older_n * i32::MIN >= u32::MAX * i32::MIN) by (nonlinear_arith)
                requires older_n <= u32::MAX;
            assert(newer_n * i32::MAX <= u32::MAX * i32::MAX) by (nonlinear_arith)
                requires newer_n <= u32::MAX;
            assert(newer_n * i32::MIN >= u32::MAX * i32::MIN) by (nonlinear_arith)
                requires newer_n <= u32::MAX;
        }
        let on = older_n as i128;
        let nn = newer_n as i128;
        assert(-0x8000_0000_0000_0000_0000_0000 <= newer * on <= 0x8000_0000_0000_0000_0000_0000)
            by (nonlinear_arith)
            requires
                -0x8000_0000_0000_0000 <= newer <= 0x8000_0000_0000_0000,
                0 <= on <= 0x1_0000_0000,
        ;
        assert(-0x8000_0000_0000_0000_0000_0000 <= older * nn <= 0x8000_0000_0000_0000_0000_0000)
            by (nonlinear_arith)
            requires
                -0x8000_0000_0000_0000 <= older <= 0x8000_0000_0000_0000,
                0 <= nn <= 0x1_0000_0000,
        ;
        assert(0 <= 5 * on * nn <= 0x8_0000_0000_0000_0000) by (nonlinear_arith)
            requires
                0 <= on <= 0x1_0000_0000,
                0 <= nn <= 0x1_0000_0000,
        ;
        let a = newer * on;
        let b = older * nn;
        let m = TREND_MARGIN * on * nn;
        assert((older + 5 * on) * nn == b + m) by (nonlinear_arith)
            requires
                b == older * nn,
                m == 5 * on * nn,
        ;
        assert((newer + 5 * nn) * on == a + m) by (nonlinear_arith)
            requires
                a == newer * on,
                m == 5 * on * nn,
        ;
        if a > b + m {
            Some(Trend::Improving)
        } else if b > a + m {
            Some(Trend::Declining)
        } else {
            Some(Trend::Stable)
        }
    };
    ProgressSummary {
        total_questions_answered: history.len(),
        score_sum,
        score_count: n,
        recent_score_sum: recent_sum,
        recent_score_count: recent.len(),
        improvement_trend: trend,
    }
}

} // verus!
