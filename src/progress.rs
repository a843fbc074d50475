use vstd::prelude::*;

verus! {

/// A progress line is printed each time this many more lines are done.
pub const REPORT_EVERY: usize = 10;

pub open spec fn report_due(completed: nat) -> bool {
    completed > 0 && completed % (REPORT_EVERY as nat) == 0
}

/// The counts at which a run of `total` lines prints progress, in order:
/// 10, 20, 30, ... up to `total`.
pub open spec fn report_marks(total: nat) -> Seq<nat> {
    Seq::new(total / (REPORT_EVERY as nat), |k: int| ((k + 1) * REPORT_EVERY) as nat)
}

/// Whether a progress line is due once `completed` lines are done.
pub fn progress_due(completed: usize) -> (r: bool)
    ensures
        r == report_due(completed as nat),
{
    completed > 0 && completed % REPORT_EVERY == 0
}

/// Over a run of `total` lines, progress is printed at exactly the counts
/// 10, 20, 30, ... that do not exceed `total`, once each.
pub proof fn lemma_reports_fire_at_marks(total: nat)
    ensures
        forall|c: nat| 1 <= c <= total ==> (report_due(c) <==> #[trigger] report_marks(total).contains(c)),
        forall|k: int| 0 <= k < report_marks(total).len() ==> 1 <= #[trigger] report_marks(total)[k] <= total,
        report_marks(total).len() == total / 10,
{
    let m = report_marks(total);
    assert forall|k: int| 0 <= k < m.len() implies 1 <= #[trigger] m[k] <= total && report_due(m[k]) by {
        assert((k + 1) * 10 <= total) by (nonlinear_arith)
            requires
                0 <= k < total / 10,
        ;
        assert(((k + 1) * 10) % 10 == 0) by (nonlinear_arith);
    }
    assert forall|c: nat| 1 <= c <= total implies (report_due(c) <==> #[trigger] m.contains(c)) by {
        if report_due(c) {
            let k = c / 10 - 1;
            assert(0 <= k < total / 10 && (k + 1) * 10 == c) by (nonlinear_arith)
                requires
                    1 <= c <= total,
                    c % 10 == 0,
                    k == c / 10 - 1,
            ;
            assert(m[k] == c);
        }
    }
}

} // verus!
