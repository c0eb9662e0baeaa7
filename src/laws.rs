use vstd::prelude::*;
use crate::countdown::{countdown_of, rank, sorted_by_rank, with_rank};
use crate::outcome::{
    classified, normalized, record_of_bus, records_of, well_formed_bus, BusPrediction,
    BusTimesPredictions, FailureKind, OutcomeView, STATUS_UNAUTHORIZED,
};
use crate::color::{color_of, COUNTDOWN_WHITE, ROUTE_ORANGE, SIGN_GREY};
use crate::layout::{frame_items, row_items, row_y, LEFT_MARGIN};
use crate::record::ArrivalRecord;

verus! {

broadcast use vstd::seq_lib::to_multiset_build;

proof fn lemma_records_of_all_well_formed(prd: Seq<BusPrediction>)
    requires
        forall|i: int| 0 <= i < prd.len() ==> well_formed_bus(#[trigger] prd[i]),
    ensures
        records_of(prd).len() == prd.len(),
        forall|i: int| 0 <= i < prd.len() ==> #[trigger] records_of(prd)[i] == record_of_bus(prd[i]),
    decreases prd.len(),
{
    if prd.len() > 0 {
        let d = prd.drop_last();
        assert forall|i: int| 0 <= i < d.len() implies well_formed_bus(#[trigger] d[i]) by {
            assert(d[i] == prd[i]);
        }
        assert(well_formed_bus(prd[prd.len() - 1]));
        lemma_records_of_all_well_formed(d);
        assert forall|i: int| 0 <= i < prd.len() implies #[trigger] records_of(prd)[i]
            == record_of_bus(prd[i]) by {
            if i < d.len() {
                assert(d[i] == prd[i]);
            }
        }
    }
}

/// A body with predictions and no service errors gives arrivals: one record
/// for each prediction, in the order of the predictions. Every prediction is
/// taken to carry a route and a countdown label; a malformed one is dropped.
pub proof fn predictions_become_arrivals(p: BusTimesPredictions)
    requires
        p.prd@.len() > 0,
        p.error@.len() == 0,
        forall|i: int| 0 <= i < p.prd@.len() ==> well_formed_bus(#[trigger] p.prd@[i]),
    ensures
        normalized(p) is Arrivals,
        normalized(p)->Arrivals_0.len() == p.prd@.len(),
        forall|i: int|
            0 <= i < p.prd@.len() ==> #[trigger] normalized(p)->Arrivals_0[i] == record_of_bus(
                p.prd@[i],
            ),
{
    lemma_records_of_all_well_formed(p.prd@);
}

/// A body with no predictions and some service errors gives those service
/// errors, never an empty list of arrivals.
pub proof fn errors_become_service_errors(p: BusTimesPredictions)
    requires
        p.prd@.len() == 0,
        p.error@.len() > 0,
    ensures
        normalized(p) == OutcomeView::ServiceErrors(p.error@),
        !(normalized(p) is Arrivals),
{
}

/// Normalizing the same body twice gives the same outcome.
pub proof fn normalize_is_deterministic(p: BusTimesPredictions, q: BusTimesPredictions)
    requires
        p == q,
    ensures
        normalized(p) == normalized(q),
{
}

/// A response with status 401 is an unauthorized failure, whatever its body.
pub proof fn unauthorized_ignores_body(body: Option<BusTimesPredictions>)
    ensures
        classified(STATUS_UNAUTHORIZED, body) == OutcomeView::TransportFailure(
            FailureKind::Unauthorized,
        ),
{
}

proof fn lemma_count_in_rank(s: Seq<ArrivalRecord>, x: ArrivalRecord)
    ensures
        s.to_multiset().count(x) == with_rank(s, rank(x)).to_multiset().count(x),
    decreases s.len(),
{
    if s.len() == 0 {
        assert(with_rank(s, rank(x)) =~= s);
    } else {
        let d = s.drop_last();
        let l = s.last();
        assert(s =~= d.push(l));
        lemma_count_in_rank(d, x);
        assert(s.to_multiset() =~= d.to_multiset().insert(l));
        if rank(l) == rank(x) {
            assert(with_rank(s, rank(x)) == with_rank(d, rank(x)).push(l));
            assert(with_rank(s, rank(x)).to_multiset() =~= with_rank(d, rank(x)).to_multiset().insert(
                l,
            ));
        } else {
            assert(l != x);
        }
    }
}

/// What the countdown sort promises, spelled out: ranks ascend, labels
/// without a countdown come before every countdown, records of equal rank
/// keep their order, and no record is lost or added.
pub proof fn countdown_order(input: Seq<ArrivalRecord>, output: Seq<ArrivalRecord>)
    requires
        sorted_by_rank(output),
        forall|k: int| #[trigger] with_rank(output, k) == with_rank(input, k),
    ensures
        forall|i: int, j: int| 0 <= i < j < output.len() ==> rank(output[i]) <= rank(output[j]),
        forall|i: int, j: int|
            0 <= i < output.len() && 0 <= j < output.len() && countdown_of(output[i].eta@) is None
                && countdown_of(output[j].eta@) is Some ==> i < j,
        forall|k: int| #[trigger] with_rank(output, k) == with_rank(input, k),
        output.to_multiset() == input.to_multiset(),
{
    assert forall|i: int, j: int|
        0 <= i < output.len() && 0 <= j < output.len() && countdown_of(output[i].eta@) is None
            && countdown_of(output[j].eta@) is Some implies i < j by {
        if j <= i {
            if j < i {
                assert(rank(output[j]) <= rank(output[i]));
            }
        }
    }
    assert forall|x: ArrivalRecord| output.to_multiset().count(x) == input.to_multiset().count(
        x,
    ) by {
        lemma_count_in_rank(output, x);
        lemma_count_in_rank(input, x);
        assert(with_rank(output, rank(x)) == with_rank(input, rank(x)));
    }
    assert(output.to_multiset() =~= input.to_multiset());
}

proof fn lemma_records_of_renderable(prd: Seq<BusPrediction>)
    ensures
        forall|i: int|
            0 <= i < records_of(prd).len() ==> (#[trigger] records_of(prd)[i]).renderable(),
    decreases prd.len(),
{
    if prd.len() > 0 {
        let d = prd.drop_last();
        lemma_records_of_renderable(d);
        if well_formed_bus(prd.last()) {
            assert forall|i: int|
                0 <= i < records_of(prd).len() implies (
                #[trigger] records_of(prd)[i]).renderable() by {
                if i < records_of(d).len() {
                    assert(records_of(prd)[i] == records_of(d)[i]);
                }
            }
        }
    }
}

/// Every arrival that normalizing gives has a route and an arrival label:
/// malformed predictions never reach the sign.
pub proof fn normalized_arrivals_are_renderable(p: BusTimesPredictions)
    ensures
        normalized(p) is Arrivals ==> forall|i: int|
            0 <= i < normalized(p)->Arrivals_0.len() ==> (
            #[trigger] normalized(p)->Arrivals_0[i]).renderable(),
{
    lemma_records_of_renderable(p.prd@);
}

/// The three columns of a row are drawn in three different colours.
pub proof fn row_columns_have_distinct_colors(rec: ArrivalRecord, x: i32, y: i32)
    ensures
        row_items(rec, x, y)[0].color != row_items(rec, x, y)[1].color,
        row_items(rec, x, y)[1].color != row_items(rec, x, y)[2].color,
        row_items(rec, x, y)[0].color != row_items(rec, x, y)[2].color,
{
    assert(color_of(ROUTE_ORANGE).b != color_of(COUNTDOWN_WHITE).b);
    assert(color_of(COUNTDOWN_WHITE).r != color_of(SIGN_GREY).r);
    assert(color_of(ROUTE_ORANGE).r != color_of(SIGN_GREY).r);
}

/// A frame shows the records top to bottom: the texts of row `i` are those of
/// record `i`, at the baseline of row `i`.
pub proof fn frame_shows_each_row(rows: Seq<ArrivalRecord>)
    ensures
        frame_items(rows).len() == 3 * rows.len(),
        forall|i: int, c: int|
            0 <= i < rows.len() && 0 <= c < 3 ==> #[trigger] frame_items(rows)[3 * i + c]
                == #[trigger] row_items(rows[i], LEFT_MARGIN, row_y(i))[c],
    decreases rows.len(),
{
    if rows.len() > 0 {
        let d = rows.drop_last();
        frame_shows_each_row(d);
        assert forall|i: int, c: int| 0 <= i < rows.len() && 0 <= c < 3 implies #[trigger] frame_items(
            rows,
        )[3 * i + c] == #[trigger] row_items(rows[i], LEFT_MARGIN, row_y(i))[c] by {
            if i < d.len() {
                assert(rows[i] == d[i]);
                assert(frame_items(d)[3 * i + c] == row_items(d[i], LEFT_MARGIN, row_y(i))[c]);
            }
        }
    }
}

} // verus!
