use vstd::prelude::*;
use crate::record::{ArrivalRecord, VehicleKind};

verus! {

/// One entry of the bus tracker's `prd` list, as far as the sign reads it.
#[derive(Clone, Debug)]
pub struct BusPrediction {
    /// Stop id.
    pub stpid: String,
    /// Route id.
    pub rt: String,
    /// Direction of travel ("Southbound").
    pub rtdir: String,
    /// Destination headsign.
    pub des: String,
    /// Minutes until arrival, or "DUE" / "DLY".
    pub prdctdn: String,
    /// Predicted arrival timestamp, "YYYYMMDD HH:MM".
    pub prdtm: String,
    /// Whether the vehicle is delayed.
    pub dly: bool,
}

/// One entry of the bus tracker's `error` list.
#[derive(Clone, Debug)]
pub struct ServiceError {
    pub route: String,
    pub stop: String,
    pub message: String,
}

/// The body of a bus-tracker response: predictions or service errors.
/// Either list may be missing on the wire; a missing list is empty here.
#[derive(Clone, Debug)]
pub struct BusTimesPredictions {
    pub prd: Vec<BusPrediction>,
    pub error: Vec<ServiceError>,
}

/// Why a poll brought no usable body.
#[derive(Clone, Copy, Debug, PartialEq, Eq, Structural)]
pub enum FailureKind {
    BadRequest,
    Unauthorized,
    DecodeError,
    Unclassified,
}

/// The result of one poll cycle; exactly one variant per cycle.
#[derive(Clone, Debug)]
pub enum FetchOutcome {
    Arrivals(Vec<ArrivalRecord>),
    ServiceErrors(Vec<ServiceError>),
    TransportFailure(FailureKind),
}

/// A poll outcome with its lists seen as sequences.
pub enum OutcomeView {
    Arrivals(Seq<ArrivalRecord>),
    ServiceErrors(Seq<ServiceError>),
    TransportFailure(FailureKind),
}

impl View for FetchOutcome {
    type V = OutcomeView;

    open spec fn view(&self) -> OutcomeView {
        match self {
            FetchOutcome::Arrivals(v) => OutcomeView::Arrivals(v@),
            FetchOutcome::ServiceErrors(e) => OutcomeView::ServiceErrors(e@),
            FetchOutcome::TransportFailure(k) => OutcomeView::TransportFailure(*k),
        }
    }
}

/// A prediction can be shown only with a route and a countdown label.
pub open spec fn well_formed_bus(p: BusPrediction) -> bool {
    p.rt@.len() > 0 && p.prdctdn@.len() > 0
}

pub open spec fn record_of_bus(p: BusPrediction) -> ArrivalRecord {
    ArrivalRecord {
        route: p.rt,
        destination: p.des,
        eta: p.prdctdn,
        vehicle_kind: VehicleKind::Bus,
        delayed: p.dly,
    }
}

/// The records of the well-formed predictions, in the order given.
pub open spec fn records_of(prd: Seq<BusPrediction>) -> Seq<ArrivalRecord>
    decreases prd.len(),
{
    if prd.len() == 0 {
        Seq::empty()
    } else if well_formed_bus(prd.last()) {
        records_of(prd.drop_last()).push(record_of_bus(prd.last()))
    } else {
        records_of(prd.drop_last())
    }
}

/// What a decoded body means: arrivals unless there are no predictions and
/// some service errors.
pub open spec fn normalized(p: BusTimesPredictions) -> OutcomeView {
    if p.prd@.len() == 0 && p.error@.len() > 0 {
        OutcomeView::ServiceErrors(p.error@)
    } else {
        OutcomeView::Arrivals(records_of(p.prd@))
    }
}

pub const STATUS_OK: u16 = 200;
pub const STATUS_BAD_REQUEST: u16 = 400;
pub const STATUS_UNAUTHORIZED: u16 = 401;

/// The outcome of a response with HTTP status `status`, whose body decoded to
/// `body` (`None` where it did not decode or was not read).
pub open spec fn classified(status: u16, body: Option<BusTimesPredictions>) -> OutcomeView {
    if status == STATUS_OK {
        match body {
            Some(p) => normalized(p),
            None => OutcomeView::TransportFailure(FailureKind::DecodeError),
        }
    } else if status == STATUS_BAD_REQUEST {
        OutcomeView::TransportFailure(FailureKind::BadRequest)
    } else if status == STATUS_UNAUTHORIZED {
        OutcomeView::TransportFailure(FailureKind::Unauthorized)
    } else {
        OutcomeView::TransportFailure(FailureKind::Unclassified)
    }
}

impl BusPrediction {
    /// The arrival record of a prediction.
    pub fn to_record(&self) -> (r: ArrivalRecord)
        ensures
            r == record_of_bus(*self),
    {
        ArrivalRecord {
            route: self.rt.clone(),
            destination: self.des.clone(),
            eta: self.prdctdn.clone(),
            vehicle_kind: VehicleKind::Bus,
            delayed: self.dly,
        }
    }

    pub fn is_well_formed(&self) -> (r: bool)
        ensures
            r == well_formed_bus(*self),
    {
        !self.rt.as_str().is_empty() && !self.prdctdn.as_str().is_empty()
    }
}

impl ServiceError {
    /// A field-by-field copy.
    pub fn duplicate(&self) -> (r: ServiceError)
        ensures
            r == *self,
    {
        ServiceError {
            route: self.route.clone(),
            stop: self.stop.clone(),
            message: self.message.clone(),
        }
    }
}

/// Turns a decoded bus-tracker body into the outcome of the poll. Records keep
/// the order of the predictions; malformed predictions are dropped.
pub fn normalize(payload: &BusTimesPredictions) -> (r: FetchOutcome)
    ensures
        r@ == normalized(*payload),
{
    if payload.prd.len() == 0 && payload.error.len() > 0 {
        let mut errors: Vec<ServiceError> = Vec::new();
        let mut i: usize = 0;
        while i < payload.error.len()
            invariant
                i <= payload.error@.len(),
                errors@ == payload.error@.take(i as int),
            decreases payload.error@.len() - i,
        {
            errors.push(payload.error[i].duplicate());
            i += 1;
            assert(errors@ =~= payload.error@.take(i as int));
        }
        assert(errors@ =~= payload.error@);
        FetchOutcome::ServiceErrors(errors)
    } else {
        let mut records: Vec<ArrivalRecord> = Vec::new();
        let mut i: usize = 0;
        while i < payload.prd.len()
            invariant
                i <= payload.prd@.len(),
                records@ == records_of(payload.prd@.take(i as int)),
            decreases payload.prd@.len() - i,
        {
            let p = &payload.prd[i];
            proof {
                let t = payload.prd@.take(i as int + 1);
                assert(t.drop_last() =~= payload.prd@.take(i as int));
                assert(t.last() == payload.prd@[i as int]);
            }
            if p.is_well_formed() {
                records.push(p.to_record());
            }
            i += 1;
        }
        assert(payload.prd@.take(i as int) =~= payload.prd@);
        FetchOutcome::Arrivals(records)
    }
}

/// Classifies one response of the tracker: 200 with a decoded body is
/// normalized, 200 without one is a decode error, 400 and 401 are their own
/// failures, and every other status is unclassified.
pub fn classify_response(status: u16, body: Option<BusTimesPredictions>) -> (r: FetchOutcome)
    ensures
        r@ == classified(status, body),
{
    if status == STATUS_OK {
        match body {
            Some(p) => normalize(&p),
            None => FetchOutcome::TransportFailure(FailureKind::DecodeError),
        }
    } else if status == STATUS_BAD_REQUEST {
        FetchOutcome::TransportFailure(FailureKind::BadRequest)
    } else if status == STATUS_UNAUTHORIZED {
        FetchOutcome::TransportFailure(FailureKind::Unauthorized)
    } else {
        FetchOutcome::TransportFailure(FailureKind::Unclassified)
    }
}

} // verus!
