use vstd::prelude::*;

verus! {

/// Which kind of vehicle a prediction is about.
#[derive(Clone, Copy, Debug, PartialEq, Eq, Structural)]
pub enum VehicleKind {
    Bus,
    Train,
}

/// One predicted arrival, ready to be shown as one row of the sign.
#[derive(Clone, Debug)]
pub struct ArrivalRecord {
    /// Short route label (a bus route number or a line colour).
    pub route: String,
    /// Free-text headsign.
    pub destination: String,
    /// Countdown in minutes, or another label such as "DUE".
    pub eta: String,
    pub vehicle_kind: VehicleKind,
    pub delayed: bool,
}

impl ArrivalRecord {
    /// A record may be shown only with a route and an arrival label.
    pub open spec fn renderable(&self) -> bool {
        self.route@.len() > 0 && self.eta@.len() > 0
    }

    /// A field-by-field copy.
    pub fn duplicate(&self) -> (r: ArrivalRecord)
        ensures
            r == *self,
    {
        ArrivalRecord {
            route: self.route.clone(),
            destination: self.destination.clone(),
            eta: self.eta.clone(),
            vehicle_kind: self.vehicle_kind,
            delayed: self.delayed,
        }
    }
}

/// Copies every record of a list, in order.
pub fn duplicate_all(records: &Vec<ArrivalRecord>) -> (r: Vec<ArrivalRecord>)
    ensures
        r@ == records@,
{
    let mut r: Vec<ArrivalRecord> = Vec::new();
    let mut i: usize = 0;
    while i < records.len()
        invariant
            i <= records.len(),
            r@ == records@.take(i as int),
        decreases records.len() - i,
    {
        r.push(records[i].duplicate());
        i += 1;
        assert(r@ =~= records@.take(i as int));
    }
    assert(r@ =~= records@);
    r
}

} // verus!
