use vstd::prelude::*;
use crate::color::{color_of, rgb_from_hex, Color, COUNTDOWN_WHITE, ROUTE_ORANGE, SIGN_GREY};
use crate::record::ArrivalRecord;

verus! {

/// The two fonts of the sign.
#[derive(Clone, Copy, Debug, PartialEq, Eq, Structural)]
pub enum Font {
    /// The 4x6 font of the arrival rows.
    Small,
    /// The 9x15 bold font of the splash title.
    LargeBold,
}

/// A piece of text to draw, its baseline starting at `(x, y)`.
#[derive(Clone, Debug)]
pub struct TextItem {
    pub text: String,
    pub x: i32,
    pub y: i32,
    pub color: Color,
    pub font: Font,
}

/// Left edge of the rows.
pub const LEFT_MARGIN: i32 = 1;

/// Baseline of the first row.
pub const TOP_MARGIN: i32 = 6;

/// Distance between the baselines of two rows.
pub const ROW_PITCH: i32 = 6;

/// Where the countdown column starts, from the row's left edge.
pub const ETA_COLUMN: i32 = 10;

/// Where the destination column starts, from the row's left edge.
pub const DESTINATION_COLUMN: i32 = 20;

/// The three texts of one row: route in orange, countdown in white and
/// destination in grey, in three columns.
pub open spec fn row_items(rec: ArrivalRecord, x: i32, y: i32) -> Seq<TextItem> {
    seq![
        TextItem { text: rec.route, x: x, y: y, color: color_of(ROUTE_ORANGE), font: Font::Small },
        TextItem {
            text: rec.eta,
            x: (x + ETA_COLUMN) as i32,
            y: y,
            color: color_of(COUNTDOWN_WHITE),
            font: Font::Small,
        },
        TextItem {
            text: rec.destination,
            x: (x + DESTINATION_COLUMN) as i32,
            y: y,
            color: color_of(SIGN_GREY),
            font: Font::Small,
        },
    ]
}

/// The baseline of row `i`; rows too far down for an `i32` stay at its
/// largest value.
pub open spec fn row_y(i: int) -> i32 {
    let y = TOP_MARGIN + ROW_PITCH * i;
    if y > i32::MAX {
        i32::MAX
    } else {
        y as i32
    }
}

/// All texts of a frame: one row per record, top to bottom.
pub open spec fn frame_items(rows: Seq<ArrivalRecord>) -> Seq<TextItem>
    decreases rows.len(),
{
    if rows.len() == 0 {
        Seq::empty()
    } else {
        frame_items(rows.drop_last()) + row_items(rows.last(), LEFT_MARGIN, row_y(rows.len() - 1))
    }
}

/// Lays out one arrival as a row whose left edge is `x` and baseline `y`.
pub fn row_texts(rec: &ArrivalRecord, x: i32, y: i32) -> (r: Vec<TextItem>)
    requires
        x <= i32::MAX - DESTINATION_COLUMN,
    ensures
        r@ == row_items(*rec, x, y),
{
    let mut r: Vec<TextItem> = Vec::new();
    r.push(
        TextItem {
            text: rec.route.clone(),
            x,
            y,
            color: rgb_from_hex(ROUTE_ORANGE),
            font: Font::Small,
        },
    );
    r.push(
        TextItem {
            text: rec.eta.clone(),
            x: x + ETA_COLUMN,
            y,
            color: rgb_from_hex(COUNTDOWN_WHITE),
            font: Font::Small,
        },
    );
    r.push(
        TextItem {
            text: rec.destination.clone(),
            x: x + DESTINATION_COLUMN,
            y,
            color: rgb_from_hex(SIGN_GREY),
            font: Font::Small,
        },
    );
    assert(r@ =~= row_items(*rec, x, y));
    r
}

/// Lays out a frame: one row per record, at a fixed pitch from the top margin.
pub fn frame_texts(rows: &Vec<ArrivalRecord>) -> (r: Vec<TextItem>)
    ensures
        r@ == frame_items(rows@),
        r@.len() == 3 * rows@.len(),
{
    let mut r: Vec<TextItem> = Vec::new();
    let mut i: usize = 0;
    let mut y: i32 = TOP_MARGIN;
    while i < rows.len()
        invariant
            i <= rows@.len(),
            r@ == frame_items(rows@.take(i as int)),
            r@.len() == 3 * i,
            y == row_y(i as int),
        decreases rows@.len() - i,
    {
        let row = row_texts(&rows[i], LEFT_MARGIN, y);
        proof {
            let t = rows@.take(i as int + 1);
            assert(t.drop_last() =~= rows@.take(i as int));
            assert(t.last() == rows@[i as int]);
        }
        let mut row = row;
        r.append(&mut row);
        y = if y > i32::MAX - ROW_PITCH {
            i32::MAX
        } else {
            y + ROW_PITCH
        };
        i += 1;
    }
    assert(rows@.take(i as int) =~= rows@);
    r
}

} // verus!
