use vstd::prelude::*;
use crate::color::{color_of, rgb_from_hex, Color, BLACK, SIGN_GREY};
use crate::layout::{Font, TextItem};

verus! {

/// A filled rectangle with its top-left corner at `(x, y)`.
#[derive(Clone, Copy, Debug, PartialEq, Eq, Structural)]
pub struct RectItem {
    pub x: i32,
    pub y: i32,
    pub width: u32,
    pub height: u32,
    pub color: Color,
}

/// A straight stroke from `(start_x, start_y)` to `(end_x, end_y)`.
#[derive(Clone, Copy, Debug, PartialEq, Eq, Structural)]
pub struct LineItem {
    pub start_x: i32,
    pub start_y: i32,
    pub end_x: i32,
    pub end_y: i32,
    pub color: Color,
    pub stroke_width: u32,
}

/// The start-up picture: a tile for each train line, a black band across the
/// middle, and the title on it.
#[derive(Clone, Debug)]
pub struct SplashFrame {
    pub tiles: Vec<RectItem>,
    pub divider: LineItem,
    pub title: TextItem,
}

/// How long the start-up picture stays, in seconds.
pub const SPLASH_SECONDS: u64 = 5;

/// Width of the black band.
pub const DIVIDER_STROKE: u32 = 12;

/// The train lines' colours, by line name in alphabetical order: blue, brown,
/// green, orange, pink, purple, red, yellow.
pub open spec fn line_colors() -> Seq<u32> {
    seq![0x00a1deu32, 0x62361bu32, 0x009b3au32, 0xf9461cu32, 0xe27ea6u32, 0x522398u32, 0xc60c30u32, 0xf9e300u32]
}

/// Tile `o`: four tiles to a row, each a quarter of the width and half of the
/// height; tiles after the fifth go to the lower half.
pub open spec fn tile(o: int, rows: u32, cols: u32) -> RectItem {
    RectItem {
        x: ((o % 4) * (cols / 4)) as i32,
        y: if o > 4 {
            (rows / 2) as i32
        } else {
            0
        },
        width: cols / 4,
        height: rows / 2,
        color: color_of(line_colors()[o]),
    }
}

fn train_line_colors() -> (r: Vec<u32>)
    ensures
        r@ == line_colors(),
{
    let r: Vec<u32> = vec![0x00a1de, 0x62361b, 0x009b3a, 0xf9461c, 0xe27ea6, 0x522398, 0xc60c30, 0xf9e300];
    assert(r@ =~= line_colors());
    r
}

/// Lays out the start-up picture for a panel of `rows` by `cols` pixels.
pub fn splash_frame(rows: u32, cols: u32) -> (f: SplashFrame)
    requires
        rows <= i32::MAX,
        cols <= i32::MAX,
    ensures
        f.tiles@.len() == line_colors().len(),
        forall|o: int| 0 <= o < f.tiles@.len() ==> #[trigger] f.tiles@[o] == tile(o, rows, cols),
        f.divider == (LineItem {
            start_x: 0,
            start_y: (rows / 2) as i32,
            end_x: cols as i32,
            end_y: (rows / 2) as i32,
            color: color_of(BLACK),
            stroke_width: DIVIDER_STROKE,
        }),
        f.title.text@ == "YACTATT"@,
        f.title.x == 1,
        f.title.y == rows / 2 + 4,
        f.title.color == color_of(SIGN_GREY),
        f.title.font == Font::LargeBold,
{
    let colors = train_line_colors();
    let mut tiles: Vec<RectItem> = Vec::new();
    let quarter = cols / 4;
    let half = rows / 2;
    let mut o: usize = 0;
    while o < colors.len()
        invariant
            colors@ == line_colors(),
            o <= colors@.len(),
            quarter == cols / 4,
            half == rows / 2,
            rows <= i32::MAX,
            cols <= i32::MAX,
            tiles@.len() == o,
            forall|j: int| 0 <= j < o ==> #[trigger] tiles@[j] == tile(j, rows, cols),
        decreases colors@.len() - o,
    {
        let col = (o % 4) as u32;
        assert(col * quarter <= 3 * (cols / 4)) by (nonlinear_arith)
            requires
                col <= 3,
                quarter == cols / 4,
        ;
        let x = (col * quarter) as i32;
        let y: i32 = if o > 4 {
            half as i32
        } else {
            0
        };
        tiles.push(RectItem { x, y, width: quarter, height: half, color: rgb_from_hex(colors[o]) });
        o += 1;
    }
    let title = TextItem {
        text: "YACTATT".to_string(),
        x: 1,
        y: (half + 4) as i32,
        color: rgb_from_hex(SIGN_GREY),
        font: Font::LargeBold,
    };
    SplashFrame {
        tiles,
        divider: LineItem {
            start_x: 0,
            start_y: half as i32,
            end_x: cols as i32,
            end_y: half as i32,
            color: rgb_from_hex(BLACK),
            stroke_width: DIVIDER_STROKE,
        },
        title,
    }
}

} // verus!
