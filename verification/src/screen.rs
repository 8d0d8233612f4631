//! What stands on the display, and where.
//!
//! The display is 320 pixels wide and 240 high; text is set in cells of 12 by 24 pixels on
//! a black ground.
use vstd::prelude::*;

use crate::context::AppContext;
use crate::easycom::{decimal, decimal_appends_digits, lemma_decimal};
use crate::renderer::{char_x, window_fits, window_of, Point, Rgb565, Size};

verus! {

/// Width of a character cell.
pub const FONT_WIDTH: u32 = 12;

/// Height of a character cell.
pub const FONT_HEIGHT: u32 = 24;

/// Width of the display.
pub const PANEL_WIDTH: u32 = 320;

/// Height of the display.
pub const PANEL_HEIGHT: u32 = 240;

/// The colours in use.
#[derive(Clone, Copy, Debug, PartialEq, Eq, Structural)]
pub enum Color {
    Black,
    Red,
    Green,
    Blue,
    Cyan,
    White,
}

impl Color {
    /// The colour's channels, each off or at its maximum.
    pub open spec fn rgb_spec(self) -> Rgb565 {
        match self {
            Color::Black => Rgb565 { r: 0, g: 0, b: 0 },
            Color::Red => Rgb565 { r: 31, g: 0, b: 0 },
            Color::Green => Rgb565 { r: 0, g: 63, b: 0 },
            Color::Blue => Rgb565 { r: 0, g: 0, b: 31 },
            Color::Cyan => Rgb565 { r: 0, g: 63, b: 31 },
            Color::White => Rgb565 { r: 31, g: 63, b: 31 },
        }
    }

    /// The colour's channels.
    pub fn rgb(self) -> (r: Rgb565)
        ensures
            r == self.rgb_spec(),
    {
        match self {
            Color::Black => Rgb565 { r: 0, g: 0, b: 0 },
            Color::Red => Rgb565 { r: 31, g: 0, b: 0 },
            Color::Green => Rgb565 { r: 0, g: 63, b: 0 },
            Color::Blue => Rgb565 { r: 0, g: 0, b: 31 },
            Color::Cyan => Rgb565 { r: 0, g: 63, b: 31 },
            Color::White => Rgb565 { r: 31, g: 63, b: 31 },
        }
    }
}

/// A text at its place on the display.
#[derive(Clone, Copy)]
pub struct TextItem<'a> {
    pub text: &'a str,
    pub at: Point,
    pub color: Color,
}

/// A text at its place as the contracts see it.
#[verifier::ext_equal]
pub struct ItemView {
    pub text: Seq<char>,
    pub at: Point,
    pub color: Color,
}

/// A text at a place.
pub open spec fn item(text: Seq<char>, x: i32, y: i32, color: Color) -> ItemView {
    ItemView { text, at: Point { x, y }, color }
}

impl TextItem<'_> {
    /// The text as a sequence of characters, at its place.
    pub open spec fn view(&self) -> ItemView {
        ItemView { text: self.text@, at: self.at, color: self.color }
    }
}

/// Texts as the contracts see them.
pub open spec fn item_views(items: Seq<TextItem>) -> Seq<ItemView> {
    items.map_values(|t: TextItem| t.view())
}

/// The numbers that the display shows, in text.
#[derive(Clone, Copy)]
pub struct Readings<'a> {
    /// Reported azimuth.
    pub az: &'a str,
    /// Reported elevation.
    pub el: &'a str,
    /// Azimuth asked for.
    pub target_az: &'a str,
    /// Elevation asked for.
    pub target_el: &'a str,
    /// Signal level at the controller.
    pub signal_m: &'a str,
    /// Noise level at the controller.
    pub noise_m: &'a str,
    /// Signal level at the rotator.
    pub signal_s: &'a str,
    /// Noise level at the rotator.
    pub noise_s: &'a str,
    /// Number of the last command, as [`seq_text`] writes it.
    pub seq: &'a str,
    /// Azimuth on the potentiometer.
    pub az_pot: &'a str,
    /// Elevation on the potentiometer.
    pub el_pot: &'a str,
}

/// The captions.
pub open spec fn title_items() -> Seq<ItemView> {
    seq![
        item("R2AJP PTZ Controller"@, 36, 0, Color::Cyan),
        item("PTZ AZ:"@, 0, 24, Color::White),
        item("PTZ EL:"@, 0, 48, Color::White),
        item("REQ AZ:"@, 0, 72, Color::White),
        item("REQ EL:"@, 0, 96, Color::White),
        item("Signal M dBm:"@, 0, 120, Color::White),
        item("Noise M dBm:"@, 0, 144, Color::White),
        item("Signal S dBm:"@, 0, 168, Color::White),
        item("Noise S dBm:"@, 0, 192, Color::White),
        item("SEQ:"@, 0, 216, Color::White),
        item("PTZ Pwr:"@, 168, 24, Color::White),
        item("LNA Pwr:"@, 168, 48, Color::White),
    ]
}

/// The word for the state of a relay, and its colour.
pub open spec fn power_item(on: bool, x: i32, y: i32) -> ItemView {
    if on {
        item("ON "@, x, y, Color::Blue)
    } else {
        item("OFF"@, x, y, Color::Red)
    }
}

/// The word for who is in charge.
pub open spec fn control_item(manual: bool) -> ItemView {
    if manual {
        item("MANUAL"@, 240, 72, Color::White)
    } else {
        item("AUTO  "@, 240, 72, Color::White)
    }
}

/// The numbers, the states of the two relays and who is in charge.
pub open spec fn reading_items(ctx: AppContext, texts: Readings) -> Seq<ItemView> {
    seq![
        item(texts.az@, 96, 24, Color::Green),
        item(texts.el@, 96, 48, Color::Green),
        item(texts.target_az@, 96, 72, Color::Green),
        item(texts.target_el@, 96, 96, Color::Green),
        item(texts.signal_m@, 168, 120, Color::Green),
        item(texts.noise_m@, 168, 144, Color::Blue),
        item(texts.signal_s@, 168, 168, Color::Green),
        item(texts.noise_s@, 168, 192, Color::Blue),
        item(texts.seq@, 60, 216, Color::Green),
        item(texts.az_pot@, 168, 72, Color::Green),
        item(texts.el_pot@, 168, 96, Color::Green),
        power_item(ctx.power_control.ptz, 276, 24),
        power_item(ctx.power_control.lna, 276, 48),
        control_item(ctx.manual),
    ]
}

/// A text at a place.
fn place<'a>(text: &'a str, x: i32, y: i32, color: Color) -> (r: TextItem<'a>)
    ensures
        r@ == item(text@, x, y, color),
{
    TextItem { text, at: Point { x, y }, color }
}

/// The captions, which are drawn once.
pub fn titles() -> (r: Vec<TextItem<'static>>)
    ensures
        item_views(r@) == title_items(),
{
    let mut r: Vec<TextItem<'static>> = Vec::new();
    r.push(place("R2AJP PTZ Controller", 36, 0, Color::Cyan));
    r.push(place("PTZ AZ:", 0, 24, Color::White));
    r.push(place("PTZ EL:", 0, 48, Color::White));
    r.push(place("REQ AZ:", 0, 72, Color::White));
    r.push(place("REQ EL:", 0, 96, Color::White));
    r.push(place("Signal M dBm:", 0, 120, Color::White));
    r.push(place("Noise M dBm:", 0, 144, Color::White));
    r.push(place("Signal S dBm:", 0, 168, Color::White));
    r.push(place("Noise S dBm:", 0, 192, Color::White));
    r.push(place("SEQ:", 0, 216, Color::White));
    r.push(place("PTZ Pwr:", 168, 24, Color::White));
    r.push(place("LNA Pwr:", 168, 48, Color::White));
    assert(item_views(r@) =~= title_items());
    r
}

/// The word for the state of a relay.
fn power_word(on: bool, x: i32, y: i32) -> (r: TextItem<'static>)
    ensures
        r@ == power_item(on, x, y),
{
    if on {
        place("ON ", x, y, Color::Blue)
    } else {
        place("OFF", x, y, Color::Red)
    }
}

/// What is drawn again on each redraw.
pub fn readings<'a>(ctx: &AppContext, texts: Readings<'a>) -> (r: Vec<TextItem<'a>>)
    ensures
        item_views(r@) == reading_items(*ctx, texts),
{
    let mut r: Vec<TextItem<'a>> = Vec::new();
    r.push(place(texts.az, 96, 24, Color::Green));
    r.push(place(texts.el, 96, 48, Color::Green));
    r.push(place(texts.target_az, 96, 72, Color::Green));
    r.push(place(texts.target_el, 96, 96, Color::Green));
    r.push(place(texts.signal_m, 168, 120, Color::Green));
    r.push(place(texts.noise_m, 168, 144, Color::Blue));
    r.push(place(texts.signal_s, 168, 168, Color::Green));
    r.push(place(texts.noise_s, 168, 192, Color::Blue));
    r.push(place(texts.seq, 60, 216, Color::Green));
    r.push(place(texts.az_pot, 168, 72, Color::Green));
    r.push(place(texts.el_pot, 168, 96, Color::Green));
    r.push(power_word(ctx.power_control.is_ptz_on(), 276, 24));
    r.push(power_word(ctx.power_control.is_lna_on(), 276, 48));
    if ctx.manual {
        r.push(place("MANUAL", 240, 72, Color::White));
    } else {
        r.push(place("AUTO  ", 240, 72, Color::White));
    }
    assert(item_views(r@) =~= reading_items(*ctx, texts));
    r
}

/// A packet number as the display shows it: in decimal, without leading zeros.
pub open spec fn seq_digits(seq: u32) -> Seq<char> {
    decimal(seq as nat).map_values(|b: u8| b as char)
}

/// The character of a decimal digit.
fn digit(d: u32) -> (r: &'static str)
    requires
        d < 10,
    ensures
        r@ == seq![(48 + d) as u8 as char],
{
    proof {
        reveal_strlit("0");
        reveal_strlit("1");
        reveal_strlit("2");
        reveal_strlit("3");
        reveal_strlit("4");
        reveal_strlit("5");
        reveal_strlit("6");
        reveal_strlit("7");
        reveal_strlit("8");
        reveal_strlit("9");
    }
    let r = match d {
        0 => "0",
        1 => "1",
        2 => "2",
        3 => "3",
        4 => "4",
        5 => "5",
        6 => "6",
        7 => "7",
        8 => "8",
        _ => "9",
    };
    assert(r@ =~= seq![(48 + d) as u8 as char]);
    r
}

/// Writes a packet number for the display.
pub fn seq_text(seq: u32) -> (text: String)
    ensures
        text@ == seq_digits(seq),
    decreases seq,
{
    if seq < 10 {
        let text = digit(seq).to_owned();
        assert(text@ =~= seq_digits(seq));
        text
    } else {
        let mut text = seq_text(seq / 10);
        text.append(digit(seq % 10));
        assert(text@ =~= seq_digits(seq));
        text
    }
}

/// A text lies wholly on the display.
pub open spec fn on_panel(t: ItemView) -> bool {
    &&& 0 <= t.at.x
    &&& 0 <= t.at.y
    &&& t.at.x + FONT_WIDTH * t.text.len() <= PANEL_WIDTH
    &&& t.at.y + FONT_HEIGHT <= PANEL_HEIGHT
}

/// The characters of a text are in the range of printable ASCII.
pub open spec fn printable(t: ItemView) -> bool {
    forall|i: int| 0 <= i < t.text.len() ==> 32 <= #[trigger] t.text[i] as int && t.text[i] as int
        <= 126
}

/// The captions lie wholly on the display and hold only printable ASCII.
pub proof fn titles_are_on_the_panel(i: int)
    requires
        0 <= i < title_items().len(),
    ensures
        on_panel(title_items()[i]),
        printable(title_items()[i]),
{
    reveal_strlit("R2AJP PTZ Controller");
    reveal_strlit("PTZ AZ:");
    reveal_strlit("PTZ EL:");
    reveal_strlit("REQ AZ:");
    reveal_strlit("REQ EL:");
    reveal_strlit("Signal M dBm:");
    reveal_strlit("Noise M dBm:");
    reveal_strlit("Signal S dBm:");
    reveal_strlit("Noise S dBm:");
    reveal_strlit("SEQ:");
    reveal_strlit("PTZ Pwr:");
    reveal_strlit("LNA Pwr:");
}

/// The words for the relays and for who is in charge lie wholly on the display and hold
/// only printable ASCII.
pub proof fn words_are_on_the_panel(ctx: AppContext, texts: Readings, i: int)
    requires
        11 <= i < reading_items(ctx, texts).len(),
    ensures
        on_panel(reading_items(ctx, texts)[i]),
        printable(reading_items(ctx, texts)[i]),
{
    reveal_strlit("ON ");
    reveal_strlit("OFF");
    reveal_strlit("MANUAL");
    reveal_strlit("AUTO  ");
}

/// Every packet number lies wholly on the display and holds only printable ASCII.
pub proof fn packet_number_is_on_the_panel(ctx: AppContext, texts: Readings)
    requires
        texts.seq@ == seq_digits(ctx.seq),
    ensures
        on_panel(reading_items(ctx, texts)[8]),
        printable(reading_items(ctx, texts)[8]),
{
    lemma_decimal(ctx.seq as nat);
    let shown = seq_digits(ctx.seq);
    assert forall|i: int| 0 <= i < shown.len() implies 32 <= #[trigger] shown[i] as int
        && shown[i] as int <= 126 by {
        assert(shown[i] == decimal(ctx.seq as nat)[i] as char);
    }
}

/// A text that lies wholly on the display can be drawn there character by character, each
/// in a window of its own on the display.
pub proof fn text_on_panel_has_windows(t: ItemView, i: int)
    requires
        on_panel(t),
        0 <= i < t.text.len(),
    ensures
        ({
            let cell = Size { width: FONT_WIDTH, height: FONT_HEIGHT };
            let w = window_of(t.at, i, cell);
            &&& window_fits(t.at, i, cell)
            &&& w.x0 == t.at.x + FONT_WIDTH * i
            &&& w.x1 < PANEL_WIDTH
            &&& w.y0 == t.at.y
            &&& w.y1 < PANEL_HEIGHT
        }),
{
    let cell = Size { width: FONT_WIDTH, height: FONT_HEIGHT };
    assert(t.at.x + 12 * t.text.len() <= 320);
    assert(0 <= i <= 320);
    assert(i as i32 == i && cell.width as i32 == 12);
    assert(i * 12 == 12 * i);
    assert(char_x(t.at, i, cell) == t.at.x + 12 * i);
}

/// Each reading stands in the row of its caption, behind it: the reported angles, the angles
/// asked for, the four levels, the packet number and the two relays. The potentiometers
/// stand in the rows of the angles asked for, behind those, and who is in charge behind the
/// azimuth's. None of the places depends on what is shown.
pub proof fn readings_stand_behind_their_captions(ctx: AppContext, texts: Readings)
    ensures
        ({
            let t = title_items();
            let r = reading_items(ctx, texts);
            let behind = |reading: ItemView, caption: ItemView|
                reading.at.y == caption.at.y && caption.at.x + 12 * caption.text.len()
                    <= reading.at.x;
            &&& t.len() == 12
            &&& r.len() == 14
            &&& t[1].text == "PTZ AZ:"@ && r[0].text == texts.az@ && behind(r[0], t[1])
            &&& t[2].text == "PTZ EL:"@ && r[1].text == texts.el@ && behind(r[1], t[2])
            &&& t[3].text == "REQ AZ:"@ && r[2].text == texts.target_az@ && behind(r[2], t[3])
            &&& t[4].text == "REQ EL:"@ && r[3].text == texts.target_el@ && behind(r[3], t[4])
            &&& t[5].text == "Signal M dBm:"@ && r[4].text == texts.signal_m@ && behind(r[4], t[5])
            &&& t[6].text == "Noise M dBm:"@ && r[5].text == texts.noise_m@ && behind(r[5], t[6])
            &&& t[7].text == "Signal S dBm:"@ && r[6].text == texts.signal_s@ && behind(r[6], t[7])
            &&& t[8].text == "Noise S dBm:"@ && r[7].text == texts.noise_s@ && behind(r[7], t[8])
            &&& t[9].text == "SEQ:"@ && r[8].text == texts.seq@ && behind(r[8], t[9])
            &&& t[10].text == "PTZ Pwr:"@ && behind(r[11], t[10])
            &&& t[11].text == "LNA Pwr:"@ && behind(r[12], t[11])
            &&& r[9].text == texts.az_pot@ && behind(r[9], t[3]) && r[9].at.x > r[2].at.x
            &&& r[10].text == texts.el_pot@ && behind(r[10], t[4]) && r[10].at.x > r[3].at.x
            &&& r[13].at.y == r[9].at.y && r[13].at.x > r[9].at.x
            &&& forall|i: int|
                0 <= i < 14 ==> (#[trigger] r[i]).at == reading_items(
                    AppContext::blank(),
                    texts,
                )[i].at
        }),
{
    reveal_strlit("PTZ AZ:");
    reveal_strlit("PTZ EL:");
    reveal_strlit("REQ AZ:");
    reveal_strlit("REQ EL:");
    reveal_strlit("Signal M dBm:");
    reveal_strlit("Noise M dBm:");
    reveal_strlit("Signal S dBm:");
    reveal_strlit("Noise S dBm:");
    reveal_strlit("SEQ:");
    reveal_strlit("PTZ Pwr:");
    reveal_strlit("LNA Pwr:");
}

/// Each relay is shown on or off by its own state alone, on in blue and off in red, and
/// manual or automatic control by the switch alone.
pub proof fn states_are_shown_in_words(ctx: AppContext, texts: Readings)
    ensures
        ({
            let r = reading_items(ctx, texts);
            &&& ctx.power_control.ptz ==> r[11].text == "ON "@ && r[11].color == Color::Blue
            &&& !ctx.power_control.ptz ==> r[11].text == "OFF"@ && r[11].color == Color::Red
            &&& ctx.power_control.lna ==> r[12].text == "ON "@ && r[12].color == Color::Blue
            &&& !ctx.power_control.lna ==> r[12].text == "OFF"@ && r[12].color == Color::Red
            &&& ctx.manual ==> r[13].text == "MANUAL"@
            &&& !ctx.manual ==> r[13].text == "AUTO  "@
            &&& r[13].color == Color::White
        }),
{
}

/// Captions are white under a title in cyan; numbers are green, but for the two noise levels
/// in blue.
pub proof fn colors_tell_the_kind(ctx: AppContext, texts: Readings, i: int)
    ensures
        title_items()[0].color == Color::Cyan,
        1 <= i < 12 ==> title_items()[i].color == Color::White,
        0 <= i < 11 ==> reading_items(ctx, texts)[i].color == (if i == 5 || i == 7 {
            Color::Blue
        } else {
            Color::Green
        }),
{
}

/// The channels of the colours: red in red and white, green in green, cyan and white, blue
/// in blue, cyan and white, each at its maximum there and off elsewhere.
pub proof fn colors_are_full_channels(c: Color)
    ensures
        c.rgb_spec().r == (if c == Color::Red || c == Color::White {
            31u8
        } else {
            0u8
        }),
        c.rgb_spec().g == (if c == Color::Green || c == Color::Cyan || c == Color::White {
            63u8
        } else {
            0u8
        }),
        c.rgb_spec().b == (if c == Color::Blue || c == Color::Cyan || c == Color::White {
            31u8
        } else {
            0u8
        }),
{
}

/// A packet number is shown digit by digit in decimal: a single digit as itself, and behind
/// the digits of a tenth of the number the last one.
pub proof fn packet_number_is_shown_in_decimal(seq: u32)
    ensures
        seq < 10 ==> seq_digits(seq) == seq![(48 + seq) as u8 as char],
        seq >= 10 ==> seq_digits(seq) == seq_digits(seq / 10).push((48 + seq % 10) as u8 as char),
{
    assert(seq < 10 ==> seq_digits(seq) =~= seq![(48 + seq) as u8 as char]);
    if seq >= 10 {
        decimal_appends_digits((seq / 10) as nat, (seq % 10) as nat);
        assert(seq_digits(seq) =~= seq_digits(seq / 10).push((48 + seq % 10) as u8 as char));
    }
}

} // verus!
