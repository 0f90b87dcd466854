use vstd::prelude::*;
use crate::accents::{stripped, strip_accents};
use crate::chars::same_text;
use crate::emoji::{emoji_for, find_emoji, Emoji, BITMAP_SIDE};
use crate::wrap::{wrap_result, wrap_text, MAX_LINES};

verus! {

/// Width of the screen in pixels.
pub const SCREEN_WIDTH: i32 = 128;

/// Height of the screen in pixels.
pub const SCREEN_HEIGHT: i32 = 64;

/// Most bytes on one line of a wrapped message.
pub const MESSAGE_LINE_BYTES: usize = 21;

/// Vertical distance between two lines of a wrapped message.
pub const LINE_SPACING: i32 = 15;

/// The two fonts of the display.
#[derive(Clone, Copy, Debug, PartialEq, Eq, Structural)]
pub enum Font {
    /// The 6x13 bold font.
    Regular,
    /// The 9x18 bold font.
    Large,
}

/// A piece of text drawn horizontally centred on `x`, with its baseline at `y`.
#[derive(Debug)]
pub struct TextItem {
    pub text: String,
    pub x: i32,
    pub y: i32,
    pub font: Font,
}

/// What the screen shows.
#[derive(Debug)]
pub enum Screen {
    /// An emoji bitmap whose top left corner is at (`x`, `y`).
    Picture { emoji: Emoji, x: i32, y: i32 },
    /// Lines of text.
    Texts { items: Vec<TextItem> },
}

/// `item` shows `text` centred on the screen's middle column at height `y` in `font`.
pub open spec fn item_is(item: TextItem, text: Seq<char>, y: int, font: Font) -> bool {
    &&& item.text@ == text
    &&& item.x == SCREEN_WIDTH / 2
    &&& item.y == y
    &&& item.font == font
}

/// Baseline of line `i` of a message of `n` lines: the block of lines is
/// centred vertically, lines are [`LINE_SPACING`] apart.
pub open spec fn message_line_y(n: int, i: int) -> int {
    (SCREEN_HEIGHT - n * LINE_SPACING) / 2 + 12 + i * LINE_SPACING
}

/// `items` lays out `lines` as a message: one regular line each, in order.
pub open spec fn message_layout(items: Seq<TextItem>, lines: Seq<Seq<char>>) -> bool {
    &&& items.len() == lines.len()
    &&& forall|i: int|
        0 <= i < items.len() ==> item_is(
            #[trigger] items[i],
            lines[i],
            message_line_y(lines.len() as int, i),
            Font::Regular,
        )
}

/// The lines of a message of at most [`MAX_LINES`] lines all lie on the
/// screen, [`LINE_SPACING`] pixels apart, and the block is centred: the
/// space above its first baseline and below its last differ by the fixed
/// offset of the font.
pub proof fn lemma_message_lines_on_screen(n: int, i: int)
    requires
        0 <= i < n <= MAX_LINES,
    ensures
        12 < message_line_y(n, i) < SCREEN_HEIGHT,
        i + 1 < n ==> message_line_y(n, i + 1) == message_line_y(n, i) + LINE_SPACING,
        -1 <= (message_line_y(n, 0) - 12) - (SCREEN_HEIGHT - (message_line_y(n, n - 1) - 12 + LINE_SPACING)) <= 0,
{
}

/// The two status lines shown while starting up and connecting.
pub fn status_items(line1: &str, line2: &str) -> (items: Vec<TextItem>)
    ensures
        items@.len() == 2,
        item_is(items@[0], line1@, 24, Font::Regular),
        item_is(items@[1], line2@, 44, Font::Regular),
{
    let mut items: Vec<TextItem> = Vec::new();
    items.push(TextItem { text: String::from_str(line1), x: SCREEN_WIDTH / 2, y: 24, font: Font::Regular });
    items.push(TextItem { text: String::from_str(line2), x: SCREEN_WIDTH / 2, y: 44, font: Font::Regular });
    items
}

/// One line of large text in the middle of the screen.
pub fn big_centered(text: &str) -> (item: TextItem)
    ensures
        item_is(item, text@, 38, Font::Large),
{
    TextItem { text: String::from_str(text), x: SCREEN_WIDTH / 2, y: 38, font: Font::Large }
}

/// The lines of a text message: wrapped at [`MESSAGE_LINE_BYTES`] bytes,
/// at most four lines, centred as a block.
pub fn message_items(text: &str) -> (items: Vec<TextItem>)
    ensures
        message_layout(items@, wrap_result(text@, MESSAGE_LINE_BYTES as nat)),
{
    let lines = wrap_text(text, MESSAGE_LINE_BYTES);
    let n: usize = lines.len();
    let total_height: i32 = n as i32 * LINE_SPACING;
    let start_y: i32 = (SCREEN_HEIGHT - total_height) / 2 + 12;
    let mut items: Vec<TextItem> = Vec::new();
    for i in 0..n
        invariant
            n == lines@.len(),
            n <= MAX_LINES,
            total_height == n * LINE_SPACING,
            start_y == (SCREEN_HEIGHT - total_height) / 2 + 12,
            items@.len() == i,
            forall|j: int|
                0 <= j < i ==> item_is(
                    #[trigger] items@[j],
                    lines@[j]@,
                    message_line_y(n as int, j),
                    Font::Regular,
                ),
    {
        let y: i32 = start_y + i as i32 * LINE_SPACING;
        items.push(TextItem { text: lines[i].clone(), x: SCREEN_WIDTH / 2, y, font: Font::Regular });
    }
    proof {
        assert(crate::wrap::views(lines@).len() == n);
        assert forall|j: int| 0 <= j < n implies #[trigger] crate::wrap::views(lines@)[j] == lines@[j]@ by {}
    }
    items
}

/// Top left corner of an emoji bitmap centred on the screen.
pub open spec fn picture_at(e: Emoji) -> Screen {
    Screen::Picture {
        emoji: e,
        x: ((SCREEN_WIDTH - BITMAP_SIDE) / 2) as i32,
        y: ((SCREEN_HEIGHT - BITMAP_SIDE) / 2) as i32,
    }
}

/// What the screen shows for a received message of the given kind: for an
/// emoji message, the bitmap of the emoji it shows, or else its text with
/// accents stripped in large letters; for any other message, its text with
/// accents stripped as a wrapped message.
pub open spec fn screen_shows(s: Screen, content: Seq<char>, kind: Seq<char>) -> bool {
    if kind == "emoji"@ {
        match emoji_for(content) {
            Some(e) => s == picture_at(e),
            None => match s {
                Screen::Texts { items } => items@.len() == 1 && item_is(
                    items@[0],
                    stripped(content),
                    38,
                    Font::Large,
                ),
                _ => false,
            },
        }
    } else {
        match s {
            Screen::Texts { items } => message_layout(
                items@,
                wrap_result(stripped(content), MESSAGE_LINE_BYTES as nat),
            ),
            _ => false,
        }
    }
}

/// An emoji message that shows an emoji is drawn as that very emoji, its
/// 32x32 bitmap centred on the screen at (48, 16); its bitmap is the one
/// that `get_emoji_bitmap` gives for the content.
pub proof fn lemma_emoji_message_picture(s: Screen, content: Seq<char>, e: Emoji)
    requires
        screen_shows(s, content, "emoji"@),
        emoji_for(content) == Some(e),
    ensures
        s matches Screen::Picture { emoji, x, y } && emoji == e && x == 48 && y == 16,
        Some(e.spec_bitmap()) == match emoji_for(content) {
            Some(f) => Some(f.spec_bitmap()),
            None => None::<[u8; 128]>,
        },
{
}

/// An emoji message whose content shows none of the known emojis is drawn
/// as its text with accents stripped, as one large line in the middle of
/// the screen.
pub proof fn lemma_unknown_emoji_message_text(s: Screen, content: Seq<char>)
    requires
        screen_shows(s, content, "emoji"@),
        emoji_for(content) is None,
    ensures
        s matches Screen::Texts { items } && items@.len() == 1 && items@[0].text@ == stripped(
            content,
        ) && items@[0].font == Font::Large && items@[0].x == 64 && items@[0].y == 38,
{
}

/// A message of another kind is never a picture, even when its text holds
/// an emoji: it is the stripped text, wrapped.
pub proof fn lemma_text_message_is_text(s: Screen, content: Seq<char>, kind: Seq<char>)
    requires
        screen_shows(s, content, kind),
        kind != "emoji"@,
    ensures
        s matches Screen::Texts { items } && items@.len() == wrap_result(
            stripped(content),
            21,
        ).len() && forall|i: int|
            0 <= i < items@.len() ==> (#[trigger] items@[i]).text@ == wrap_result(
                stripped(content),
                21,
            )[i] && items@[i].font == Font::Regular && items@[i].x == 64,
{
}

/// Chooses what to show for a received message (see [`screen_shows`]).
pub fn message_screen(content: &str, kind: &str) -> (s: Screen)
    ensures
        screen_shows(s, content@, kind@),
{
    if same_text(kind, "emoji") {
        match find_emoji(content) {
            Some(e) => Screen::Picture {
                emoji: e,
                x: (SCREEN_WIDTH - BITMAP_SIDE) / 2,
                y: (SCREEN_HEIGHT - BITMAP_SIDE) / 2,
            },
            None => {
                let cleaned = strip_accents(content);
                let mut items: Vec<TextItem> = Vec::new();
                items.push(big_centered(cleaned.as_str()));
                Screen::Texts { items }
            },
        }
    } else {
        let cleaned = strip_accents(content);
        Screen::Texts { items: message_items(cleaned.as_str()) }
    }
}

} // verus!
