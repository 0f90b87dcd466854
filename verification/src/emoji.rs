use vstd::prelude::*;

verus! {

/// Width and height, in pixels, of an emoji bitmap.
pub const BITMAP_SIDE: i32 = 32;

/// Heart. 32x32 pixels, one bit per pixel, rows of four bytes.
pub const HEART: [u8; 128] = [
    0x00, 0x00, 0x00, 0x00, 0x00, 0x00, 0x00, 0x00, 0x03, 0xE0, 0x7C, 0x00, 0x07, 0xF0, 0xFE, 0x00,
    0x0F, 0xF9, 0xFF, 0x00, 0x1F, 0xFF, 0xFF, 0x80, 0x1F, 0xFF, 0xFF, 0x80, 0x3F, 0xFF, 0xFF, 0xC0,
    0x3F, 0xFF, 0xFF, 0xC0, 0x3F, 0xFF, 0xFF, 0xC0, 0x3F, 0xFF, 0xFF, 0xC0, 0x3F, 0xFF, 0xFF, 0xC0,
    0x1F, 0xFF, 0xFF, 0x80, 0x1F, 0xFF, 0xFF, 0x80, 0x0F, 0xFF, 0xFF, 0x00, 0x0F, 0xFF, 0xFF, 0x00,
    0x07, 0xFF, 0xFE, 0x00, 0x03, 0xFF, 0xFC, 0x00, 0x01, 0xFF, 0xF8, 0x00, 0x00, 0xFF, 0xF0, 0x00,
    0x00, 0x7F, 0xE0, 0x00, 0x00, 0x3F, 0xC0, 0x00, 0x00, 0x1F, 0x80, 0x00, 0x00, 0x0F, 0x00, 0x00,
    0x00, 0x06, 0x00, 0x00, 0x00, 0x00, 0x00, 0x00, 0x00, 0x00, 0x00, 0x00, 0x00, 0x00, 0x00, 0x00,
    0x00, 0x00, 0x00, 0x00, 0x00, 0x00, 0x00, 0x00, 0x00, 0x00, 0x00, 0x00, 0x00, 0x00, 0x00, 0x00,
];

/// Kiss: a winking face with a heart. 32x32 pixels, one bit per pixel, rows of four bytes.
pub const KISS: [u8; 128] = [
    0x00, 0x00, 0x00, 0x00, 0x00, 0x3F, 0xC0, 0x00, 0x00, 0xFF, 0xF0, 0x00, 0x03, 0xFF, 0xFC, 0x00,
    0x07, 0xFF, 0xFE, 0x00, 0x07, 0xFF, 0xFE, 0x00, 0x0F, 0xFF, 0xFF, 0x00, 0x0F, 0xFF, 0xFF, 0x00,
    0x0E, 0x3F, 0xC7, 0x00, 0x0E, 0x3F, 0x87, 0x00, 0x0F, 0x1F, 0x0F, 0x00, 0x0F, 0xFF, 0xFF, 0x00,
    0x0F, 0xFF, 0xFF, 0x60, 0x0F, 0xFF, 0xFF, 0xE0, 0x07, 0xFF, 0xFF, 0xE0, 0x07, 0x81, 0xFE, 0x60,
    0x07, 0x00, 0xFE, 0x00, 0x03, 0xC3, 0xFC, 0x00, 0x00, 0xFF, 0xF0, 0x00, 0x00, 0x3F, 0xC0, 0x00,
    0x00, 0x00, 0x00, 0x00, 0x00, 0x00, 0x00, 0x00, 0x00, 0x00, 0x00, 0x00, 0x00, 0x00, 0x00, 0x00,
    0x00, 0x00, 0x00, 0x00, 0x00, 0x00, 0x00, 0x00, 0x00, 0x00, 0x00, 0x00, 0x00, 0x00, 0x00, 0x00,
    0x00, 0x00, 0x00, 0x00, 0x00, 0x00, 0x00, 0x00, 0x00, 0x00, 0x00, 0x00, 0x00, 0x00, 0x00, 0x00,
];

/// Happy smiling face. 32x32 pixels, one bit per pixel, rows of four bytes.
pub const HAPPY: [u8; 128] = [
    0x00, 0x00, 0x00, 0x00, 0x00, 0x3F, 0xC0, 0x00, 0x00, 0xFF, 0xF0, 0x00, 0x03, 0xFF, 0xFC, 0x00,
    0x07, 0xFF, 0xFE, 0x00, 0x07, 0xFF, 0xFE, 0x00, 0x0F, 0xFF, 0xFF, 0x00, 0x0F, 0xFF, 0xFF, 0x00,
    0x0E, 0x7F, 0xE7, 0x00, 0x0E, 0x7F, 0xE7, 0x00, 0x0E, 0x7F, 0xE7, 0x00, 0x0F, 0xFF, 0xFF, 0x00,
    0x0F, 0xFF, 0xFF, 0x00, 0x0F, 0xFF, 0xFF, 0x00, 0x07, 0xFF, 0xFE, 0x00, 0x07, 0x80, 0x1E, 0x00,
    0x07, 0x00, 0x0E, 0x00, 0x03, 0xC0, 0x3C, 0x00, 0x00, 0xFF, 0xF0, 0x00, 0x00, 0x3F, 0xC0, 0x00,
    0x00, 0x00, 0x00, 0x00, 0x00, 0x00, 0x00, 0x00, 0x00, 0x00, 0x00, 0x00, 0x00, 0x00, 0x00, 0x00,
    0x00, 0x00, 0x00, 0x00, 0x00, 0x00, 0x00, 0x00, 0x00, 0x00, 0x00, 0x00, 0x00, 0x00, 0x00, 0x00,
    0x00, 0x00, 0x00, 0x00, 0x00, 0x00, 0x00, 0x00, 0x00, 0x00, 0x00, 0x00, 0x00, 0x00, 0x00, 0x00,
];

/// Star. 32x32 pixels, one bit per pixel, rows of four bytes.
pub const STAR: [u8; 128] = [
    0x00, 0x00, 0x00, 0x00, 0x00, 0x01, 0x00, 0x00, 0x00, 0x01, 0x00, 0x00, 0x00, 0x03, 0x80, 0x00,
    0x00, 0x03, 0x80, 0x00, 0x00, 0x07, 0xC0, 0x00, 0x00, 0x07, 0xC0, 0x00, 0x00, 0x0F, 0xE0, 0x00,
    0x00, 0x0F, 0xE0, 0x00, 0x1F, 0xFF, 0xFF, 0x00, 0x0F, 0xFF, 0xFE, 0x00, 0x07, 0xFF, 0xFC, 0x00,
    0x03, 0xFF, 0xF8, 0x00, 0x01, 0xFF, 0xF0, 0x00, 0x00, 0xFF, 0xE0, 0x00, 0x01, 0xFF, 0xF0, 0x00,
    0x01, 0xFF, 0xF0, 0x00, 0x03, 0xFF, 0xF8, 0x00, 0x03, 0xEF, 0xF8, 0x00, 0x07, 0xC7, 0xFC, 0x00,
    0x07, 0x83, 0xBC, 0x00, 0x0F, 0x01, 0x1E, 0x00, 0x06, 0x00, 0x0C, 0x00, 0x00, 0x00, 0x00, 0x00,
    0x00, 0x00, 0x00, 0x00, 0x00, 0x00, 0x00, 0x00, 0x00, 0x00, 0x00, 0x00, 0x00, 0x00, 0x00, 0x00,
    0x00, 0x00, 0x00, 0x00, 0x00, 0x00, 0x00, 0x00, 0x00, 0x00, 0x00, 0x00, 0x00, 0x00, 0x00, 0x00,
];

/// Moon. 32x32 pixels, one bit per pixel, rows of four bytes.
pub const MOON: [u8; 128] = [
    0x00, 0x00, 0x00, 0x00, 0x00, 0x07, 0xE0, 0x00, 0x00, 0x1F, 0xE0, 0x00, 0x00, 0x7F, 0xC0, 0x00,
    0x00, 0xFF, 0x80, 0x00, 0x01, 0xFF, 0x00, 0x00, 0x03, 0xFE, 0x00, 0x00, 0x03, 0xFC, 0x00, 0x00,
    0x07, 0xFC, 0x00, 0x00, 0x07, 0xF8, 0x00, 0x00, 0x07, 0xF8, 0x00, 0x00, 0x0F, 0xF8, 0x00, 0x00,
    0x0F, 0xF8, 0x00, 0x00, 0x0F, 0xF8, 0x00, 0x00, 0x0F, 0xF8, 0x00, 0x00, 0x0F, 0xF8, 0x00, 0x00,
    0x07, 0xF8, 0x00, 0x00, 0x07, 0xFC, 0x00, 0x00, 0x07, 0xFC, 0x00, 0x00, 0x03, 0xFE, 0x00, 0x00,
    0x03, 0xFF, 0x00, 0x00, 0x01, 0xFF, 0x80, 0x00, 0x00, 0xFF, 0xC0, 0x00, 0x00, 0x7F, 0xE0, 0x00,
    0x00, 0x1F, 0xF0, 0x00, 0x00, 0x07, 0xF0, 0x00, 0x00, 0x00, 0x00, 0x00, 0x00, 0x00, 0x00, 0x00,
    0x00, 0x00, 0x00, 0x00, 0x00, 0x00, 0x00, 0x00, 0x00, 0x00, 0x00, 0x00, 0x00, 0x00, 0x00, 0x00,
];

/// The emojis that have a bitmap.
#[derive(Clone, Copy, Debug, PartialEq, Eq, Structural)]
pub enum Emoji {
    Heart,
    Kiss,
    Happy,
    Star,
    Moon,
}

impl Emoji {
    /// The bitmap of this emoji.
    pub open spec fn spec_bitmap(self) -> [u8; 128] {
        match self {
            Emoji::Heart => HEART,
            Emoji::Kiss => KISS,
            Emoji::Happy => HAPPY,
            Emoji::Star => STAR,
            Emoji::Moon => MOON,
        }
    }

    /// The bitmap of this emoji.
    pub fn bitmap(self) -> (b: [u8; 128])
        ensures
            b == self.spec_bitmap(),
    {
        match self {
            Emoji::Heart => HEART,
            Emoji::Kiss => KISS,
            Emoji::Happy => HAPPY,
            Emoji::Star => STAR,
            Emoji::Moon => MOON,
        }
    }
}


/// The emoji that `content` shows, by the first rule that matches: a red
/// heart, two hearts, a purple heart or heart hands give the heart; a kiss
/// mark or a face blowing a kiss give the kiss; a face with hearts, with
/// heart eyes or hugging gives the happy face; sparkles or the sun give the
/// star; a crescent moon gives the moon.
pub open spec fn emoji_for(content: Seq<char>) -> Option<Emoji> {
    if content.contains('\u{2764}') {
        Some(Emoji::Heart)
    } else if content.contains('\u{1F495}') {
        Some(Emoji::Heart)
    } else if content.contains('\u{1F49C}') {
        Some(Emoji::Heart)
    } else if content.contains('\u{1F48B}') {
        Some(Emoji::Kiss)
    } else if content.contains('\u{1F618}') {
        Some(Emoji::Kiss)
    } else if content.contains('\u{1F970}') {
        Some(Emoji::Happy)
    } else if content.contains('\u{1F60D}') {
        Some(Emoji::Happy)
    } else if content.contains('\u{1F917}') {
        Some(Emoji::Happy)
    } else if content.contains('\u{1FAF6}') {
        Some(Emoji::Heart)
    } else if content.contains('\u{2728}') {
        Some(Emoji::Star)
    } else if content.contains('\u{2600}') {
        Some(Emoji::Star)
    } else if content.contains('\u{1F319}') {
        Some(Emoji::Moon)
    } else {
        None
    }
}

/// Whether `target` occurs in `s`.
pub fn contains_char(s: &str, target: char) -> (found: bool)
    ensures
        found == s@.contains(target),
{
    for c in it: s.chars()
        invariant
            it.seq() == s@,
            forall|i: int| 0 <= i < it.index() ==> s@[i] != target,
    {
        if c == target {
            assert(s@[it.index()] == target);
            return true;
        }
    }
    false
}

/// Finds the emoji that `content` shows (see [`emoji_for`]).
pub fn find_emoji(content: &str) -> (e: Option<Emoji>)
    ensures
        e == emoji_for(content@),
{
    if contains_char(content, '\u{2764}') {
        Some(Emoji::Heart)
    } else if contains_char(content, '\u{1F495}') {
        Some(Emoji::Heart)
    } else if contains_char(content, '\u{1F49C}') {
        Some(Emoji::Heart)
    } else if contains_char(content, '\u{1F48B}') {
        Some(Emoji::Kiss)
    } else if contains_char(content, '\u{1F618}') {
        Some(Emoji::Kiss)
    } else if contains_char(content, '\u{1F970}') {
        Some(Emoji::Happy)
    } else if contains_char(content, '\u{1F60D}') {
        Some(Emoji::Happy)
    } else if contains_char(content, '\u{1F917}') {
        Some(Emoji::Happy)
    } else if contains_char(content, '\u{1FAF6}') {
        Some(Emoji::Heart)
    } else if contains_char(content, '\u{2728}') {
        Some(Emoji::Star)
    } else if contains_char(content, '\u{2600}') {
        Some(Emoji::Star)
    } else if contains_char(content, '\u{1F319}') {
        Some(Emoji::Moon)
    } else {
        None
    }
}

/// The bitmap of the emoji that `content` shows, if it shows one.
pub fn get_emoji_bitmap(content: &str) -> (b: Option<[u8; 128]>)
    ensures
        b == match emoji_for(content@) {
            Some(e) => Some(e.spec_bitmap()),
            None => None,
        },
{
    match find_emoji(content) {
        Some(e) => Some(e.bitmap()),
        None => None,
    }
}


/// The rules are tried in order, and the result depends only on which of
/// the twelve listed characters the content holds: a red, two or purple
/// heart gives the heart; else a kiss mark or a face blowing a kiss gives
/// the kiss, whatever else the content holds; else a face with hearts, with
/// heart eyes or hugging gives the happy face; else heart hands give the
/// heart; else sparkles or the sun give the star; else a crescent moon gives
/// the moon; without any of them there is no emoji.
pub proof fn lemma_emoji_rules(content: Seq<char>)
    ensures
        ({
            let heart = content.contains('\u{2764}') || content.contains('\u{1F495}')
                || content.contains('\u{1F49C}');
            let kiss = content.contains('\u{1F48B}') || content.contains('\u{1F618}');
            let happy = content.contains('\u{1F970}') || content.contains('\u{1F60D}')
                || content.contains('\u{1F917}');
            let hands = content.contains('\u{1FAF6}');
            let star = content.contains('\u{2728}') || content.contains('\u{2600}');
            let moon = content.contains('\u{1F319}');
            &&& heart ==> emoji_for(content) == Some(Emoji::Heart)
            &&& !heart && kiss ==> emoji_for(content) == Some(Emoji::Kiss)
            &&& !heart && !kiss && happy ==> emoji_for(content) == Some(Emoji::Happy)
            &&& !heart && !kiss && !happy && hands ==> emoji_for(content) == Some(Emoji::Heart)
            &&& !heart && !kiss && !happy && !hands && star ==> emoji_for(content) == Some(
                Emoji::Star,
            )
            &&& !heart && !kiss && !happy && !hands && !star && moon ==> emoji_for(content)
                == Some(Emoji::Moon)
            &&& !heart && !kiss && !happy && !hands && !star && !moon ==> emoji_for(content)
                is None
        }),
{
}

/// Whether `c` is one of the twelve characters that the rules look for.
pub open spec fn is_listed_emoji(c: char) -> bool {
    ||| c == '\u{2764}'
    ||| c == '\u{1F495}'
    ||| c == '\u{1F49C}'
    ||| c == '\u{1F48B}'
    ||| c == '\u{1F618}'
    ||| c == '\u{1F970}'
    ||| c == '\u{1F60D}'
    ||| c == '\u{1F917}'
    ||| c == '\u{1FAF6}'
    ||| c == '\u{2728}'
    ||| c == '\u{2600}'
    ||| c == '\u{1F319}'
}

/// Text around the emojis does not matter: adding a character that is not
/// one of the listed ones leaves the result unchanged.
pub proof fn lemma_emoji_ignores_other_chars(content: Seq<char>, c: char)
    requires
        !is_listed_emoji(c),
    ensures
        emoji_for(content.push(c)) == emoji_for(content),
{
    let p = content.push(c);
    assert forall|x: char| is_listed_emoji(x) implies p.contains(x) == content.contains(x) by {
        if content.contains(x) {
            let i = choose|i: int| 0 <= i < content.len() && content[i] == x;
            assert(p[i] == x);
        }
        if p.contains(x) {
            let i = choose|i: int| 0 <= i < p.len() && p[i] == x;
            assert(i < content.len());
            assert(content[i] == x);
        }
    }
    assert(is_listed_emoji('\u{2764}'));
    assert(is_listed_emoji('\u{1F495}'));
    assert(is_listed_emoji('\u{1F49C}'));
    assert(is_listed_emoji('\u{1F48B}'));
    assert(is_listed_emoji('\u{1F618}'));
    assert(is_listed_emoji('\u{1F970}'));
    assert(is_listed_emoji('\u{1F60D}'));
    assert(is_listed_emoji('\u{1F917}'));
    assert(is_listed_emoji('\u{1FAF6}'));
    assert(is_listed_emoji('\u{2728}'));
    assert(is_listed_emoji('\u{2600}'));
    assert(is_listed_emoji('\u{1F319}'));
}

/// The emoji found is one that the content shows.
pub proof fn lemma_emoji_found_is_shown(content: Seq<char>)
    ensures
        emoji_for(content) is Some ==> exists|x: char| is_listed_emoji(x) && content.contains(x),
{
    assert(is_listed_emoji('\u{2764}'));
    assert(is_listed_emoji('\u{1F495}'));
    assert(is_listed_emoji('\u{1F49C}'));
    assert(is_listed_emoji('\u{1F48B}'));
    assert(is_listed_emoji('\u{1F618}'));
    assert(is_listed_emoji('\u{1F970}'));
    assert(is_listed_emoji('\u{1F60D}'));
    assert(is_listed_emoji('\u{1F917}'));
    assert(is_listed_emoji('\u{1FAF6}'));
    assert(is_listed_emoji('\u{2728}'));
    assert(is_listed_emoji('\u{2600}'));
    assert(is_listed_emoji('\u{1F319}'));
}

} // verus!
