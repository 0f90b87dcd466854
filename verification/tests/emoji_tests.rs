use love_display::emoji::{find_emoji, get_emoji_bitmap, Emoji, HAPPY, HEART, KISS, MOON, STAR};

#[test]
fn hearts() {
    assert_eq!(get_emoji_bitmap("❤️"), Some(HEART));
    assert_eq!(get_emoji_bitmap("Je t'aime 💕"), Some(HEART));
    assert_eq!(get_emoji_bitmap("💜"), Some(HEART));
    assert_eq!(get_emoji_bitmap("🫶"), Some(HEART));
}

#[test]
fn kisses() {
    assert_eq!(get_emoji_bitmap("💋"), Some(KISS));
    assert_eq!(get_emoji_bitmap("bisous 😘"), Some(KISS));
}

#[test]
fn happy_faces() {
    assert_eq!(get_emoji_bitmap("🥰"), Some(HAPPY));
    assert_eq!(get_emoji_bitmap("😍"), Some(HAPPY));
    assert_eq!(get_emoji_bitmap("🤗"), Some(HAPPY));
}

#[test]
fn stars_and_moon() {
    assert_eq!(get_emoji_bitmap("✨"), Some(STAR));
    assert_eq!(get_emoji_bitmap("☀️"), Some(STAR));
    assert_eq!(get_emoji_bitmap("bonne nuit 🌙"), Some(MOON));
}

#[test]
fn unknown_emojis() {
    assert_eq!(get_emoji_bitmap("🙂"), None);
    assert_eq!(get_emoji_bitmap("hello"), None);
    assert_eq!(get_emoji_bitmap(""), None);
}

#[test]
fn first_rule_wins() {
    assert_eq!(find_emoji("✨❤"), Some(Emoji::Heart));
    assert_eq!(find_emoji("😘💜"), Some(Emoji::Heart));
    assert_eq!(find_emoji("🌙🤗"), Some(Emoji::Happy));
}

#[test]
fn bitmaps_differ_and_match() {
    assert_eq!(Emoji::Heart.bitmap(), HEART);
    assert_eq!(Emoji::Kiss.bitmap(), KISS);
    assert_eq!(Emoji::Happy.bitmap(), HAPPY);
    assert_eq!(Emoji::Star.bitmap(), STAR);
    assert_eq!(Emoji::Moon.bitmap(), MOON);
    assert_ne!(HEART, KISS);
    assert_eq!(HEART[8], 0x03);
    assert_eq!(MOON.len(), 128);
}
