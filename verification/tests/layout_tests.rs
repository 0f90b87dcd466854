use love_display::emoji::Emoji;
use love_display::layout::{big_centered, message_items, message_screen, status_items, Font, Screen};

fn ys(text: &str) -> Vec<i32> {
    message_items(text).iter().map(|i| i.y).collect()
}

#[test]
fn message_lines_are_centred() {
    assert_eq!(ys("Bonjour mon amour, tu me manques beaucoup aujourd'hui"), vec![21, 36, 51]);
    assert_eq!(ys("coucou"), vec![36]);
    assert_eq!(ys("aaaaaaaaaaaaaaaaaaaaaa bbbbbbbbbbbbbbbbbbbbbbbb"), vec![29, 44]);
    assert_eq!(
        ys("aaaaaaaaaaaaaaaaaaaaaa bbbbbbbbbbbbbbbbbbbbbbbb cccccccccccccccccccccc dddddddddddddddddddddd eeeeeeeeeeeeeeeeeeeeeeeee"),
        vec![14, 29, 44, 59]
    );
    assert!(ys("").is_empty());
}

#[test]
fn message_items_text_and_font() {
    let items = message_items("Bonjour mon amour, tu me manques beaucoup aujourd'hui");
    let texts: Vec<&str> = items.iter().map(|i| i.text.as_str()).collect();
    assert_eq!(texts, vec!["Bonjour mon amour, tu", "me manques beaucoup", "aujourd'hui"]);
    for item in &items {
        assert_eq!(item.x, 64);
        assert_eq!(item.font, Font::Regular);
    }
}

#[test]
fn status_and_big_text() {
    let items = status_items("Love Display", "WiFi...");
    assert_eq!(items.len(), 2);
    assert_eq!((items[0].text.as_str(), items[0].x, items[0].y), ("Love Display", 64, 24));
    assert_eq!((items[1].text.as_str(), items[1].x, items[1].y), ("WiFi...", 64, 44));
    let big = big_centered("Salut");
    assert_eq!((big.text.as_str(), big.x, big.y, big.font), ("Salut", 64, 38, Font::Large));
}

#[test]
fn emoji_message_with_bitmap() {
    match message_screen("❤️", "emoji") {
        Screen::Picture { emoji, x, y } => {
            assert_eq!(emoji, Emoji::Heart);
            assert_eq!((x, y), (48, 16));
        }
        other => panic!("unexpected {:?}", other),
    }
}

#[test]
fn emoji_message_without_bitmap() {
    match message_screen("Coucou 👍", "emoji") {
        Screen::Texts { items } => {
            assert_eq!(items.len(), 1);
            assert_eq!(items[0].text, "Coucou ");
            assert_eq!((items[0].x, items[0].y, items[0].font), (64, 38, Font::Large));
        }
        other => panic!("unexpected {:?}", other),
    }
}

#[test]
fn text_message() {
    match message_screen("Ça va ? ❤", "text") {
        Screen::Texts { items } => {
            assert_eq!(items.len(), 1);
            assert_eq!(items[0].text, "Ca va ?");
            assert_eq!((items[0].x, items[0].y, items[0].font), (64, 36, Font::Regular));
        }
        other => panic!("unexpected {:?}", other),
    }
}

#[test]
fn text_kind_with_emoji_is_not_a_picture() {
    match message_screen("✨", "Emoji") {
        Screen::Texts { items } => assert!(items.is_empty()),
        other => panic!("unexpected {:?}", other),
    }
}
