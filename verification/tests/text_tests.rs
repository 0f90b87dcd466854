use love_display::accents::strip_accents;
use love_display::wrap::{wrap_text, MAX_LINES};

#[test]
fn strip_accents_french_letters() {
    assert_eq!(strip_accents("Café crème brûlée"), "Cafe creme brulee");
    assert_eq!(strip_accents("À bientôt, ça va ? Noël"), "A bientot, ca va ? Noel");
    assert_eq!(strip_accents("ÉÈÊË éèêë îïìí ÎÏÌÍ"), "EEEE eeee iiii IIII");
    assert_eq!(strip_accents("ôöòóõ ÔÖÒÓÕ ùûüú ÙÛÜÚ"), "ooooo OOOOO uuuu UUUU");
    assert_eq!(strip_accents("àâäáã ÀÂÄÁÃ ñÑ"), "aaaaa AAAAA nN");
}

#[test]
fn strip_accents_ligatures() {
    assert_eq!(strip_accents("cœur Œuvre æther Æsop"), "coeur OEuvre aether AEsop");
}

#[test]
fn strip_accents_apostrophes() {
    assert_eq!(strip_accents("l\u{2019}amour l'ami"), "l'amour l'ami");
}

#[test]
fn strip_accents_drops_emojis() {
    assert_eq!(strip_accents("❤️ je t'aime 😘"), " je t'aime ");
    assert_eq!(strip_accents("\u{2728}"), "");
}

#[test]
fn strip_accents_y_with_diaeresis() {
    assert_eq!(strip_accents("ÿ"), "y");
    assert_eq!(strip_accents("Ÿ"), "Y");
    assert_eq!(strip_accents("L'Haÿ-les-Roses"), "L'Hay-les-Roses");
    assert_eq!(strip_accents("Ýý"), "Yy");
}

#[test]
fn strip_accents_other_latin_letters() {
    assert_eq!(strip_accents("Łódź Dvořák Ångström ø"), "Lodz Dvorak Angstrom o");
    assert_eq!(strip_accents("Şişli Ćevapi ğ ő ű"), "Sisli Cevapi g o u");
}

#[test]
fn strip_accents_full_sentence() {
    assert_eq!(strip_accents("Ça été très œuvré à Noël"), "Ca ete tres oeuvre a Noel");
}

#[test]
fn strip_accents_unknown_two_byte_chars() {
    assert_eq!(strip_accents("Straße"), "Stra?e");
    assert_eq!(strip_accents("Þ ð × ÷"), "? ? ? ?");
    assert_eq!(strip_accents("ω"), "?");
    assert_eq!(strip_accents("Ĳı"), "??");
    assert_eq!(strip_accents("Ĳssel ĳ"), "?ssel ?");
}

#[test]
fn strip_accents_ascii_unchanged_and_idempotent() {
    let s = "Hello, world! 123 ~";
    assert_eq!(strip_accents(s), s);
    let once = strip_accents("Déjà vu ❤ Œil ß");
    assert_eq!(strip_accents(&once), once);
    assert!(once.is_ascii());
}

#[test]
fn strip_accents_empty() {
    assert_eq!(strip_accents(""), "");
}

#[test]
fn wrap_text_greedy_lines() {
    let lines = wrap_text("Bonjour mon amour, tu me manques beaucoup aujourd'hui", 21);
    assert_eq!(lines, vec!["Bonjour mon amour, tu", "me manques beaucoup", "aujourd'hui"]);
}

#[test]
fn wrap_text_keeps_four_lines() {
    let lines = wrap_text("a b c d e f", 1);
    assert_eq!(lines, vec!["a", "b", "c", "d"]);
    assert_eq!(lines.len(), MAX_LINES);
}

#[test]
fn wrap_text_long_word_alone() {
    let lines = wrap_text("hi abcdefghijklmnopqrstuvwxyz ok", 21);
    assert_eq!(lines, vec!["hi", "abcdefghijklmnopqrstuvwxyz", "ok"]);
}

#[test]
fn wrap_text_collapses_white_space() {
    assert_eq!(wrap_text("  hello \t\n world  ", 21), vec!["hello world"]);
    assert_eq!(wrap_text("a\u{3000}b\u{a0}c", 21), vec!["a b c"]);
    assert!(wrap_text("", 21).is_empty());
    assert!(wrap_text(" \t\n ", 21).is_empty());
}

#[test]
fn wrap_text_mixed_white_space_runs() {
    let plain = wrap_text("un deux trois quatre cinq six sept", 10);
    let mixed = wrap_text("un\t\t deux\u{2003}\n trois  quatre\r\ncinq\u{a0}six\u{3000}\u{3000}sept", 10);
    assert_eq!(mixed, plain);
    assert_eq!(plain, vec!["un deux", "trois", "quatre", "cinq six"]);
}

#[test]
fn wrap_text_counts_bytes() {
    assert_eq!(wrap_text("é é", 4), vec!["é", "é"]);
    assert_eq!(wrap_text("é é", 5), vec!["é é"]);
    assert_eq!(wrap_text("ab cd", 5), vec!["ab cd"]);
    assert_eq!(wrap_text("ab cd", 4), vec!["ab", "cd"]);
}

#[test]
fn wrap_text_zero_width() {
    assert_eq!(wrap_text("a b", 0), vec!["a", "b"]);
}

#[test]
fn wrap_text_lines_join_back_to_words() {
    let text = "un deux trois quatre cinq six";
    let lines = wrap_text(text, 10);
    assert_eq!(lines.join(" "), text.split_whitespace().collect::<Vec<_>>().join(" "));
    for line in &lines {
        assert!(!line.is_empty());
        assert!(line.len() <= 10 || !line.contains(' '));
    }
}

#[test]
fn wrap_text_is_greedy() {
    let lines = wrap_text("aaa bbb ccc ddd", 7);
    assert_eq!(lines, vec!["aaa bbb", "ccc ddd"]);
    for i in 0..lines.len() - 1 {
        let next_first = lines[i + 1].split(' ').next().unwrap();
        assert!(lines[i].len() + 1 + next_first.len() > 7);
    }
}
