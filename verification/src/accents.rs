use vstd::prelude::*;
use crate::chars::{char_utf8_width, is_ascii_char, push_char, utf8_len};

verus! {

/// What one input character becomes when accents are stripped: a Latin
/// letter with a diacritic (grave, acute, circumflex, tilde, diaeresis, ring,
/// cedilla, caron, breve, macron, ogonek, dot, double acute, stroke) becomes
/// its base letter; æ, œ and their capitals become their two letters; both
/// apostrophes become the ASCII apostrophe; an ASCII character stays itself;
/// a character of three or more UTF-8 bytes (emojis and the like) is dropped;
/// any other character becomes `?`.
pub open spec fn accent_replacement(c: char) -> Seq<char> {
    if c == 'À' || c == 'Á' || c == 'Â' || c == 'Ã' || c == 'Ä' || c == 'Å' || c == 'Ā'
        || c == 'Ă' || c == 'Ą' {
        seq!['A']
    } else if c == 'à' || c == 'á' || c == 'â' || c == 'ã' || c == 'ä' || c == 'å' || c == 'ā'
        || c == 'ă' || c == 'ą' {
        seq!['a']
    } else if c == 'Ç' || c == 'Ć' || c == 'Ĉ' || c == 'Ċ' || c == 'Č' {
        seq!['C']
    } else if c == 'ç' || c == 'ć' || c == 'ĉ' || c == 'ċ' || c == 'č' {
        seq!['c']
    } else if c == 'Ď' || c == 'Đ' {
        seq!['D']
    } else if c == 'ď' || c == 'đ' {
        seq!['d']
    } else if c == 'È' || c == 'É' || c == 'Ê' || c == 'Ë' || c == 'Ē' || c == 'Ĕ' || c == 'Ė'
        || c == 'Ę' || c == 'Ě' {
        seq!['E']
    } else if c == 'è' || c == 'é' || c == 'ê' || c == 'ë' || c == 'ē' || c == 'ĕ' || c == 'ė'
        || c == 'ę' || c == 'ě' {
        seq!['e']
    } else if c == 'Ĝ' || c == 'Ğ' || c == 'Ġ' || c == 'Ģ' {
        seq!['G']
    } else if c == 'ĝ' || c == 'ğ' || c == 'ġ' || c == 'ģ' {
        seq!['g']
    } else if c == 'Ĥ' || c == 'Ħ' {
        seq!['H']
    } else if c == 'ĥ' || c == 'ħ' {
        seq!['h']
    } else if c == 'Ì' || c == 'Í' || c == 'Î' || c == 'Ï' || c == 'Ĩ' || c == 'Ī' || c == 'Ĭ'
        || c == 'Į' || c == 'İ' {
        seq!['I']
    } else if c == 'ì' || c == 'í' || c == 'î' || c == 'ï' || c == 'ĩ' || c == 'ī' || c == 'ĭ'
        || c == 'į' {
        seq!['i']
    } else if c == 'Ĵ' {
        seq!['J']
    } else if c == 'ĵ' {
        seq!['j']
    } else if c == 'Ķ' {
        seq!['K']
    } else if c == 'ķ' {
        seq!['k']
    } else if c == 'Ĺ' || c == 'Ļ' || c == 'Ľ' || c == 'Ŀ' || c == 'Ł' {
        seq!['L']
    } else if c == 'ĺ' || c == 'ļ' || c == 'ľ' || c == 'ŀ' || c == 'ł' {
        seq!['l']
    } else if c == 'Ñ' || c == 'Ń' || c == 'Ņ' || c == 'Ň' {
        seq!['N']
    } else if c == 'ñ' || c == 'ń' || c == 'ņ' || c == 'ň' {
        seq!['n']
    } else if c == 'Ò' || c == 'Ó' || c == 'Ô' || c == 'Õ' || c == 'Ö' || c == 'Ø' || c == 'Ō'
        || c == 'Ŏ' || c == 'Ő' {
        seq!['O']
    } else if c == 'ò' || c == 'ó' || c == 'ô' || c == 'õ' || c == 'ö' || c == 'ø' || c == 'ō'
        || c == 'ŏ' || c == 'ő' {
        seq!['o']
    } else if c == 'Ŕ' || c == 'Ŗ' || c == 'Ř' {
        seq!['R']
    } else if c == 'ŕ' || c == 'ŗ' || c == 'ř' {
        seq!['r']
    } else if c == 'Ś' || c == 'Ŝ' || c == 'Ş' || c == 'Š' {
        seq!['S']
    } else if c == 'ś' || c == 'ŝ' || c == 'ş' || c == 'š' {
        seq!['s']
    } else if c == 'Ţ' || c == 'Ť' || c == 'Ŧ' {
        seq!['T']
    } else if c == 'ţ' || c == 'ť' || c == 'ŧ' {
        seq!['t']
    } else if c == 'Ù' || c == 'Ú' || c == 'Û' || c == 'Ü' || c == 'Ũ' || c == 'Ū' || c == 'Ŭ'
        || c == 'Ů' || c == 'Ű' || c == 'Ų' {
        seq!['U']
    } else if c == 'ù' || c == 'ú' || c == 'û' || c == 'ü' || c == 'ũ' || c == 'ū' || c == 'ŭ'
        || c == 'ů' || c == 'ű' || c == 'ų' {
        seq!['u']
    } else if c == 'Ŵ' {
        seq!['W']
    } else if c == 'ŵ' {
        seq!['w']
    } else if c == 'Ý' || c == 'Ŷ' || c == 'Ÿ' {
        seq!['Y']
    } else if c == 'ý' || c == 'ÿ' || c == 'ŷ' {
        seq!['y']
    } else if c == 'Ź' || c == 'Ż' || c == 'Ž' {
        seq!['Z']
    } else if c == 'ź' || c == 'ż' || c == 'ž' {
        seq!['z']
    } else if c == 'Œ' {
        seq!['O', 'E']
    } else if c == 'œ' {
        seq!['o', 'e']
    } else if c == 'Æ' {
        seq!['A', 'E']
    } else if c == 'æ' {
        seq!['a', 'e']
    } else if c == '\'' || c == '\u{2019}' {
        seq!['\'']
    } else if is_ascii_char(c) {
        seq![c]
    } else if char_utf8_width(c) > 2 {
        seq![]
    } else {
        seq!['?']
    }
}

/// The whole text with accents stripped, character by character.
pub open spec fn stripped(s: Seq<char>) -> Seq<char>
    decreases s.len(),
{
    if s.len() == 0 {
        seq![]
    } else {
        stripped(s.drop_last()) + accent_replacement(s.last())
    }
}

/// Every character of `s` is ASCII.
pub open spec fn all_ascii(s: Seq<char>) -> bool {
    forall|i: int| 0 <= i < s.len() ==> is_ascii_char(#[trigger] s[i])
}

fn push_replacement(out: &mut String, c: char)
    ensures
        final(out)@ == old(out)@ + accent_replacement(c),
{
    match c {
        'À' | 'Á' | 'Â' | 'Ã' | 'Ä' | 'Å' | 'Ā' | 'Ă' | 'Ą' => push_char(out, 'A'),
        'à' | 'á' | 'â' | 'ã' | 'ä' | 'å' | 'ā' | 'ă' | 'ą' => push_char(out, 'a'),
        'Ç' | 'Ć' | 'Ĉ' | 'Ċ' | 'Č' => push_char(out, 'C'),
        'ç' | 'ć' | 'ĉ' | 'ċ' | 'č' => push_char(out, 'c'),
        'Ď' | 'Đ' => push_char(out, 'D'),
        'ď' | 'đ' => push_char(out, 'd'),
        'È' | 'É' | 'Ê' | 'Ë' | 'Ē' | 'Ĕ' | 'Ė' | 'Ę' | 'Ě' => push_char(out, 'E'),
        'è' | 'é' | 'ê' | 'ë' | 'ē' | 'ĕ' | 'ė' | 'ę' | 'ě' => push_char(out, 'e'),
        'Ĝ' | 'Ğ' | 'Ġ' | 'Ģ' => push_char(out, 'G'),
        'ĝ' | 'ğ' | 'ġ' | 'ģ' => push_char(out, 'g'),
        'Ĥ' | 'Ħ' => push_char(out, 'H'),
        'ĥ' | 'ħ' => push_char(out, 'h'),
        'Ì' | 'Í' | 'Î' | 'Ï' | 'Ĩ' | 'Ī' | 'Ĭ' | 'Į' | 'İ' => push_char(out, 'I'),
        'ì' | 'í' | 'î' | 'ï' | 'ĩ' | 'ī' | 'ĭ' | 'į' => push_char(out, 'i'),
        'Ĵ' => push_char(out, 'J'),
        'ĵ' => push_char(out, 'j'),
        'Ķ' => push_char(out, 'K'),
        'ķ' => push_char(out, 'k'),
        'Ĺ' | 'Ļ' | 'Ľ' | 'Ŀ' | 'Ł' => push_char(out, 'L'),
        'ĺ' | 'ļ' | 'ľ' | 'ŀ' | 'ł' => push_char(out, 'l'),
        'Ñ' | 'Ń' | 'Ņ' | 'Ň' => push_char(out, 'N'),
        'ñ' | 'ń' | 'ņ' | 'ň' => push_char(out, 'n'),
        'Ò' | 'Ó' | 'Ô' | 'Õ' | 'Ö' | 'Ø' | 'Ō' | 'Ŏ' | 'Ő' => push_char(out, 'O'),
        'ò' | 'ó' | 'ô' | 'õ' | 'ö' | 'ø' | 'ō' | 'ŏ' | 'ő' => push_char(out, 'o'),
        'Ŕ' | 'Ŗ' | 'Ř' => push_char(out, 'R'),
        'ŕ' | 'ŗ' | 'ř' => push_char(out, 'r'),
        'Ś' | 'Ŝ' | 'Ş' | 'Š' => push_char(out, 'S'),
        'ś' | 'ŝ' | 'ş' | 'š' => push_char(out, 's'),
        'Ţ' | 'Ť' | 'Ŧ' => push_char(out, 'T'),
        'ţ' | 'ť' | 'ŧ' => push_char(out, 't'),
        'Ù' | 'Ú' | 'Û' | 'Ü' | 'Ũ' | 'Ū' | 'Ŭ' | 'Ů' | 'Ű' | 'Ų' => push_char(out, 'U'),
        'ù' | 'ú' | 'û' | 'ü' | 'ũ' | 'ū' | 'ŭ' | 'ů' | 'ű' | 'ų' => push_char(out, 'u'),
        'Ŵ' => push_char(out, 'W'),
        'ŵ' => push_char(out, 'w'),
        'Ý' | 'Ŷ' | 'Ÿ' => push_char(out, 'Y'),
        'ý' | 'ÿ' | 'ŷ' => push_char(out, 'y'),
        'Ź' | 'Ż' | 'Ž' => push_char(out, 'Z'),
        'ź' | 'ż' | 'ž' => push_char(out, 'z'),
        'Œ' => {
            push_char(out, 'O');
            push_char(out, 'E');
        },
        'œ' => {
            push_char(out, 'o');
            push_char(out, 'e');
        },
        'Æ' => {
            push_char(out, 'A');
            push_char(out, 'E');
        },
        'æ' => {
            push_char(out, 'a');
            push_char(out, 'e');
        },
        '\'' | '\u{2019}' => push_char(out, '\''),
        _ => {
            let code: u32 = c as u32;
            if code < 0x80 {
                push_char(out, c);
            } else if code < 0x800 {
                push_char(out, '?');
            }
        },
    }
    assert(final(out)@ =~= old(out)@ + accent_replacement(c));
}

/// Converts accented characters to their ASCII spelling, drops characters
/// of three or more UTF-8 bytes and turns any other non-ASCII character
/// into `?`.
pub fn strip_accents(input: &str) -> (output: String)
    ensures
        output@ == stripped(input@),
{
    let mut output = String::new();
    for c in it: input.chars()
        invariant
            it.seq() == input@,
            output@ == stripped(it.seq().take(it.index())),
    {
        proof {
            assert(it.seq().take(it.index() + 1).drop_last() =~= it.seq().take(it.index()));
        }
        push_replacement(&mut output, c);
    }
    assert(input@.take(input@.len() as int) =~= input@);
    output
}


proof fn lemma_replacement_ascii(c: char)
    ensures
        all_ascii(accent_replacement(c)),
{
}

/// Stripping accents yields pure ASCII text.
pub proof fn lemma_stripped_is_ascii(s: Seq<char>)
    ensures
        all_ascii(stripped(s)),
    decreases s.len(),
{
    if s.len() > 0 {
        lemma_stripped_is_ascii(s.drop_last());
        lemma_replacement_ascii(s.last());
        let a = stripped(s.drop_last());
        let b = accent_replacement(s.last());
        assert forall|i: int| 0 <= i < (a + b).len() implies is_ascii_char(#[trigger] (a + b)[i]) by {
            if i < a.len() {
                assert((a + b)[i] == a[i]);
            } else {
                assert((a + b)[i] == b[i - a.len()]);
            }
        }
    }
}

/// Text that is already ASCII passes through unchanged.
pub proof fn lemma_stripped_ascii_identity(s: Seq<char>)
    requires
        all_ascii(s),
    ensures
        stripped(s) == s,
    decreases s.len(),
{
    if s.len() > 0 {
        let p = s.drop_last();
        assert(all_ascii(p)) by {
            assert forall|i: int| 0 <= i < p.len() implies is_ascii_char(#[trigger] p[i]) by {
                assert(p[i] == s[i]);
            }
        }
        lemma_stripped_ascii_identity(p);
        let c = s.last();
        assert(is_ascii_char(s[s.len() - 1]));
        assert(accent_replacement(c) == seq![c]);
        assert(p.push(c) =~= s);
    }
}

/// Stripping accents twice gives the same text as stripping them once.
pub proof fn lemma_stripped_idempotent(s: Seq<char>)
    ensures
        stripped(stripped(s)) == stripped(s),
{
    lemma_stripped_is_ascii(s);
    lemma_stripped_ascii_identity(stripped(s));
}

/// Stripping works piecewise: the text of two parts is stripped part by part.
pub proof fn lemma_stripped_concat(a: Seq<char>, b: Seq<char>)
    ensures
        stripped(a + b) == stripped(a) + stripped(b),
    decreases b.len(),
{
    if b.len() == 0 {
        assert(a + b =~= a);
        assert(stripped(a) + stripped(b) =~= stripped(a));
    } else {
        lemma_stripped_concat(a, b.drop_last());
        assert((a + b).drop_last() =~= a + b.drop_last());
        assert((a + b).last() == b.last());
        assert(stripped(a) + stripped(b.drop_last()) + accent_replacement(b.last())
            =~= stripped(a) + (stripped(b.drop_last()) + accent_replacement(b.last())));
    }
}


/// A character of three or more UTF-8 bytes (emojis, dashes, quotation
/// marks, the ellipsis and the like), other than the right single
/// quotation mark, adds nothing to the stripped text.
pub proof fn lemma_wide_chars_dropped(s: Seq<char>, c: char)
    requires
        char_utf8_width(c) >= 3,
        c != '\u{2019}',
    ensures
        stripped(s.push(c)) == stripped(s),
{
    assert(s.push(c).drop_last() =~= s);
    assert(accent_replacement(c) =~= Seq::<char>::empty());
    assert(stripped(s) + Seq::<char>::empty() =~= stripped(s));
}

/// An ASCII character is kept as it is, after the stripped text before it.
pub proof fn lemma_ascii_char_kept(s: Seq<char>, c: char)
    requires
        is_ascii_char(c),
    ensures
        stripped(s.push(c)) == stripped(s).push(c),
{
    assert(s.push(c).drop_last() =~= s);
    assert(stripped(s) + seq![c] =~= stripped(s).push(c));
}

/// A character of two UTF-8 bytes becomes one or two ASCII letters or `?`:
/// it is never dropped.
pub proof fn lemma_two_byte_chars_replaced(s: Seq<char>, c: char)
    requires
        char_utf8_width(c) == 2,
    ensures
        1 <= stripped(s.push(c)).len() - stripped(s).len() <= 2,
{
    assert(s.push(c).drop_last() =~= s);
}

proof fn lemma_replacement_not_longer(c: char)
    ensures
        utf8_len(accent_replacement(c)) <= char_utf8_width(c),
{
    let r = accent_replacement(c);
    lemma_replacement_ascii(c);
    if r.len() == 1 {
        assert(r.drop_last() =~= Seq::<char>::empty());
        assert(is_ascii_char(r[0]));
        assert(r.last() == r[0]);
        assert(char_utf8_width(r[0]) == 1);
        assert(utf8_len(r) == utf8_len(Seq::<char>::empty()) + char_utf8_width(r[0]));
    } else if r.len() == 2 {
        assert(r.drop_last() =~= seq![r[0]]);
        assert(seq![r[0]].drop_last() =~= Seq::<char>::empty());
        assert(is_ascii_char(r[0]) && is_ascii_char(r[1]));
        assert(seq![r[0]].last() == r[0]);
        assert(r.last() == r[1]);
        assert(char_utf8_width(r[0]) == 1 && char_utf8_width(r[1]) == 1);
        assert(utf8_len(seq![r[0]]) == utf8_len(Seq::<char>::empty()) + char_utf8_width(r[0]));
        assert(utf8_len(r) == utf8_len(seq![r[0]]) + char_utf8_width(r[1]));
        assert(c == 'Œ' || c == 'œ' || c == 'Æ' || c == 'æ');
        assert(char_utf8_width(c) == 2);
    } else {
        assert(r.len() == 0);
    }
}

/// Both apostrophes, the typewriter one and the right single quotation
/// mark, come out as the typewriter apostrophe.
pub proof fn lemma_apostrophes(s: Seq<char>)
    ensures
        stripped(s.push('\'')) == stripped(s).push('\''),
        stripped(s.push('\u{2019}')) == stripped(s).push('\''),
{
    assert(s.push('\'').drop_last() =~= s);
    assert(s.push('\u{2019}').drop_last() =~= s);
    assert(stripped(s) + seq!['\''] =~= stripped(s).push('\''));
}

/// A two-byte character outside the Latin letters U+00C0 to U+017F (Greek,
/// Cyrillic, and the like) comes out as `?`.
pub proof fn lemma_other_two_byte_chars_unknown(s: Seq<char>, c: char)
    requires
        char_utf8_width(c) == 2,
        !(0xC0 <= c as u32 <= 0x17F),
    ensures
        stripped(s.push(c)) == stripped(s).push('?'),
{
    assert(s.push(c).drop_last() =~= s);
    assert(accent_replacement(c) == seq!['?']);
    assert(stripped(s) + seq!['?'] =~= stripped(s).push('?'));
}

/// Stripping never makes a text longer in bytes.
pub proof fn lemma_stripped_not_longer(s: Seq<char>)
    ensures
        utf8_len(stripped(s)) <= utf8_len(s),
    decreases s.len(),
{
    if s.len() > 0 {
        lemma_stripped_not_longer(s.drop_last());
        lemma_replacement_not_longer(s.last());
        crate::chars::lemma_utf8_len_concat(stripped(s.drop_last()), accent_replacement(s.last()));
    }
}

} // verus!
