//! The recovery phrase.
//!
//! A recovery phrase is a human-readable encoding of the private seed: one
//! pronounceable four-letter word per seed byte, words separated by single
//! spaces. The encoding is lossless, so the phrase alone regenerates the
//! identical keypair.

use vstd::prelude::*;
use vstd::arithmetic::div_mod::lemma_fundamental_div_mod;
use vstd::string::StrSliceExecFns;
use vstd::string::StringExecFns;

verus! {

/// First letter of a word's leading syllable.
pub open spec fn onset(i: int) -> char {
    if i == 0 {
        'b'
    } else if i == 1 {
        'd'
    } else if i == 2 {
        'f'
    } else {
        'g'
    }
}

/// First letter of a word's trailing syllable.
pub open spec fn coda(i: int) -> char {
    if i == 0 {
        'k'
    } else if i == 1 {
        'l'
    } else if i == 2 {
        'm'
    } else {
        'n'
    }
}

/// Vowel of either syllable.
pub open spec fn vowel(i: int) -> char {
    if i == 0 {
        'a'
    } else if i == 1 {
        'e'
    } else if i == 2 {
        'i'
    } else {
        'o'
    }
}

/// Index encoded by a leading consonant, with four marking "none".
pub open spec fn onset_val(c: char) -> int {
    if c == 'b' {
        0
    } else if c == 'd' {
        1
    } else if c == 'f' {
        2
    } else if c == 'g' {
        3
    } else {
        4
    }
}

/// Index encoded by a trailing consonant, with four marking "none".
pub open spec fn coda_val(c: char) -> int {
    if c == 'k' {
        0
    } else if c == 'l' {
        1
    } else if c == 'm' {
        2
    } else if c == 'n' {
        3
    } else {
        4
    }
}

/// Index encoded by a vowel, with four marking "none".
pub open spec fn vowel_val(c: char) -> int {
    if c == 'a' {
        0
    } else if c == 'e' {
        1
    } else if c == 'i' {
        2
    } else if c == 'o' {
        3
    } else {
        4
    }
}

/// The leading syllable of a byte's word, from its high nibble.
pub open spec fn hi_syl(h: int) -> Seq<char> {
    seq![onset(h / 4), vowel(h % 4)]
}

/// The trailing syllable of a byte's word, from its low nibble.
pub open spec fn lo_syl(l: int) -> Seq<char> {
    seq![coda(l / 4), vowel(l % 4)]
}

/// The four-letter word that encodes one seed byte.
pub open spec fn word_of_byte(b: u8) -> Seq<char> {
    hi_syl(b as int / 16) + lo_syl(b as int % 16)
}

/// The byte encoded by a four-letter word, or nothing when the letters are
/// not a word of the phrase alphabet.
pub open spec fn byte_of_word(w: Seq<char>) -> Option<u8> {
    if w.len() == 4 {
        let o = onset_val(w[0]);
        let v1 = vowel_val(w[1]);
        let c = coda_val(w[2]);
        let v2 = vowel_val(w[3]);
        if o < 4 && v1 < 4 && c < 4 && v2 < 4 {
            Some((o * 64 + v1 * 16 + c * 4 + v2) as u8)
        } else {
            None
        }
    } else {
        None
    }
}

/// The recovery phrase of a seed: one word per byte, separated by spaces.
pub open spec fn phrase_of(s: Seq<u8>) -> Seq<char>
    decreases s.len(),
{
    if s.len() == 0 {
        Seq::empty()
    } else if s.len() == 1 {
        word_of_byte(s[0])
    } else {
        word_of_byte(s[0]) + seq![' '] + phrase_of(s.skip(1))
    }
}

/// The seed a phrase decodes to, or nothing when the phrase is malformed.
pub open spec fn decode_phrase(p: Seq<char>) -> Option<Seq<u8>>
    decreases p.len(),
{
    if p.len() == 0 {
        Some(Seq::empty())
    } else if p.len() == 4 {
        match byte_of_word(p) {
            Some(b) => Some(seq![b]),
            None => None,
        }
    } else if p.len() >= 9 && p[4] == ' ' {
        match byte_of_word(p.subrange(0, 4)) {
            Some(b) => match decode_phrase(p.skip(5)) {
                Some(rest) => Some(seq![b] + rest),
                None => None,
            },
            None => None,
        }
    } else {
        None
    }
}

/// Decoding the word of any byte gives back the byte.
proof fn lemma_word_round_trip(b: u8)
    ensures
        word_of_byte(b).len() == 4,
        byte_of_word(word_of_byte(b)) == Some(b),
{
    let hi = b as int / 16;
    let lo = b as int % 16;
    lemma_fundamental_div_mod(b as int, 16);
    lemma_fundamental_div_mod(hi, 4);
    lemma_fundamental_div_mod(lo, 4);
    assert(0 <= hi < 16 && 0 <= lo < 16);
    let w = word_of_byte(b);
    assert(w[0] == onset(hi / 4) && w[1] == vowel(hi % 4) && w[2] == coda(lo / 4) && w[3]
        == vowel(lo % 4));
    assert(onset_val(onset(hi / 4)) == hi / 4);
    assert(vowel_val(vowel(hi % 4)) == hi % 4);
    assert(coda_val(coda(lo / 4)) == lo / 4);
    assert(vowel_val(vowel(lo % 4)) == lo % 4);
    assert((hi / 4) * 64 + (hi % 4) * 16 + (lo / 4) * 4 + lo % 4 == b as int);
}

/// The length of a phrase: five character positions per byte, less the
/// missing final separator.
pub proof fn lemma_phrase_len(s: Seq<u8>)
    ensures
        s.len() == 0 ==> phrase_of(s).len() == 0,
        s.len() > 0 ==> phrase_of(s).len() == 5 * s.len() - 1,
    decreases s.len(),
{
    if s.len() > 1 {
        lemma_phrase_len(s.skip(1));
    }
}

/// Law: the recovery phrase round-trips. Decoding the phrase of any seed
/// gives back exactly that seed, so the phrase alone regenerates the
/// identical keypair.
pub proof fn lemma_phrase_round_trip(s: Seq<u8>)
    ensures
        decode_phrase(phrase_of(s)) == Some(s),
    decreases s.len(),
{
    let p = phrase_of(s);
    if s.len() == 0 {
        assert(s =~= Seq::<u8>::empty());
    } else if s.len() == 1 {
        lemma_word_round_trip(s[0]);
        assert(seq![s[0]] =~= s);
    } else {
        lemma_word_round_trip(s[0]);
        lemma_phrase_len(s.skip(1));
        lemma_phrase_round_trip(s.skip(1));
        assert(p.len() == 4 + 1 + phrase_of(s.skip(1)).len());
        assert(p.len() >= 9);
        assert(p[4] == ' ');
        assert(p.subrange(0, 4) =~= word_of_byte(s[0]));
        assert(p.skip(5) =~= phrase_of(s.skip(1)));
        assert(seq![s[0]] + s.skip(1) =~= s);
    }
}

/// Law restated over whole seeds: two seeds with the same phrase are the
/// same seed.
pub proof fn lemma_phrase_injective(s1: Seq<u8>, s2: Seq<u8>)
    requires
        phrase_of(s1) == phrase_of(s2),
    ensures
        s1 == s2,
{
    lemma_phrase_round_trip(s1);
    lemma_phrase_round_trip(s2);
}

/// The leading syllable of a high nibble, as text.
fn hi_syllable(h: u8) -> (r: &'static str)
    requires
        h < 16,
    ensures
        r@ == hi_syl(h as int),
{
    let r: &'static str = match h {
        0 => "ba",
        1 => "be",
        2 => "bi",
        3 => "bo",
        4 => "da",
        5 => "de",
        6 => "di",
        7 => "do",
        8 => "fa",
        9 => "fe",
        10 => "fi",
        11 => "fo",
        12 => "ga",
        13 => "ge",
        14 => "gi",
        _ => "go",
    };
    proof {
        reveal_strlit("ba");
        reveal_strlit("be");
        reveal_strlit("bi");
        reveal_strlit("bo");
        reveal_strlit("da");
        reveal_strlit("de");
        reveal_strlit("di");
        reveal_strlit("do");
        reveal_strlit("fa");
        reveal_strlit("fe");
        reveal_strlit("fi");
        reveal_strlit("fo");
        reveal_strlit("ga");
        reveal_strlit("ge");
        reveal_strlit("gi");
        reveal_strlit("go");
        assert(r@ =~= hi_syl(h as int));
    }
    r
}

/// The trailing syllable of a low nibble, as text.
fn lo_syllable(l: u8) -> (r: &'static str)
    requires
        l < 16,
    ensures
        r@ == lo_syl(l as int),
{
    let r: &'static str = match l {
        0 => "ka",
        1 => "ke",
        2 => "ki",
        3 => "ko",
        4 => "la",
        5 => "le",
        6 => "li",
        7 => "lo",
        8 => "ma",
        9 => "me",
        10 => "mi",
        11 => "mo",
        12 => "na",
        13 => "ne",
        14 => "ni",
        _ => "no",
    };
    proof {
        reveal_strlit("ka");
        reveal_strlit("ke");
        reveal_strlit("ki");
        reveal_strlit("ko");
        reveal_strlit("la");
        reveal_strlit("le");
        reveal_strlit("li");
        reveal_strlit("lo");
        reveal_strlit("ma");
        reveal_strlit("me");
        reveal_strlit("mi");
        reveal_strlit("mo");
        reveal_strlit("na");
        reveal_strlit("ne");
        reveal_strlit("ni");
        reveal_strlit("no");
        assert(r@ =~= lo_syl(l as int));
    }
    r
}

/// Appending one more byte extends a phrase by a separator and its word.
proof fn lemma_phrase_snoc(s: Seq<u8>, b: u8)
    ensures
        s.len() == 0 ==> phrase_of(s.push(b)) == word_of_byte(b),
        s.len() > 0 ==> phrase_of(s.push(b)) == phrase_of(s) + seq![' '] + word_of_byte(b),
    decreases s.len(),
{
    if s.len() == 0 {
        assert(s.push(b) =~= seq![b]);
        assert(phrase_of(seq![b]) == word_of_byte(b));
    } else {
        lemma_phrase_snoc(s.skip(1), b);
        assert(s.push(b).skip(1) =~= s.skip(1).push(b));
        assert(s.push(b)[0] == s[0]);
        assert(s.push(b).len() == s.len() + 1);
        if s.len() == 1 {
            assert(phrase_of(s.push(b)) == word_of_byte(s[0]) + seq![' '] + phrase_of(
                s.skip(1).push(b),
            ));
            assert(phrase_of(s) == word_of_byte(s[0]));
        } else {
            assert(phrase_of(s.push(b)) == word_of_byte(s[0]) + seq![' '] + phrase_of(
                s.skip(1).push(b),
            ));
            assert(phrase_of(s.skip(1).push(b)) == phrase_of(s.skip(1)) + seq![' ']
                + word_of_byte(b));
            assert(word_of_byte(s[0]) + seq![' '] + (phrase_of(s.skip(1)) + seq![' ']
                + word_of_byte(b)) =~= phrase_of(s) + seq![' '] + word_of_byte(b));
        }
    }
}

/// Encode a seed as its recovery phrase.
pub fn encode_phrase(seed: &[u8]) -> (r: String)
    ensures
        r@ == phrase_of(seed@),
{
    let mut out = String::new();
    let mut i: usize = 0;
    while i < seed.len()
        invariant
            i <= seed@.len(),
            out@ == phrase_of(seed@.take(i as int)),
        decreases seed@.len() - i,
    {
        if i > 0 {
            out.append(" ");
            proof {
                reveal_strlit(" ");
            }
        }
        let b = seed[i];
        out.append(hi_syllable(b / 16));
        out.append(lo_syllable(b % 16));
        proof {
            lemma_phrase_snoc(seed@.take(i as int), b);
            assert(seed@.take(i as int).push(b) =~= seed@.take(i as int + 1));
            assert(hi_syl(b as int / 16) + lo_syl(b as int % 16) == word_of_byte(b));
            if i == 0 {
                assert(out@ =~= phrase_of(seed@.take(i as int + 1)));
            } else {
                assert(out@ =~= phrase_of(seed@.take(i as int)) + seq![' '] + word_of_byte(b));
            }
        }
        i = i + 1;
    }
    proof {
        assert(seed@.take(seed@.len() as int) =~= seed@);
    }
    out
}

/// The index a leading consonant encodes, with four for any other letter.
fn onset_index(c: char) -> (r: u8)
    ensures
        r as int == onset_val(c),
{
    match c {
        'b' => 0,
        'd' => 1,
        'f' => 2,
        'g' => 3,
        _ => 4,
    }
}

/// The index a trailing consonant encodes, with four for any other letter.
fn coda_index(c: char) -> (r: u8)
    ensures
        r as int == coda_val(c),
{
    match c {
        'k' => 0,
        'l' => 1,
        'm' => 2,
        'n' => 3,
        _ => 4,
    }
}

/// The index a vowel encodes, with four for any other letter.
fn vowel_index(c: char) -> (r: u8)
    ensures
        r as int == vowel_val(c),
{
    match c {
        'a' => 0,
        'e' => 1,
        'i' => 2,
        'o' => 3,
        _ => 4,
    }
}

/// Parse one four-letter word back into its byte.
fn parse_word(c0: char, c1: char, c2: char, c3: char) -> (r: Option<u8>)
    ensures
        byte_of_word(seq![c0, c1, c2, c3]) == match r {
            Some(b) => Some(b),
            None => None::<u8>,
        },
{
    let o = onset_index(c0);
    let v1 = vowel_index(c1);
    let c = coda_index(c2);
    let v2 = vowel_index(c3);
    if o < 4 && v1 < 4 && c < 4 && v2 < 4 {
        Some(o * 64 + v1 * 16 + c * 4 + v2)
    } else {
        None
    }
}

/// Parse a recovery phrase back into the seed it encodes; fails on any
/// malformed phrase.
pub fn parse_phrase(phrase: &str) -> (r: Option<Vec<u8>>)
    ensures
        match r {
            Some(s) => decode_phrase(phrase@) == Some(s@),
            None => decode_phrase(phrase@) is None,
        },
    decreases phrase@.len(),
{
    let n = phrase.unicode_len();
    if n == 0 {
        let empty: Vec<u8> = Vec::new();
        proof {
            assert(empty@ =~= Seq::<u8>::empty());
        }
        return Some(empty);
    }
    if n == 4 {
        let w = parse_word(
            phrase.get_char(0),
            phrase.get_char(1),
            phrase.get_char(2),
            phrase.get_char(3),
        );
        proof {
            assert(seq![phrase@[0], phrase@[1], phrase@[2], phrase@[3]] =~= phrase@);
        }
        return match w {
            Some(b) => {
                let mut v: Vec<u8> = Vec::new();
                v.push(b);
                proof {
                    assert(v@ =~= seq![b]);
                }
                Some(v)
            },
            None => None,
        };
    }
    if n >= 9 && phrase.get_char(4) == ' ' {
        let w = parse_word(
            phrase.get_char(0),
            phrase.get_char(1),
            phrase.get_char(2),
            phrase.get_char(3),
        );
        proof {
            assert(seq![phrase@[0], phrase@[1], phrase@[2], phrase@[3]] =~= phrase@.subrange(0, 4));
        }
        match w {
            Some(b) => {
                let rest_str = phrase.substring_char(5, n);
                proof {
                    assert(rest_str@ =~= phrase@.skip(5));
                }
                match parse_phrase(rest_str) {
                    Some(mut rest) => {
                        let ghost rest0 = rest@;
                        let mut v: Vec<u8> = Vec::new();
                        v.push(b);
                        v.append(&mut rest);
                        proof {
                            assert(v@ =~= seq![b] + rest0);
                        }
                        Some(v)
                    },
                    None => None,
                }
            },
            None => None,
        }
    } else {
        None
    }
}

} // verus!
