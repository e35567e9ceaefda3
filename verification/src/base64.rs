//! Base64: reading bytes back from text, four characters for every three bytes.
use vstd::prelude::*;

verus! {

/// The character that fills up the last group.
pub open spec fn pad() -> u8 {
    61
}

/// The six bits that a character stands for. One that is not of the alphabet stands for zeros.
pub open spec fn six_bits(c: u8) -> u8 {
    if 65 <= c <= 90 {
        (c - 65) as u8
    } else if 97 <= c <= 122 {
        (c - 71) as u8
    } else if 48 <= c <= 57 {
        (c + 4) as u8
    } else if c == 43 {
        62
    } else if c == 47 {
        63
    } else {
        0
    }
}

/// The bytes of one group of four characters, the third and fourth of which may be missing.
pub open spec fn group_bytes(c0: u8, c1: u8, c2: u8, c3: u8) -> Seq<u8> {
    let b0 = six_bits(c0);
    let b1 = six_bits(c1);
    let b2 = six_bits(c2);
    let b3 = six_bits(c3);
    let first = seq![(b0 * 4 + b1 / 16) as u8];
    let second = if c2 == pad() {
        first
    } else {
        first.push(((b1 % 16) * 16 + b2 / 4) as u8)
    };
    if c3 == pad() {
        second
    } else {
        second.push(((b2 % 4) * 64 + b3) as u8)
    }
}

/// The bytes that a text stands for. What does not fill a group at its end is passed over, and so is
/// everything from a group on that begins with the filling character.
pub open spec fn decoded(text: Seq<u8>) -> Seq<u8>
    decreases text.len(),
{
    if text.len() < 4 || text[0] == pad() {
        Seq::empty()
    } else {
        group_bytes(text[0], text[1], text[2], text[3]) + decoded(text.skip(4))
    }
}

fn bits_of(c: u8) -> (r: u8)
    ensures
        r == six_bits(c),
        r < 64,
{
    if 65 <= c && c <= 90 {
        c - 65
    } else if 97 <= c && c <= 122 {
        c - 71
    } else if 48 <= c && c <= 57 {
        c + 4
    } else if c == 43 {
        62
    } else if c == 47 {
        63
    } else {
        0
    }
}

/// The bytes that a text stands for.
pub fn base64_url_decode(text: &str) -> (r: Vec<u8>)
    ensures
        r@ == decoded(vstd::utf8::encode_utf8(text@)),
{
    let bytes = text.as_bytes();
    let ghost all = bytes@;
    let mut out: Vec<u8> = Vec::new();
    let mut i: usize = 0;
    assert(all.skip(0) =~= all);
    assert(out@ + decoded(all) =~= decoded(all));
    while bytes.len() - i > 3 && bytes[i] != 61
        invariant
            i <= bytes@.len(),
            all == bytes@,
            out@ + decoded(all.skip(i as int)) == decoded(all),
        decreases bytes@.len() - i,
    {
        let ghost rest = all.skip(i as int);
        let ghost before = out@;
        let c2: u8 = bytes[i + 2];
        let c3: u8 = bytes[i + 3];
        let b0: u8 = bits_of(bytes[i]);
        let b1: u8 = bits_of(bytes[i + 1]);
        let b2: u8 = bits_of(c2);
        let b3: u8 = bits_of(c3);
        out.push(b0 * 4 + b1 / 16);
        if c2 != 61 {
            out.push((b1 % 16) * 16 + b2 / 4);
        }
        if c3 != 61 {
            out.push((b2 % 4) * 64 + b3);
        }
        i = i + 4;
        proof {
            assert(rest.skip(4) =~= all.skip(i as int));
            assert(out@ =~= before + group_bytes(rest[0], rest[1], rest[2], rest[3]));
            assert(out@ + decoded(all.skip(i as int)) =~= before + (group_bytes(rest[0], rest[1], rest[2], rest[3])
                + decoded(rest.skip(4))));
        }
    }
    assert(out@ + decoded(all.skip(i as int)) =~= out@);
    out
}

/// The character for six bits.
pub open spec fn letter(v: int) -> u8 {
    if v < 26 {
        (65 + v) as u8
    } else if v < 52 {
        (71 + v) as u8
    } else if v < 62 {
        (v - 4) as u8
    } else if v == 62 {
        43
    } else {
        47
    }
}

/// The text that stands for some bytes, with its last group filled up.
pub open spec fn encoded(data: Seq<u8>) -> Seq<u8>
    decreases data.len(),
{
    if data.len() == 0 {
        Seq::empty()
    } else if data.len() == 1 {
        seq![letter((data[0] / 4) as int), letter((data[0] % 4) * 16), pad(), pad()]
    } else if data.len() == 2 {
        seq![
            letter((data[0] / 4) as int),
            letter((data[0] % 4) * 16 + data[1] / 16),
            letter((data[1] % 16) * 4),
            pad(),
        ]
    } else {
        seq![
            letter((data[0] / 4) as int),
            letter((data[0] % 4) * 16 + data[1] / 16),
            letter((data[1] % 16) * 4 + data[2] / 64),
            letter((data[2] % 64) as int),
        ] + encoded(data.skip(3))
    }
}

proof fn lemma_letter(v: int)
    requires
        0 <= v < 64,
    ensures
        six_bits(letter(v)) == v,
        letter(v) != pad(),
{
}

/// Reading gives back what was written: the bytes of the text that stands for some bytes are those
/// bytes.
pub proof fn law_decode_undoes_encode(data: Seq<u8>)
    ensures
        decoded(encoded(data)) == data,
    decreases data.len(),
{
    if data.len() == 0 {
        assert(decoded(encoded(data)) =~= data);
    } else {
        let d0 = data[0];
        lemma_letter(d0 as int / 4);
        let text = encoded(data);
        if data.len() == 1 {
            lemma_letter((d0 as int % 4) * 16);
            assert(text.skip(4).len() == 0);
            assert(decoded(text.skip(4)) =~= Seq::empty());
            assert(group_bytes(text[0], text[1], text[2], text[3]) =~= seq![d0]);
            assert(decoded(text) =~= data);
        } else {
            let d1 = data[1];
            lemma_letter((d0 as int % 4) * 16 + d1 as int / 16);
            if data.len() == 2 {
                lemma_letter((d1 as int % 16) * 4);
                assert(text.skip(4).len() == 0);
                assert(decoded(text.skip(4)) =~= Seq::empty());
                assert(group_bytes(text[0], text[1], text[2], text[3]) =~= seq![d0, d1]);
                assert(decoded(text) =~= data);
            } else {
                let d2 = data[2];
                lemma_letter((d1 as int % 16) * 4 + d2 as int / 64);
                lemma_letter(d2 as int % 64);
                law_decode_undoes_encode(data.skip(3));
                assert(text.skip(4) =~= encoded(data.skip(3)));
                assert(group_bytes(text[0], text[1], text[2], text[3]) =~= seq![d0, d1, d2]);
                assert(data =~= seq![d0, d1, d2] + data.skip(3));
            }
        }
    }
}

/// The letters in order: the capitals, the small ones, the digits, plus and slash. Any other byte stands for
/// nothing but zero bits.
pub proof fn law_alphabet(v: int, c: u8)
    ensures
        0 <= v < 26 ==> letter(v) as int == 'A' as int + v,
        26 <= v < 52 ==> letter(v) as int == 'a' as int + v - 26,
        52 <= v < 62 ==> letter(v) as int == '0' as int + v - 52,
        v == 62 ==> letter(v) as int == '+' as int,
        v == 63 ==> letter(v) as int == '/' as int,
        pad() as int == '=' as int,
        six_bits(c) < 64,
        0 <= v < 64 && c == letter(v) ==> six_bits(c) == v,
        (forall|w: int| 0 <= w < 64 ==> c != #[trigger] letter(w)) ==> six_bits(c) == 0,
{
    if six_bits(c) != 0 {
        assert(c == letter(six_bits(c) as int));
    }
}

/// Four letters stand for three bytes with the same bits; where the last, or the last two, fill up, there
/// are two bytes or one.
pub proof fn law_four_letters(c0: u8, c1: u8, c2: u8, c3: u8)
    ensures
        ({
            let bits = six_bits(c0) * 0x4_0000 + six_bits(c1) * 0x1000 + six_bits(c2) * 0x40 + six_bits(c3);
            let bytes = group_bytes(c0, c1, c2, c3);
            &&& bytes.len() == 1 + (if c2 == '=' as u8 {
                0int
            } else {
                1
            }) + (if c3 == '=' as u8 {
                0int
            } else {
                1
            })
            &&& bytes[0] as int == bits / 0x1_0000
            &&& c2 != '=' as u8 ==> bytes[1] as int == bits / 0x100 % 0x100
            &&& c3 != '=' as u8 ==> bytes.last() as int == bits % 0x100
        }),
{
    law_alphabet(0, c0);
    law_alphabet(0, c1);
    law_alphabet(0, c2);
    law_alphabet(0, c3);
    lemma_same_bits(six_bits(c0), six_bits(c1), six_bits(c2), six_bits(c3));
}

proof fn lemma_same_bits(b0: u8, b1: u8, b2: u8, b3: u8)
    requires
        b0 < 64,
        b1 < 64,
        b2 < 64,
        b3 < 64,
    ensures
        ({
            let bits = b0 * 0x4_0000 + b1 * 0x1000 + b2 * 0x40 + b3;
            &&& (b0 * 4 + b1 / 16) as u8 == bits / 0x1_0000
            &&& ((b1 % 16) * 16 + b2 / 4) as u8 == bits / 0x100 % 0x100
            &&& ((b2 % 4) * 64 + b3) as u8 == bits % 0x100
        }),
{
    let bits = b0 * 0x4_0000 + b1 * 0x1000 + b2 * 0x40 + b3;
    let first = b0 * 4 + b1 / 16;
    let second = (b1 % 16) * 16 + b2 / 4;
    let third = (b2 % 4) * 64 + b3;
    assert(bits == first * 0x1_0000 + second * 0x100 + third);
    assert(0 <= second < 256 && 0 <= third < 256 && 0 <= first < 256);
    assert(bits / 0x100 == first * 0x100 + second);
}

/// Letters are read four at a time, until fewer are left or a group begins with the one that fills up.
pub proof fn law_groups_are_read(c0: u8, c1: u8, c2: u8, c3: u8, rest: Seq<u8>, short: Seq<u8>)
    ensures
        c0 != '=' as u8 ==> decoded(seq![c0, c1, c2, c3] + rest) == group_bytes(c0, c1, c2, c3) + decoded(rest),
        c0 == '=' as u8 ==> decoded(seq![c0, c1, c2, c3] + rest) == Seq::<u8>::empty(),
        short.len() < 4 ==> decoded(short) == Seq::<u8>::empty(),
{
    assert((seq![c0, c1, c2, c3] + rest).skip(4) =~= rest);
}

} // verus!
