//! Text: comparing, searching, cutting and building strings, each operation stated over the
//! sequence of characters that the string holds.
use vstd::prelude::*;
use vstd::string::*;

verus! {

/// `String::push` appends one character.
pub assume_specification[ String::push ](s: &mut String, c: char)
    ensures
        final(s)@ == old(s)@.push(c),
;

/// The character of a decimal digit.
pub open spec fn digit(d: nat) -> char {
    (48 + d) as char
}

/// A number in decimal, without leading zeros.
pub open spec fn decimal(n: nat) -> Seq<char>
    decreases n,
{
    if n < 10 {
        seq![digit(n)]
    } else {
        decimal(n / 10).push(digit(n % 10))
    }
}

/// A number in decimal, with a sign where it is negative.
pub open spec fn signed_decimal(n: int) -> Seq<char> {
    if n < 0 {
        "-"@ + decimal((-n) as nat)
    } else {
        decimal(n as nat)
    }
}

/// A number in decimal, filled up with zeros on the left to at least `width` characters.
pub open spec fn zero_padded(n: nat, width: nat) -> Seq<char> {
    let digits = decimal(n);
    if digits.len() >= width {
        digits
    } else {
        Seq::new((width - digits.len()) as nat, |i: int| '0') + digits
    }
}

/// `needle` stands in `text` at position `at`.
pub open spec fn occurs_at(text: Seq<char>, needle: Seq<char>, at: int) -> bool {
    &&& 0 <= at
    &&& at + needle.len() <= text.len()
    &&& text.subrange(at, at + needle.len()) == needle
}

/// `needle` stands somewhere in `text`.
pub open spec fn occurs(text: Seq<char>, needle: Seq<char>) -> bool {
    exists|at: int| occurs_at(text, needle, at)
}

/// `text` begins with `prefix`.
pub open spec fn begins_with(text: Seq<char>, prefix: Seq<char>) -> bool {
    occurs_at(text, prefix, 0)
}

/// `text` without the copies of `c` at its end.
pub open spec fn trimmed_end(text: Seq<char>, c: char) -> Seq<char>
    decreases text.len(),
{
    if text.len() > 0 && text.last() == c {
        trimmed_end(text.drop_last(), c)
    } else {
        text
    }
}

/// `text` with each copy of `from` replaced by `to`, taken from the left and not overlapping.
pub open spec fn replaced(text: Seq<char>, from: Seq<char>, to: Seq<char>) -> Seq<char>
    decreases text.len(),
{
    if from.len() == 0 || text.len() < from.len() {
        text
    } else if begins_with(text, from) {
        to + replaced(text.skip(from.len() as int), from, to)
    } else {
        seq![text[0]] + replaced(text.skip(1), from, to)
    }
}

/// The position of the first `c` in `text` at or after `from`, or the length of `text`.
pub open spec fn position_of(text: Seq<char>, c: char, from: int) -> int
    decreases text.len() - from,
{
    if from < 0 || from >= text.len() {
        text.len() as int
    } else if text[from] == c {
        from
    } else {
        position_of(text, c, from + 1)
    }
}

/// The parts of `text` between the copies of `c`.
pub open spec fn split_on(text: Seq<char>, c: char) -> Seq<Seq<char>>
    decreases text.len(),
{
    let at = position_of(text, c, 0);
    if 0 <= at < text.len() {
        seq![text.take(at)] + split_on(text.skip(at + 1), c)
    } else {
        seq![text]
    }
}

/// The parts joined, with `separator` between each two.
pub open spec fn joined(parts: Seq<Seq<char>>, separator: Seq<char>) -> Seq<char>
    decreases parts.len(),
{
    if parts.len() == 0 {
        Seq::empty()
    } else if parts.len() == 1 {
        parts[0]
    } else {
        joined(parts.drop_last(), separator) + separator + parts.last()
    }
}

/// `a` comes before `b` in the order of their characters.
pub open spec fn text_before(a: Seq<char>, b: Seq<char>) -> bool
    decreases a.len(),
{
    if b.len() == 0 {
        false
    } else if a.len() == 0 {
        true
    } else if a[0] != b[0] {
        a[0] < b[0]
    } else {
        text_before(a.skip(1), b.skip(1))
    }
}

/// Each text comes before the next ones.
pub open spec fn ascending(texts: Seq<Seq<char>>) -> bool {
    forall|i: int, j: int| 0 <= i < j < texts.len() ==> text_before(#[trigger] texts[i], #[trigger] texts[j])
}

/// What the strings of a vector hold.
pub open spec fn strings(v: Seq<String>) -> Seq<Seq<char>> {
    v.map_values(|s: String| s@)
}

/// What an optional string holds.
pub open spec fn opt(o: Option<String>) -> Option<Seq<char>> {
    match o {
        Some(s) => Some(s@),
        None => None,
    }
}

pub proof fn lemma_position_of(text: Seq<char>, c: char, from: int)
    requires
        0 <= from <= text.len(),
    ensures
        from <= position_of(text, c, from) <= text.len(),
        forall|i: int| from <= i < position_of(text, c, from) ==> text[i] != c,
        position_of(text, c, from) < text.len() ==> text[position_of(text, c, from)] == c,
    decreases text.len() - from,
{
    if from < text.len() && text[from] != c {
        lemma_position_of(text, c, from + 1);
    }
}

/// Of two texts that are not the same one comes first, and not both.
pub proof fn lemma_one_comes_first(a: Seq<char>, b: Seq<char>)
    ensures
        text_before(a, b) || text_before(b, a) || a == b,
        !(text_before(a, b) && text_before(b, a)),
        !text_before(a, a),
    decreases a.len(),
{
    if a.len() > 0 {
        lemma_one_comes_first(a.skip(1), if b.len() > 0 {
            b.skip(1)
        } else {
            b
        });
        if b.len() > 0 && a[0] == b[0] && a.skip(1) == b.skip(1) {
            assert(a =~= seq![a[0]] + a.skip(1));
            assert(b =~= seq![b[0]] + b.skip(1));
        }
    } else if b.len() == 0 {
        assert(a =~= b);
    }
}

/// What comes before a text comes before those behind it.
pub proof fn lemma_order_goes_on(a: Seq<char>, b: Seq<char>, c: Seq<char>)
    requires
        text_before(a, b),
        text_before(b, c),
    ensures
        text_before(a, c),
    decreases a.len(),
{
    if a.len() > 0 && a[0] == b[0] && b[0] == c[0] {
        lemma_order_goes_on(a.skip(1), b.skip(1), c.skip(1));
    }
}

/// Whether `a` comes before `b` in the order of their characters.
pub fn comes_before(a: &str, b: &str) -> (r: bool)
    ensures
        r == text_before(a@, b@),
{
    let x = chars_of(a);
    let y = chars_of(b);
    let mut i: usize = 0;
    assert(a@.skip(0) =~= a@);
    assert(b@.skip(0) =~= b@);
    while i < x.len() && i < y.len() && x[i] == y[i]
        invariant
            x@ == a@,
            y@ == b@,
            i <= x@.len(),
            i <= y@.len(),
            text_before(a@, b@) == text_before(a@.skip(i as int), b@.skip(i as int)),
        decreases x@.len() - i,
    {
        assert(a@.skip(i as int).skip(1) =~= a@.skip(i + 1));
        assert(b@.skip(i as int).skip(1) =~= b@.skip(i + 1));
        i = i + 1;
    }
    if i >= y.len() {
        false
    } else if i >= x.len() {
        true
    } else {
        x[i] < y[i]
    }
}

/// Puts a text at its place in a list in ascending order, unless it is there.
pub fn insert_ascending(list: &mut Vec<String>, text: String)
    requires
        ascending(strings(old(list)@)),
    ensures
        ascending(strings(final(list)@)),
        strings(final(list)@).to_set() == strings(old(list)@).to_set().insert(text@),
{
    let ghost before = strings(list@);
    let mut at: usize = 0;
    while at < list.len() && comes_before(&list[at], &text)
        invariant
            at <= list@.len(),
            before == strings(list@),
            forall|j: int| 0 <= j < at ==> text_before(#[trigger] before[j], text@),
        decreases list@.len() - at,
    {
        assert(before[at as int] == list@[at as int]@);
        at = at + 1;
    }
    if at < list.len() && same(&list[at], &text) {
        assert(before[at as int] == text@);
        assert(before.to_set() =~= before.to_set().insert(text@));
        return;
    }
    list.insert(at, text);
    let ghost after = strings(list@);
    proof {
        assert(after =~= before.insert(at as int, text@));
        if at < before.len() {
            lemma_one_comes_first(before[at as int], text@);
            assert(text_before(text@, before[at as int]));
        }
        assert forall|i: int, j: int| 0 <= i < j < after.len() implies text_before(
            #[trigger] after[i],
            #[trigger] after[j],
        ) by {
            if i < at && j < at {
                assert(text_before(before[i], before[j]));
            } else if i < at && j == at {
                assert(text_before(before[i], text@));
            } else if i < at {
                assert(text_before(before[i], before[j - 1]));
            } else if i == at {
                if j - 1 > at {
                    assert(text_before(before[at as int], before[j - 1]));
                    lemma_order_goes_on(text@, before[at as int], before[j - 1]);
                }
            } else {
                assert(text_before(before[i - 1], before[j - 1]));
            }
        }
        assert forall|t: Seq<char>| after.to_set().contains(t) <==> before.to_set().insert(text@).contains(t) by {
            if after.contains(t) {
                let k = choose|k: int| 0 <= k < after.len() && after[k] == t;
                if k < at {
                    assert(before[k] == t);
                } else if k > at {
                    assert(before[k - 1] == t);
                }
            }
            if before.contains(t) {
                let k = choose|k: int| 0 <= k < before.len() && before[k] == t;
                if k < at {
                    assert(after[k] == t);
                } else {
                    assert(after[k + 1] == t);
                }
            }
            assert(after[at as int] == text@);
        }
        assert(after.to_set() =~= before.to_set().insert(text@));
    }
}

/// Whether two strings hold the same characters.
pub fn same(a: &str, b: &str) -> (r: bool)
    ensures
        r == (a@ == b@),
{
    a.to_string() == b.to_string()
}

/// Whether two optional strings are both absent or hold the same characters.
pub fn same_opt(a: &Option<String>, b: &Option<String>) -> (r: bool)
    ensures
        r == (opt(*a) == opt(*b)),
{
    match (a, b) {
        (Some(x), Some(y)) => same(x, y),
        (None, None) => true,
        _ => false,
    }
}

/// A copy of an optional string.
pub fn copy_opt(o: &Option<String>) -> (r: Option<String>)
    ensures
        r == *o,
{
    match o {
        Some(s) => Some(s.clone()),
        None => None,
    }
}

/// The characters of a string.
pub fn chars_of(s: &str) -> (r: Vec<char>)
    ensures
        r@ == s@,
{
    let mut out: Vec<char> = Vec::new();
    for c in it: s.chars()
        invariant
            it.seq() == s@,
            out@ == s@.take(it.index()),
    {
        out.push(c);
    }
    assert(s@.take(s@.len() as int) == s@);
    out
}

/// The string of a range of characters.
pub fn string_of(chars: &Vec<char>, from: usize, to: usize) -> (r: String)
    requires
        from <= to <= chars@.len(),
    ensures
        r@ == chars@.subrange(from as int, to as int),
{
    let mut out = String::new();
    let mut i: usize = from;
    while i < to
        invariant
            from <= i <= to <= chars@.len(),
            out@ == chars@.subrange(from as int, i as int),
        decreases to - i,
    {
        out.push(chars[i]);
        i = i + 1;
        assert(chars@.subrange(from as int, i as int) == chars@.subrange(from as int, i - 1).push(chars@[i - 1]));
    }
    out
}

/// Appends a number in decimal.
pub fn push_decimal(out: &mut String, n: u64)
    ensures
        final(out)@ == old(out)@ + decimal(n as nat),
    decreases n,
{
    if n >= 10 {
        push_decimal(out, n / 10);
        out.push(digit_char((n % 10) as u8));
        assert(out@ == old(out)@ + decimal(n as nat));
    } else {
        out.push(digit_char(n as u8));
        assert(out@ == old(out)@ + decimal(n as nat));
    }
}

fn digit_char(d: u8) -> (c: char)
    requires
        d < 10,
    ensures
        c == digit(d as nat),
{
    match d {
        0 => '0',
        1 => '1',
        2 => '2',
        3 => '3',
        4 => '4',
        5 => '5',
        6 => '6',
        7 => '7',
        8 => '8',
        _ => '9',
    }
}

/// Appends a number in decimal, with a sign where it is negative.
pub fn push_signed(out: &mut String, n: i32)
    ensures
        final(out)@ == old(out)@ + signed_decimal(n as int),
{
    let wide: i64 = n as i64;
    if wide < 0 {
        out.append("-");
        push_decimal(out, (-wide) as u64);
        assert(out@ =~= old(out)@ + signed_decimal(n as int));
    } else {
        push_decimal(out, wide as u64);
    }
}

/// Appends a number in decimal, with zeros on the left up to `width` characters.
pub fn push_zero_padded(out: &mut String, n: u64, width: usize)
    ensures
        final(out)@ == old(out)@ + zero_padded(n as nat, width as nat),
{
    let mut digits = String::new();
    push_decimal(&mut digits, n);
    assert(digits@ == decimal(n as nat));
    let len: usize = digits.as_str().unicode_len();
    let mut i: usize = len;
    while i < width
        invariant
            len <= i,
            len < width ==> i <= width,
            len >= width ==> i == len,
            digits@ == decimal(n as nat),
            len == digits@.len(),
            out@ == old(out)@ + Seq::new((i - len) as nat, |j: int| '0'),
        decreases width - i,
    {
        out.push('0');
        i = i + 1;
        assert(out@ == old(out)@ + Seq::new((i - len) as nat, |j: int| '0'));
    }
    out.append(&digits);
    assert(out@ == old(out)@ + zero_padded(n as nat, width as nat));
}

/// The decimal text of a number.
pub fn decimal_text(n: u64) -> (r: String)
    ensures
        r@ == decimal(n as nat),
{
    let mut out = String::new();
    push_decimal(&mut out, n);
    assert(out@ == decimal(n as nat));
    out
}

fn occurs_here(text: &Vec<char>, needle: &Vec<char>, at: usize) -> (r: bool)
    requires
        at <= text@.len(),
    ensures
        r == occurs_at(text@, needle@, at as int),
{
    if needle.len() > text.len() - at {
        return false;
    }
    let mut i: usize = 0;
    while i < needle.len()
        invariant
            i <= needle@.len(),
            at + needle@.len() <= text@.len() <= usize::MAX,
            forall|j: int| 0 <= j < i ==> text@[at + j] == needle@[j],
        decreases needle@.len() - i,
    {
        if text[at + i] != needle[i] {
            assert(text@.subrange(at as int, at + needle@.len())[i as int] != needle@[i as int]);
            return false;
        }
        i = i + 1;
    }
    assert(text@.subrange(at as int, at + needle@.len()) == needle@);
    true
}

/// Whether `needle` stands somewhere in `text`.
pub fn contains_text(text: &str, needle: &str) -> (r: bool)
    ensures
        r == occurs(text@, needle@),
{
    let hay = chars_of(text);
    let pin = chars_of(needle);
    let mut at: usize = 0;
    while at < hay.len()
        invariant
            at <= hay@.len(),
            hay@ == text@,
            pin@ == needle@,
            forall|i: int| 0 <= i < at ==> !occurs_at(text@, needle@, i),
        decreases hay@.len() - at,
    {
        if occurs_here(&hay, &pin, at) {
            return true;
        }
        at = at + 1;
    }
    if occurs_here(&hay, &pin, at) {
        return true;
    }
    assert forall|i: int| !occurs_at(text@, needle@, i) by {
        if occurs_at(text@, needle@, i) {
            assert(0 <= i <= hay@.len());
        }
    }
    false
}

/// Whether `text` begins with `prefix`.
pub fn starts_with_text(text: &str, prefix: &str) -> (r: bool)
    ensures
        r == begins_with(text@, prefix@),
{
    let hay = chars_of(text);
    let pin = chars_of(prefix);
    occurs_here(&hay, &pin, 0)
}

/// `text` without the copies of `c` at its end.
pub fn trim_end_char(text: &str, c: char) -> (r: String)
    ensures
        r@ == trimmed_end(text@, c),
{
    let hay = chars_of(text);
    let mut end: usize = hay.len();
    assert(hay@.take(end as int) == hay@);
    while end > 0 && hay[end - 1] == c
        invariant
            end <= hay@.len(),
            hay@ == text@,
            trimmed_end(text@, c) == trimmed_end(text@.take(end as int), c),
        decreases end,
    {
        assert(text@.take(end as int).drop_last() == text@.take(end - 1));
        end = end - 1;
    }
    assert(text@.take(end as int) == hay@.subrange(0, end as int));
    string_of(&hay, 0, end)
}

/// `text` with each copy of `from` replaced by `to`.
pub fn replace_text(text: &str, from: &str, to: &str) -> (r: String)
    requires
        from@.len() > 0,
    ensures
        r@ == replaced(text@, from@, to@),
{
    let hay = chars_of(text);
    let pin = chars_of(from);
    let mut out = String::new();
    let mut i: usize = 0;
    assert(text@.skip(0) == text@);
    while i < hay.len()
        invariant
            i <= hay@.len(),
            hay@ == text@,
            pin@ == from@,
            from@.len() > 0,
            out@ + replaced(text@.skip(i as int), from@, to@) == replaced(text@, from@, to@),
        decreases hay@.len() - i,
    {
        let ghost rest = text@.skip(i as int);
        let ghost before = out@;
        assert(occurs_at(hay@, pin@, i as int) <==> begins_with(rest, from@)) by {
            if i + from@.len() <= hay@.len() {
                assert(rest.subrange(0, 0 + from@.len() as int) == hay@.subrange(i as int, i + from@.len()));
            }
        }
        if occurs_here(&hay, &pin, i) {
            out.append(to);
            assert(rest.skip(from@.len() as int) == text@.skip(i + from@.len()));
            i = i + pin.len();
            assert(out@ + replaced(text@.skip(i as int), from@, to@) == before + (to@ + replaced(
                text@.skip(i as int),
                from@,
                to@,
            )));
        } else {
            out.push(hay[i]);
            i = i + 1;
            assert(rest.skip(1) == text@.skip(i as int));
            proof {
                if rest.len() < from@.len() {
                    assert(replaced(rest.skip(1), from@, to@) == rest.skip(1));
                    assert(rest == seq![rest[0]] + rest.skip(1));
                }
            }
            assert(out@ + replaced(text@.skip(i as int), from@, to@) == before + (seq![rest[0]]
                + replaced(text@.skip(i as int), from@, to@)));
        }
    }
    assert(text@.skip(i as int).len() == 0);
    assert(out@ + replaced(text@.skip(i as int), from@, to@) == out@);
    out
}

/// The parts of `text` between the copies of `c`.
pub fn split_text(text: &str, c: char) -> (r: Vec<String>)
    ensures
        strings(r@) == split_on(text@, c),
{
    let hay = chars_of(text);
    let mut out: Vec<String> = Vec::new();
    let mut start: usize = 0;
    let mut i: usize = 0;
    assert(text@.skip(0) == text@);
    assert(strings(out@) + split_on(text@, c) == split_on(text@, c));
    while i < hay.len()
        invariant
            start <= i <= hay@.len(),
            hay@ == text@,
            forall|j: int| start <= j < i ==> text@[j] != c,
            strings(out@) + split_on(text@.skip(start as int), c) == split_on(text@, c),
        decreases hay@.len() - i,
    {
        if hay[i] == c {
            let ghost rest = text@.skip(start as int);
            let ghost before = strings(out@);
            proof {
                lemma_position_of(rest, c, 0);
                let at = position_of(rest, c, 0);
                assert(rest[i - start] == c);
                assert(at == i - start) by {
                    if at < i - start {
                        assert(rest[at] == text@[start + at]);
                    }
                }
                assert(rest.take(at) == hay@.subrange(start as int, i as int));
                assert(rest.skip(at + 1) == text@.skip(i + 1));
            }
            out.push(string_of(&hay, start, i));
            start = i + 1;
            assert(strings(out@) + split_on(text@.skip(start as int), c) == before + split_on(rest, c)) by {
                let at = position_of(rest, c, 0);
                assert(split_on(rest, c) == seq![rest.take(at)] + split_on(text@.skip(start as int), c));
                assert(strings(out@) == before.push(rest.take(at)));
            }
        }
        i = i + 1;
    }
    let ghost rest = text@.skip(start as int);
    let ghost before = strings(out@);
    proof {
        lemma_position_of(rest, c, 0);
        if position_of(rest, c, 0) < rest.len() {
            assert(rest[position_of(rest, c, 0)] == text@[start + position_of(rest, c, 0)]);
        }
        assert(split_on(rest, c) == seq![rest]);
        assert(rest == hay@.subrange(start as int, hay@.len() as int));
    }
    out.push(string_of(&hay, start, hay.len()));
    assert(strings(out@) == before + seq![rest]);
    out
}

/// The strings joined, with `separator` between each two.
pub fn join_text(parts: &Vec<String>, separator: &str) -> (r: String)
    ensures
        r@ == joined(strings(parts@), separator@),
{
    let mut out = String::new();
    let mut i: usize = 0;
    while i < parts.len()
        invariant
            i <= parts@.len(),
            out@ == joined(strings(parts@).take(i as int), separator@),
        decreases parts@.len() - i,
    {
        let ghost shorter = strings(parts@).take(i as int);
        if i > 0 {
            out.append(separator);
        }
        out.append(&parts[i]);
        i = i + 1;
        let ghost longer = strings(parts@).take(i as int);
        assert(longer.drop_last() == shorter);
        assert(longer.last() == parts@[i - 1]@);
        assert(out@ == joined(longer, separator@));
    }
    assert(strings(parts@).take(i as int) == strings(parts@));
    out
}

/// A number in decimal has only digits, the last of which is its rest by ten, and no zero in front of
/// another digit; the digits before the last are the number without it.
pub proof fn law_decimal(n: nat)
    ensures
        decimal(n).len() >= 1,
        forall|i: int| 0 <= i < decimal(n).len() ==> '0' <= #[trigger] decimal(n)[i] <= '9',
        decimal(n).last() as int == '0' as int + n % 10,
        n >= 10 ==> decimal(n).drop_last() == decimal(n / 10),
        n < 10 <==> decimal(n).len() == 1,
        n > 0 ==> decimal(n)[0] != '0',
    decreases n,
{
    if n >= 10 {
        law_decimal(n / 10);
        assert(decimal(n).drop_last() =~= decimal(n / 10));
        assert forall|i: int| 0 <= i < decimal(n).len() implies '0' <= #[trigger] decimal(n)[i] <= '9' by {
            if i < decimal(n / 10).len() {
                assert(decimal(n)[i] == decimal(n / 10)[i]);
            }
        }
        assert(decimal(n)[0] == decimal(n / 10)[0]);
    }
}

/// Two numbers that read the same are the same.
pub proof fn law_decimal_tells_the_number(a: nat, b: nat)
    requires
        decimal(a) == decimal(b),
    ensures
        a == b,
    decreases a,
{
    law_decimal(a);
    law_decimal(b);
    if a >= 10 {
        law_decimal_tells_the_number(a / 10, b / 10);
    }
}

/// A number below zero is written with a sign before it, and any other without.
pub proof fn law_signed_decimal(n: int)
    ensures
        n >= 0 ==> signed_decimal(n) == decimal(n as nat),
        n < 0 ==> signed_decimal(n) == seq!['-'] + decimal((-n) as nat),
{
    reveal_strlit("-");
    assert("-"@ =~= seq!['-']);
}

/// A number that is filled up has at least the width, ends with its digits, and has only zeros before them;
/// where its digits have the width, nothing is put before them.
pub proof fn law_zero_padded(n: nat, width: nat)
    ensures
        ({
            let text = zero_padded(n, width);
            let before = text.len() - decimal(n).len();
            &&& text.len() >= width
            &&& before >= 0
            &&& before > 0 ==> text.len() == width
            &&& text.skip(before) == decimal(n)
            &&& forall|i: int| 0 <= i < before ==> #[trigger] text[i] == '0'
        }),
{
    let text = zero_padded(n, width);
    assert(text.skip(text.len() - decimal(n).len()) =~= decimal(n));
}

/// A text occurs in another exactly where the other is made of it and of what stands before and behind it;
/// a text begins with another exactly where nothing stands before it.
pub proof fn law_occurrence(before: Seq<char>, needle: Seq<char>, behind: Seq<char>, text: Seq<char>)
    ensures
        occurs(before + needle + behind, needle),
        begins_with(needle + behind, needle),
        begins_with(text, needle) ==> text == needle + text.skip(needle.len() as int),
        occurs(text, needle) ==> exists|a: Seq<char>, b: Seq<char>| text == #[trigger] (a + needle + b),
{
    let whole = before + needle + behind;
    assert(whole.subrange(before.len() as int, (before.len() + needle.len()) as int) =~= needle);
    assert(occurs_at(whole, needle, before.len() as int));
    assert((needle + behind).subrange(0, needle.len() as int) =~= needle);
    if begins_with(text, needle) {
        assert(text =~= text.subrange(0, needle.len() as int) + text.skip(needle.len() as int));
    }
    if occurs(text, needle) {
        let at = choose|at: int| occurs_at(text, needle, at);
        let a = text.take(at);
        let b = text.skip(at + needle.len());
        assert(text =~= a + text.subrange(at, at + needle.len()) + b);
        assert(text == a + needle + b);
    }
}

/// Cutting a character off the end leaves a beginning of the text that does not end with it, and drops
/// nothing but that character.
pub proof fn law_trimmed_end(text: Seq<char>, c: char)
    ensures
        trimmed_end(text, c).len() <= text.len(),
        trimmed_end(text, c) == text.take(trimmed_end(text, c).len() as int),
        trimmed_end(text, c).len() > 0 ==> trimmed_end(text, c).last() != c,
        forall|i: int| trimmed_end(text, c).len() <= i < text.len() ==> #[trigger] text[i] == c,
    decreases text.len(),
{
    if text.len() > 0 && text.last() == c {
        let shorter = text.drop_last();
        law_trimmed_end(shorter, c);
        let n = trimmed_end(shorter, c).len() as int;
        assert(shorter.take(n) =~= text.take(n));
        assert forall|i: int| n <= i < text.len() implies #[trigger] text[i] == c by {
            if i < shorter.len() {
                assert(shorter[i] == text[i]);
            }
        }
    } else {
        assert(text.take(text.len() as int) =~= text);
    }
}

/// Replacing goes through a text from its start: where the text to replace stands, the other is put, and any
/// other character stays; a text in which it does not occur stays as it is.
pub proof fn law_replaced(from: Seq<char>, to: Seq<char>, rest: Seq<char>, c: char)
    ensures
        replaced(Seq::empty(), from, to) == Seq::<char>::empty(),
        from.len() > 0 ==> replaced(from + rest, from, to) == to + replaced(rest, from, to),
        !begins_with(seq![c] + rest, from) ==> replaced(seq![c] + rest, from, to) == seq![c] + replaced(rest, from, to),
        !occurs(rest, from) ==> replaced(rest, from, to) == rest,
    decreases rest.len(),
{
    if from.len() > 0 {
        assert((from + rest).subrange(0, from.len() as int) =~= from);
        assert((from + rest).skip(from.len() as int) =~= rest);
    }
    let one = seq![c] + rest;
    if !begins_with(one, from) {
        assert(one.skip(1) =~= rest);
        if from.len() == 0 {
            assert(one.subrange(0, 0) =~= from);
        }
    }
    if !occurs(rest, from) && rest.len() > 0 {
        let behind = rest.skip(1);
        assert(!occurs_at(rest, from, 0));
        assert(!occurs(behind, from)) by {
            if occurs(behind, from) {
                let at = choose|at: int| occurs_at(behind, from, at);
                assert(rest.subrange(at + 1, at + 1 + from.len()) =~= behind.subrange(at, at + from.len()));
                assert(occurs_at(rest, from, at + 1));
            }
        }
        law_replaced(from, to, behind, c);
        assert(rest =~= seq![rest[0]] + behind);
    }
}

/// Where a text is cut at a character, no part holds it, and the parts with the character between two of
/// them are the text.
pub proof fn law_split_and_joined(text: Seq<char>, c: char)
    ensures
        split_on(text, c).len() >= 1,
        joined(split_on(text, c), seq![c]) == text,
        forall|i: int, j: int|
            0 <= i < split_on(text, c).len() && 0 <= j < split_on(text, c)[i].len() ==> (#[trigger] split_on(text, c)[i][j])
                != c,
    decreases text.len(),
{
    let at = position_of(text, c, 0);
    lemma_position_of(text, c, 0);
    let parts = split_on(text, c);
    if at < text.len() {
        let rest = text.skip(at + 1);
        law_split_and_joined(rest, c);
        lemma_joined_from_the_front(text.take(at), split_on(rest, c), seq![c]);
        assert(text =~= text.take(at) + seq![c] + rest);
        assert forall|i: int, j: int| 0 <= i < parts.len() && 0 <= j < parts[i].len() implies (#[trigger] parts[i][j])
            != c by {
            if i > 0 {
                assert(parts[i] == split_on(rest, c)[i - 1]);
                assert(split_on(rest, c)[i - 1][j] != c);
            }
        }
    }
}

/// The first part stands before the rest, with the separator between.
proof fn lemma_joined_from_the_front(first: Seq<char>, rest: Seq<Seq<char>>, separator: Seq<char>)
    requires
        rest.len() >= 1,
    ensures
        joined(seq![first] + rest, separator) == first + separator + joined(rest, separator),
    decreases rest.len(),
{
    let all = seq![first] + rest;
    if rest.len() == 1 {
        assert(all.drop_last() =~= seq![first]);
        assert(all.last() == rest[0]);
        assert(joined(seq![first], separator) == first);
    } else {
        lemma_joined_from_the_front(first, rest.drop_last(), separator);
        assert(all.drop_last() =~= seq![first] + rest.drop_last());
        assert(all.last() == rest.last());
        assert(joined(all, separator) =~= first + separator + joined(rest, separator));
    }
}

/// Joined parts stand one behind the other, with the separator between two of them; none make nothing.
pub proof fn law_joined(parts: Seq<Seq<char>>, last: Seq<char>, separator: Seq<char>)
    ensures
        joined(Seq::empty(), separator) == Seq::<char>::empty(),
        joined(seq![last], separator) == last,
        parts.len() > 0 ==> joined(parts.push(last), separator) == joined(parts, separator) + separator + last,
{
    if parts.len() > 0 {
        assert(parts.push(last).drop_last() =~= parts);
    }
}

/// Texts are ordered as in a dictionary: the first character in which two differ decides, and a beginning of
/// a text comes before the text.
pub proof fn law_order_of_texts(common: Seq<char>, a: char, b: char, x: Seq<char>, y: Seq<char>)
    ensures
        a < b ==> text_before(common + seq![a] + x, common + seq![b] + y),
        a > b ==> !text_before(common + seq![a] + x, common + seq![b] + y),
        text_before(common, common + seq![b] + y),
        !text_before(common + seq![b] + y, common),
        !text_before(common, common),
    decreases common.len(),
{
    let p = common + seq![a] + x;
    let q = common + seq![b] + y;
    lemma_one_comes_first(p, q);
    lemma_one_comes_first(common, q);
    lemma_one_comes_first(common, common);
    if common.len() > 0 {
        let fewer = common.skip(1);
        law_order_of_texts(fewer, a, b, x, y);
        assert(p.skip(1) =~= fewer + seq![a] + x);
        assert(q.skip(1) =~= fewer + seq![b] + y);
        assert(p[0] == common[0] && q[0] == common[0]);
    } else {
        assert(p[0] == a && q[0] == b);
    }
}

/// What a list of strings holds is what each holds, in order; what an optional string holds is there exactly
/// where the string is.
pub proof fn law_what_strings_hold(list: Seq<String>, i: int, o: Option<String>)
    ensures
        strings(list).len() == list.len(),
        0 <= i < list.len() ==> strings(list)[i] == list[i]@,
        opt(o) is Some <==> o is Some,
        o is Some ==> opt(o)->0 == o->0@,
{
}

/// A list is in order exactly where each text comes before all those behind it.
pub proof fn law_ascending(texts: Seq<Seq<char>>, last: Seq<char>)
    ensures
        ascending(Seq::empty()),
        ascending(seq![last]),
        ascending(texts.push(last)) <==> ascending(texts) && forall|i: int|
            0 <= i < texts.len() ==> text_before(#[trigger] texts[i], last),
{
    let more = texts.push(last);
    if ascending(more) {
        assert forall|i: int, j: int| 0 <= i < j < texts.len() implies text_before(
            #[trigger] texts[i],
            #[trigger] texts[j],
        ) by {
            assert(more[i] == texts[i] && more[j] == texts[j]);
        }
        assert forall|i: int| 0 <= i < texts.len() implies text_before(#[trigger] texts[i], last) by {
            assert(more[i] == texts[i] && more[texts.len() as int] == last);
        }
    }
}

} // verus!
