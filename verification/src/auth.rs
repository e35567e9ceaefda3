//! Who is logged in: the token at hand, and the user of whom it speaks.
//!
//! A token has three parts with dots between them. The second, in base64 with the letters that are
//! fit for addresses and without filling, is a JSON document about the user.
use vstd::prelude::*;
use vstd::string::*;
use vstd::utf8::*;
use crate::base64::{base64_url_decode, decoded, encoded, law_decode_undoes_encode, letter, pad};
use crate::json::{document, parsed_json, read_document, read_text, text_at, Json};
use crate::text::{chars_of, copy_opt, lemma_position_of, opt, position_of, string_of};

verus! {

/// The token at hand. The system's keyring holds it for longer.
#[derive(Debug)]
pub struct TokenCache {
    token: Option<String>,
}

impl View for TokenCache {
    type V = Option<Seq<char>>;

    closed spec fn view(&self) -> Option<Seq<char>> {
        opt(self.token)
    }
}

impl TokenCache {
    /// No token is at hand.
    pub fn new() -> (r: Self)
        ensures
            r@ is None,
    {
        TokenCache { token: None }
    }

    /// Whether no token is at hand, so that the keyring has to be asked.
    pub fn is_empty(&self) -> (r: bool)
        ensures
            r == (self@ is None),
    {
        self.token.is_none()
    }
}

/// What the keyring could not do.
pub enum KeyringFault {
    /// It could not be opened.
    Open(String),
    /// It could not do what it was asked for.
    Refused(String),
}

/// What is said when the keyring could not keep or give up a token.
pub open spec fn keyring_text(fault: KeyringFault, verb: Seq<char>) -> Seq<char> {
    match fault {
        KeyringFault::Open(cause) => "Failed to create keyring entry: "@ + cause@,
        KeyringFault::Refused(cause) => "Failed to "@ + verb + " token: "@ + cause@,
    }
}

/// What comes of a use of the keyring.
pub open spec fn keyring_outcome(done: Result<(), KeyringFault>, verb: Seq<char>) -> Result<(), Seq<char>> {
    match done {
        Ok(()) => Ok(()),
        Err(fault) => Err(keyring_text(fault, verb)),
    }
}

fn keyring_result(done: &Result<(), KeyringFault>, verb: &str) -> (r: Result<(), String>)
    ensures
        match r {
            Ok(()) => keyring_outcome(*done, verb@) is Ok,
            Err(e) => keyring_outcome(*done, verb@) == Err::<(), Seq<char>>(e@),
        },
{
    match done {
        Ok(()) => Ok(()),
        Err(KeyringFault::Open(cause)) => {
            let mut text = "Failed to create keyring entry: ".to_string();
            text.append(cause);
            Err(text)
        },
        Err(KeyringFault::Refused(cause)) => {
            let mut text = "Failed to ".to_string();
            text.append(verb);
            text.append(" token: ");
            text.append(cause);
            Err(text)
        },
    }
}

/// Takes a token. It is at hand even where the keyring could not keep it; `kept` is what came of
/// that.
pub fn save_token(cache: &mut TokenCache, token: &str, kept: &Result<(), KeyringFault>) -> (r: Result<(), String>)
    ensures
        final(cache)@ == Some(token@),
        match r {
            Ok(()) => keyring_outcome(*kept, "save"@) is Ok,
            Err(e) => keyring_outcome(*kept, "save"@) == Err::<(), Seq<char>>(e@),
        },
{
    cache.token = Some(token.to_string());
    keyring_result(kept, "save")
}

/// The token: the one at hand, or else the one in the keyring, unless it is empty.
pub open spec fn loaded(cache: Option<Seq<char>>, keyring: Option<Seq<char>>) -> Option<Seq<char>> {
    match cache {
        Some(token) => Some(token),
        None => match keyring {
            Some(token) => if token.len() > 0 {
                Some(token)
            } else {
                None
            },
            None => None,
        },
    }
}

/// The token. One from the keyring is at hand from then on. `keyring` is what the keyring holds; it
/// does not matter where a token is at hand.
pub fn load_token(cache: &mut TokenCache, keyring: &Option<String>) -> (r: Option<String>)
    ensures
        opt(r) == loaded(old(cache)@, opt(*keyring)),
        final(cache)@ == loaded(old(cache)@, opt(*keyring)),
{
    if cache.token.is_none() {
        match keyring {
            Some(token) => {
                if token.as_str().unicode_len() > 0 {
                    cache.token = Some(token.clone());
                }
            },
            None => {},
        }
    }
    copy_opt(&cache.token)
}

/// Gives the token up. None is at hand even where the keyring still has it; `gone` is what came of
/// that.
pub fn delete_token(cache: &mut TokenCache, gone: &Result<(), KeyringFault>) -> (r: Result<(), String>)
    ensures
        final(cache)@ is None,
        match r {
            Ok(()) => keyring_outcome(*gone, "delete"@) is Ok,
            Err(e) => keyring_outcome(*gone, "delete"@) == Err::<(), Seq<char>>(e@),
        },
{
    cache.token = None;
    keyring_result(gone, "delete")
}

/// Whether somebody is logged in.
pub fn is_logged_in(cache: &mut TokenCache, keyring: &Option<String>) -> (r: bool)
    ensures
        r == (loaded(old(cache)@, opt(*keyring)) is Some),
        final(cache)@ == loaded(old(cache)@, opt(*keyring)),
{
    load_token(cache, keyring).is_some()
}

/// A token that was saved is the one that is loaded, whatever the keyring holds; and once it has been
/// given up, only the keyring's is.
pub proof fn law_saved_token_is_loaded(token: Seq<char>, keyring: Option<Seq<char>>)
    ensures
        loaded(Some(token), keyring) == Some(token),
        loaded(None, None) is None,
        loaded(loaded(None, keyring), None) == loaded(None, keyring),
{
}

/// The second part of a token: what stands between the first dot and the second, or the end. None
/// where there is no dot.
pub open spec fn middle_part(token: Seq<char>) -> Option<Seq<char>> {
    let first = position_of(token, '.', 0);
    if first >= token.len() {
        None
    } else {
        Some(token.subrange(first + 1, position_of(token, '.', first + 1)))
    }
}

/// The text, filled up to whole groups, as far as one or two characters can do it.
pub open spec fn filled_up(text: Seq<char>) -> Seq<char> {
    let n = encode_utf8(text).len() % 4;
    if n == 2 {
        text + "=="@
    } else if n == 3 {
        text + "="@
    } else {
        text
    }
}

/// The letter of the usual alphabet for one that is fit for addresses.
pub open spec fn usual_letter(c: char) -> char {
    if c == '-' {
        '+'
    } else if c == '_' {
        '/'
    } else {
        c
    }
}

/// The text in the letters of the usual alphabet.
pub open spec fn usual_letters(text: Seq<char>) -> Seq<char> {
    text.map_values(|c: char| usual_letter(c))
}

/// The document about the user in a token, as it stands.
pub open spec fn payload(token: Seq<char>) -> Option<Seq<u8>> {
    match middle_part(token) {
        Some(part) => Some(decoded(encode_utf8(usual_letters(filled_up(part))))),
        None => None,
    }
}

/// The document about the user in a token, read without regard for the letters that are fit for
/// addresses.
pub open spec fn plain_payload(token: Seq<char>) -> Option<Seq<u8>> {
    match middle_part(token) {
        Some(part) => Some(decoded(encode_utf8(filled_up(part)))),
        None => None,
    }
}

/// What a document says, where there is one.
pub open spec fn document_in(bytes: Option<Seq<u8>>) -> Option<Json> {
    match bytes {
        Some(bytes) => parsed_json(bytes),
        None => None,
    }
}

/// The user to whom a token belongs.
pub open spec fn user_of(token: Seq<char>) -> Option<Seq<char>> {
    text_at(document_in(payload(token)), "sub"@)
}

/// The name in a document about a user: the first of three that is there.
pub open spec fn name_in(document: Option<Json>) -> Option<Seq<char>> {
    match text_at(document, "username"@) {
        Some(name) => Some(name),
        None => match text_at(document, "name"@) {
            Some(name) => Some(name),
            None => text_at(document, "display_name"@),
        },
    }
}

fn middle_text(token: &str) -> (r: Option<String>)
    ensures
        opt(r) == middle_part(token@),
{
    let chars = chars_of(token);
    proof {
        lemma_position_of(chars@, '.', 0);
    }
    let first: usize = dot_from(&chars, 0);
    if first >= chars.len() {
        return None;
    }
    proof {
        lemma_position_of(chars@, '.', first + 1);
    }
    let second: usize = dot_from(&chars, first + 1);
    Some(string_of(&chars, first + 1, second))
}

fn dot_from(chars: &Vec<char>, from: usize) -> (r: usize)
    requires
        from <= chars@.len(),
    ensures
        r == position_of(chars@, '.', from as int),
{
    let mut i: usize = from;
    while i < chars.len() && chars[i] != '.'
        invariant
            from <= i <= chars@.len(),
            position_of(chars@, '.', i as int) == position_of(chars@, '.', from as int),
        decreases chars@.len() - i,
    {
        i = i + 1;
    }
    i
}

fn fill_up(text: String) -> (r: String)
    ensures
        r@ == filled_up(text@),
{
    let n: usize = text.as_str().as_bytes().len() % 4;
    let mut text = text;
    if n == 2 {
        text.append("==");
    } else if n == 3 {
        text.append("=");
    }
    text
}

fn to_usual_letters(text: &str) -> (r: String)
    ensures
        r@ == usual_letters(text@),
{
    let chars = chars_of(text);
    let mut out = String::new();
    let mut i: usize = 0;
    while i < chars.len()
        invariant
            i <= chars@.len(),
            chars@ == text@,
            out@ == usual_letters(text@.take(i as int)),
        decreases chars@.len() - i,
    {
        let c = chars[i];
        out.push(if c == '-' {
            '+'
        } else if c == '_' {
            '/'
        } else {
            c
        });
        i = i + 1;
        assert(out@ =~= usual_letters(text@.take(i as int)));
    }
    assert(text@.take(i as int) =~= text@);
    out
}

/// The document about the user in a token.
pub fn token_payload(token: &str) -> (r: Option<Vec<u8>>)
    ensures
        match r {
            Some(bytes) => payload(token@) == Some(bytes@),
            None => payload(token@) is None,
        },
{
    match middle_text(token) {
        Some(part) => Some(base64_url_decode(&to_usual_letters(&fill_up(part)))),
        None => None,
    }
}

/// The document about the user in a token, read without regard for the letters that are fit for
/// addresses.
pub fn token_payload_plain(token: &str) -> (r: Option<Vec<u8>>)
    ensures
        match r {
            Some(bytes) => plain_payload(token@) == Some(bytes@),
            None => plain_payload(token@) is None,
        },
{
    match middle_text(token) {
        Some(part) => Some(base64_url_decode(&fill_up(part))),
        None => None,
    }
}

/// The user to whom a token belongs.
pub fn get_user_id_from_token(token: &str) -> (r: Option<String>)
    ensures
        opt(r) == user_of(token@),
{
    match token_payload(token) {
        Some(bytes) => read_text(&read_document(&bytes), "sub"),
        None => None,
    }
}

/// What is said of a user who is not known.
pub open spec fn nobody() -> Seq<char> {
    "anonymous"@
}

/// The user to whom the token belongs, if there is one.
pub open spec fn current_user(token: Option<Seq<char>>) -> Seq<char> {
    match token {
        Some(token) => match user_of(token) {
            Some(user) => user,
            None => nobody(),
        },
        None => nobody(),
    }
}

/// The user who is logged in.
pub fn current_user_id(token: &Option<String>) -> (r: String)
    ensures
        r@ == current_user(opt(*token)),
{
    match token {
        Some(token) => match get_user_id_from_token(token) {
            Some(user) => user,
            None => "anonymous".to_string(),
        },
        None => "anonymous".to_string(),
    }
}

/// The name in a document about a user.
pub fn read_name(from: &Option<serde_json::Value>) -> (r: Option<String>)
    ensures
        opt(r) == name_in(document(*from)),
{
    match read_text(from, "username") {
        Some(name) => Some(name),
        None => match read_text(from, "name") {
            Some(name) => Some(name),
            None => read_text(from, "display_name"),
        },
    }
}

/// The name of the user who is logged in.
pub open spec fn current_name(token: Option<Seq<char>>) -> Option<Seq<char>> {
    match token {
        Some(token) => name_in(document_in(plain_payload(token))),
        None => None,
    }
}

/// The name of the user who is logged in.
pub fn get_current_username(token: &Option<String>) -> (r: Option<String>)
    ensures
        opt(r) == current_name(opt(*token)),
{
    match token {
        Some(token) => match token_payload_plain(token) {
            Some(bytes) => read_name(&read_document(&bytes)),
            None => None,
        },
        None => None,
    }
}

/// The character for six bits that is fit for addresses.
pub open spec fn address_letter(v: int) -> char {
    if v == 62 {
        '-'
    } else if v == 63 {
        '_'
    } else {
        letter(v) as char
    }
}

/// Bytes as the text that stands in a token: in the letters that are fit for addresses, not filled
/// up.
pub open spec fn token_text(data: Seq<u8>) -> Seq<char>
    decreases data.len(),
{
    if data.len() == 0 {
        Seq::empty()
    } else if data.len() == 1 {
        seq![address_letter((data[0] / 4) as int), address_letter((data[0] % 4) * 16)]
    } else if data.len() == 2 {
        seq![
            address_letter((data[0] / 4) as int),
            address_letter((data[0] % 4) * 16 + data[1] / 16),
            address_letter((data[1] % 16) * 4),
        ]
    } else {
        seq![
            address_letter((data[0] / 4) as int),
            address_letter((data[0] % 4) * 16 + data[1] / 16),
            address_letter((data[1] % 16) * 4 + data[2] / 64),
            address_letter((data[2] % 64) as int),
        ] + token_text(data.skip(3))
    }
}

/// A token: a header, the document about the user, and a signature, where there is one.
pub open spec fn token_of(header: Seq<char>, data: Seq<u8>, signature: Option<Seq<char>>) -> Seq<char> {
    header.push('.') + with_signature(token_text(data), signature)
}

/// The parts of a token behind its header.
pub open spec fn with_signature(middle: Seq<char>, signature: Option<Seq<char>>) -> Seq<char> {
    match signature {
        Some(signature) => middle.push('.') + signature,
        None => middle,
    }
}

proof fn lemma_address_letter(v: int)
    requires
        0 <= v < 64,
    ensures
        usual_letter(address_letter(v)) as u8 == letter(v),
        address_letter(v) != '.',
        '\0' <= address_letter(v) <= '\u{7f}',
        '\0' <= usual_letter(address_letter(v)) <= '\u{7f}',
{
}

/// The characters are those by which bytes are written in a token.
spec fn of_letters(text: Seq<char>) -> bool {
    forall|i: int|
        0 <= i < text.len() ==> (#[trigger] text[i]) != '.' && '\0' <= text[i] <= '\u{7f}' && '\0' <= usual_letter(text[i])
            <= '\u{7f}'
}

/// The bytes of some characters in the letters of the usual alphabet.
spec fn letter_bytes(text: Seq<char>) -> Seq<u8> {
    text.map_values(|c: char| usual_letter(c) as u8)
}

/// The filling that some bytes need.
spec fn filling(data: Seq<u8>) -> Seq<u8> {
    if data.len() % 3 == 1 {
        seq![pad(), pad()]
    } else if data.len() % 3 == 2 {
        seq![pad()]
    } else {
        Seq::empty()
    }
}

proof fn lemma_token_text(data: Seq<u8>)
    ensures
        of_letters(token_text(data)),
        letter_bytes(token_text(data)) + filling(data) == encoded(data),
        data.len() % 3 == 0 ==> token_text(data).len() % 4 == 0,
        data.len() % 3 == 1 ==> token_text(data).len() % 4 == 2,
        data.len() % 3 == 2 ==> token_text(data).len() % 4 == 3,
    decreases data.len(),
{
    let text = token_text(data);
    if data.len() == 0 {
        assert(letter_bytes(text) + filling(data) =~= encoded(data));
    } else {
        let d0 = data[0];
        lemma_address_letter(d0 as int / 4);
        if data.len() == 1 {
            lemma_address_letter((d0 as int % 4) * 16);
            assert(letter_bytes(text) + filling(data) =~= encoded(data));
        } else {
            let d1 = data[1];
            lemma_address_letter((d0 as int % 4) * 16 + d1 as int / 16);
            if data.len() == 2 {
                lemma_address_letter((d1 as int % 16) * 4);
                assert(letter_bytes(text) + filling(data) =~= encoded(data));
            } else {
                let d2 = data[2];
                let rest = data.skip(3);
                lemma_address_letter((d1 as int % 16) * 4 + d2 as int / 64);
                lemma_address_letter(d2 as int % 64);
                lemma_token_text(rest);
                let head = text.take(4);
                assert(text =~= head + token_text(rest));
                assert forall|i: int| 0 <= i < text.len() implies (#[trigger] text[i]) != '.' && '\0' <= text[i]
                    <= '\u{7f}' && '\0' <= usual_letter(text[i]) <= '\u{7f}' by {
                    if i >= 4 {
                        assert(text[i] == token_text(rest)[i - 4]);
                    }
                }
                assert(letter_bytes(text) =~= letter_bytes(head) + letter_bytes(token_text(rest)));
                assert(filling(rest) == filling(data));
                assert(letter_bytes(text) + filling(data) =~= letter_bytes(head) + (letter_bytes(token_text(rest))
                    + filling(rest)));
                assert(letter_bytes(head) + encoded(rest) =~= encoded(data));
            }
        }
    }
}

proof fn lemma_middle(header: Seq<char>, middle: Seq<char>, signature: Option<Seq<char>>)
    requires
        forall|i: int| 0 <= i < header.len() ==> header[i] != '.',
        forall|i: int| 0 <= i < middle.len() ==> middle[i] != '.',
    ensures
        middle_part(header.push('.') + with_signature(middle, signature)) == Some(middle),
{
    let token = header.push('.') + with_signature(middle, signature);
    let first = header.len() as int;
    let second = first + 1 + middle.len() as int;
    lemma_position_of(token, '.', 0);
    assert(token[first] == '.');
    let p = position_of(token, '.', 0);
    assert(p == first) by {
        if p < first {
            assert(token[p] == header[p]);
        }
    }
    lemma_position_of(token, '.', first + 1);
    assert(signature is Some ==> token[second] == '.');
    let q = position_of(token, '.', first + 1);
    assert(q == second) by {
        if q < second {
            assert(token[q] == middle[q - first - 1]);
        }
    }
    assert(token.subrange(first + 1, second) =~= middle);
}

proof fn lemma_ascii_bytes(text: Seq<char>)
    requires
        forall|i: int| 0 <= i < text.len() ==> '\0' <= (#[trigger] text[i]) <= '\u{7f}',
    ensures
        encode_utf8(text) == Seq::new(text.len(), |i: int| text[i] as u8),
{
    assert(is_ascii_chars(text));
    is_ascii_chars_encode_utf8(text);
    assert(encode_utf8(text) =~= Seq::new(text.len(), |i: int| text[i] as u8));
}

/// Reading gives back what was written: the document about the user in a token is the one that was
/// put there, so that the user is the one whom it names.
pub proof fn law_token_tells_its_user(header: Seq<char>, data: Seq<u8>, signature: Option<Seq<char>>)
    requires
        forall|i: int| 0 <= i < header.len() ==> header[i] != '.',
    ensures
        payload(token_of(header, data, signature)) == Some(data),
        user_of(token_of(header, data, signature)) == text_at(parsed_json(data), "sub"@),
{
    let text = token_text(data);
    lemma_token_text(data);
    lemma_middle(header, text, signature);
    lemma_ascii_bytes(text);
    reveal_strlit("==");
    reveal_strlit("=");
    let full = usual_letters(filled_up(text));
    assert forall|i: int| 0 <= i < full.len() implies '\0' <= (#[trigger] full[i]) <= '\u{7f}' by {
        if i < text.len() {
            assert(full[i] == usual_letter(text[i]));
        }
    }
    lemma_ascii_bytes(full);
    assert(encode_utf8(full) =~= letter_bytes(text) + filling(data));
    law_decode_undoes_encode(data);
}

/// The name of a user is the one in the document of their token, where that document is written
/// without the two letters that only addresses use.
pub proof fn law_token_tells_the_name(header: Seq<char>, data: Seq<u8>, signature: Option<Seq<char>>)
    requires
        forall|i: int| 0 <= i < header.len() ==> header[i] != '.',
        !token_text(data).contains('-'),
        !token_text(data).contains('_'),
    ensures
        current_name(Some(token_of(header, data, signature))) == name_in(parsed_json(data)),
{
    let text = token_text(data);
    law_token_tells_its_user(header, data, signature);
    lemma_token_text(data);
    lemma_middle(header, text, signature);
    reveal_strlit("==");
    reveal_strlit("=");
    let full = filled_up(text);
    assert forall|i: int| 0 <= i < full.len() implies usual_letter(#[trigger] full[i]) == full[i] by {
        if i < text.len() {
            assert(full[i] == text[i]);
            assert(text.contains(text[i]));
        }
    }
    assert(usual_letters(full) =~= full);
}

/// A token at hand is used; only where there is none does that of the keyring count, and an empty one is
/// none.
pub proof fn law_which_token_is_used(cached: Seq<char>, stored: Seq<char>, keyring: Option<Seq<char>>)
    ensures
        loaded(Some(cached), keyring) == Some(cached),
        stored.len() > 0 ==> loaded(None, Some(stored)) == Some(stored),
        loaded(None, Some(Seq::empty())) is None,
        loaded(None, None) is None,
{
}

/// What the keyring says is passed on: nothing where it did what was asked, and else the cause, after what
/// could not be done.
pub proof fn law_keyring_faults(fault: KeyringFault, verb: Seq<char>)
    ensures
        keyring_outcome(Ok(()), verb) is Ok,
        keyring_outcome(Err(fault), verb) == Err::<(), Seq<char>>(
            match fault {
                KeyringFault::Open(cause) => "Failed to create keyring entry: "@ + cause@,
                KeyringFault::Refused(cause) => "Failed to "@ + verb + " token: "@ + cause@,
            },
        ),
{
}

/// The second part of a token stands behind its first dot and ends before the next one, or at the end; a
/// text without a dot has none, and so tells no user and no name.
pub proof fn law_second_part(header: Seq<char>, middle: Seq<char>, signature: Seq<char>)
    requires
        !header.contains('.'),
        !middle.contains('.'),
    ensures
        middle_part(header) is None,
        user_of(header) is None,
        current_name(Some(header)) is None,
        middle_part(header.push('.') + middle) == Some(middle),
        middle_part(header.push('.') + middle.push('.') + signature) == Some(middle),
{
    assert forall|i: int| 0 <= i < header.len() implies header[i] != '.' by {
        assert(header.contains(header[i]));
    }
    assert forall|i: int| 0 <= i < middle.len() implies middle[i] != '.' by {
        assert(middle.contains(middle[i]));
    }
    lemma_position_of(header, '.', 0);
    lemma_middle(header, middle, None);
    lemma_middle(header, middle, Some(signature));
    assert(header.push('.') + (middle.push('.') + signature) =~= header.push('.') + middle.push('.') + signature);
}

/// A part of a token is filled up to whole groups of four where two or three bytes are left over, and stays
/// as it is otherwise; the two letters for addresses become the usual ones, one for one.
pub proof fn law_part_is_filled_up(text: Seq<char>, i: int)
    requires
        0 <= i < text.len(),
    ensures
        encode_utf8(text).len() % 4 == 2 ==> filled_up(text) == text + seq!['=', '='],
        encode_utf8(text).len() % 4 == 3 ==> filled_up(text) == text.push('='),
        encode_utf8(text).len() % 4 < 2 ==> filled_up(text) == text,
        usual_letters(text).len() == text.len(),
        text[i] == '-' ==> usual_letters(text)[i] == '+',
        text[i] == '_' ==> usual_letters(text)[i] == '/',
        text[i] != '-' && text[i] != '_' ==> usual_letters(text)[i] == text[i],
{
    reveal_strlit("==");
    reveal_strlit("=");
    assert(text + "=="@ =~= text + seq!['=', '=']);
    assert(text + "="@ =~= text.push('='));
}

/// The user is the one whom the token names; without a token, or where it names none, it is nobody in
/// particular.
pub proof fn law_current_user(token: Seq<char>)
    ensures
        user_of(token) is Some ==> current_user(Some(token)) == user_of(token)->0,
        user_of(token) is None ==> current_user(Some(token)) == "anonymous"@,
        current_user(None) == "anonymous"@,
        current_name(None) is None,
        user_of(token) is Some ==> middle_part(token) is Some,
{
}

/// The name of a user is what the document says under the first of three names that it bears as a text.
pub proof fn law_name_of_the_user(fields: Map<Seq<char>, Json>)
    ensures
        ({
            let document = Some(Json::Object(fields));
            let bears = |key: Seq<char>| fields.contains_key(key) && fields[key] is Text;
            &&& bears("username"@) ==> name_in(document) == Some(fields["username"@]->Text_0)
            &&& !bears("username"@) && bears("name"@) ==> name_in(document) == Some(fields["name"@]->Text_0)
            &&& !bears("username"@) && !bears("name"@) && bears("display_name"@) ==> name_in(document) == Some(
                fields["display_name"@]->Text_0,
            )
            &&& !bears("username"@) && !bears("name"@) && !bears("display_name"@) ==> name_in(document) is None
        }),
        name_in(None) is None,
{
}

/// The letters of a token are the usual ones, but for two that are fit for addresses; its parts stand behind
/// each other, with a dot between.
pub proof fn law_letters_of_a_token(header: Seq<char>, data: Seq<u8>, signature: Seq<char>, v: int)
    ensures
        address_letter(62) == '-',
        address_letter(63) == '_',
        0 <= v < 62 ==> address_letter(v) == letter(v) as char,
        token_of(header, data, None) == header + seq!['.'] + token_text(data),
        token_of(header, data, Some(signature)) == header + seq!['.'] + token_text(data) + seq!['.'] + signature,
{
    assert(token_of(header, data, None) =~= header + seq!['.'] + token_text(data));
    assert(token_of(header, data, Some(signature)) =~= header + seq!['.'] + token_text(data) + seq!['.'] + signature);
}

/// What a token says is read from its second part, filled up and read as base64: the user with the letters
/// for addresses made usual, the name with the letters as they are. Where it holds no document, it says
/// nothing.
pub proof fn law_token_is_read(token: Seq<char>)
    ensures
        middle_part(token) matches Some(part) ==> {
            let usual = decoded(encode_utf8(usual_letters(filled_up(part))));
            let plain = decoded(encode_utf8(filled_up(part)));
            &&& user_of(token) == text_at(parsed_json(usual), "sub"@)
            &&& current_name(Some(token)) == name_in(parsed_json(plain))
            &&& parsed_json(usual) is None ==> user_of(token) is None
            &&& parsed_json(plain) is None ==> current_name(Some(token)) is None
        },
        middle_part(token) is None ==> user_of(token) is None && current_name(Some(token)) is None,
{
}

} // verus!
