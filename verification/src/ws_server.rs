//! The local server: one port for the clients that listen to messages and for those that only ask
//! whether it is there.
use vstd::prelude::*;
use vstd::string::*;
use vstd::utf8::*;
use crate::text::{chars_of, contains_text, decimal, occurs, opt, push_decimal, same, string_of};
use crate::transfer::message::Message;

verus! {

/// std's `Utf8Error`: why bytes are no text.
#[verifier::external_type_specification]
#[verifier::external_body]
pub struct ExUtf8Error(core::str::Utf8Error);

/// `str::from_utf8`: the text that the bytes are, if they are valid UTF-8.
pub assume_specification[ core::str::from_utf8 ](v: &[u8]) -> (r: Result<&str, core::str::Utf8Error>)
    ensures
        match r {
            Ok(s) => valid_utf8(v@) && s@ == decode_utf8(v@),
            Err(_) => !valid_utf8(v@),
        },
;

/// The beginning of a request as text; nothing where the bytes are no text.
pub open spec fn header_text(bytes: Seq<u8>) -> Seq<char> {
    if valid_utf8(bytes) {
        decode_utf8(bytes)
    } else {
        Seq::empty()
    }
}

/// The request asks for a connection that stays, in one of three spellings.
pub open spec fn asks_upgrade(header: Seq<char>) -> bool {
    ||| occurs(header, "Upgrade: websocket"@)
    ||| occurs(header, "Upgrade: Websocket"@)
    ||| occurs(header, "upgrade: websocket"@)
}

/// How a connection is served.
pub enum Service {
    /// It stays, and gets messages.
    Socket,
    /// It is answered and closed. This is the beginning of its request.
    Http(String),
}

/// Decides, from the first bytes of a connection, how it is served.
pub fn dispatch_connection(first: &[u8]) -> (r: Service)
    ensures
        match r {
            Service::Socket => asks_upgrade(header_text(first@)),
            Service::Http(header) => !asks_upgrade(header_text(first@)) && header@ == header_text(first@),
        },
{
    let header = match core::str::from_utf8(first) {
        Ok(text) => text.to_string(),
        Err(_) => String::new(),
    };
    assert(header@ =~= header_text(first@));
    if contains_text(&header, "Upgrade: websocket") || contains_text(&header, "Upgrade: Websocket")
        || contains_text(&header, "upgrade: websocket") {
        Service::Socket
    } else {
        Service::Http(header)
    }
}

/// The character is white space.
pub open spec fn is_space(c: char) -> bool {
    ||| '\u{9}' <= c <= '\u{d}'
    ||| c == ' '
    ||| c == '\u{85}'
    ||| c == '\u{a0}'
    ||| c == '\u{1680}'
    ||| '\u{2000}' <= c <= '\u{200a}'
    ||| c == '\u{2028}'
    ||| c == '\u{2029}'
    ||| c == '\u{202f}'
    ||| c == '\u{205f}'
    ||| c == '\u{3000}'
}

/// The place of the first character at or behind `from` that is white space, or is not; the length
/// where there is none.
pub open spec fn run_end(text: Seq<char>, from: int, space: bool) -> int
    decreases text.len() - from,
{
    if from < 0 || from >= text.len() {
        text.len() as int
    } else if is_space(text[from]) == space {
        run_end(text, from + 1, space)
    } else {
        from
    }
}

/// The second word of a text: what stands between white space behind the first. None where there is
/// none.
pub open spec fn second_word(text: Seq<char>) -> Option<Seq<char>> {
    let first = run_end(text, 0, true);
    let gap = run_end(text, first, false);
    let second = run_end(text, gap, true);
    if second < text.len() {
        Some(text.subrange(second, run_end(text, second, false)))
    } else {
        None
    }
}

/// The first line of a text, without what ends it.
pub open spec fn first_line(text: Seq<char>) -> Seq<char> {
    let end = crate::text::position_of(text, '\n', 0);
    if 0 < end < text.len() && text[end - 1] == '\r' {
        text.take(end - 1)
    } else {
        text.take(end)
    }
}

/// What a request is about: the second word of its first line, or else the root.
pub open spec fn request_path(request: Seq<char>) -> Seq<char> {
    match second_word(first_line(request)) {
        Some(path) => path,
        None => "/"@,
    }
}

/// What a request is answered: that the client is there, or that there is nothing.
pub open spec fn answer_parts(path: Seq<char>) -> (Seq<char>, Seq<char>) {
    if path == "/ping"@ {
        ("200 OK"@, "{\"status\":\"ok\",\"service\":\"ipams-client\"}"@)
    } else {
        ("404 Not Found"@, "{\"error\":\"not found\"}"@)
    }
}

/// An answer of the server.
pub open spec fn http_answer(status: Seq<char>, body: Seq<char>) -> Seq<char> {
    "HTTP/1.1 "@ + status
        + "\r\nContent-Type: application/json\r\nAccess-Control-Allow-Origin: *\r\nContent-Length: "@ + decimal(
        encode_utf8(body).len(),
    ) + "\r\nConnection: close\r\n\r\n"@ + body
}

fn space_char(c: char) -> (r: bool)
    ensures
        r == is_space(c),
{
    ('\u{9}' <= c && c <= '\u{d}') || c == ' ' || c == '\u{85}' || c == '\u{a0}' || c == '\u{1680}' || ('\u{2000}'
        <= c && c <= '\u{200a}') || c == '\u{2028}' || c == '\u{2029}' || c == '\u{202f}' || c == '\u{205f}' || c
        == '\u{3000}'
}

fn find_run_end(chars: &Vec<char>, from: usize, space: bool) -> (r: usize)
    requires
        from <= chars@.len(),
    ensures
        r == run_end(chars@, from as int, space),
        from <= r <= chars@.len(),
{
    let mut i: usize = from;
    while i < chars.len() && space_char(chars[i]) == space
        invariant
            from <= i <= chars@.len(),
            run_end(chars@, i as int, space) == run_end(chars@, from as int, space),
        decreases chars@.len() - i,
    {
        i = i + 1;
    }
    i
}

fn find_second_word(text: &str) -> (r: Option<String>)
    ensures
        opt(r) == second_word(text@),
{
    let chars = chars_of(text);
    let first: usize = find_run_end(&chars, 0, true);
    let gap: usize = find_run_end(&chars, first, false);
    let second: usize = find_run_end(&chars, gap, true);
    if second >= chars.len() {
        return None;
    }
    let end: usize = find_run_end(&chars, second, false);
    Some(string_of(&chars, second, end))
}

fn find_first_line(text: &str) -> (r: String)
    ensures
        r@ == first_line(text@),
{
    let chars = chars_of(text);
    let mut end: usize = 0;
    while end < chars.len() && chars[end] != '\n'
        invariant
            end <= chars@.len(),
            crate::text::position_of(chars@, '\n', end as int) == crate::text::position_of(chars@, '\n', 0),
        decreases chars@.len() - end,
    {
        end = end + 1;
    }
    let cut: usize = if 0 < end && end < chars.len() && chars[end - 1] == '\r' {
        end - 1
    } else {
        end
    };
    assert(chars@.subrange(0, cut as int) =~= chars@.take(cut as int));
    string_of(&chars, 0, cut)
}

/// Answers a request that is no socket: `/ping` is told that the client is there, everything else is
/// not found.
pub fn handle_http_ping(request: &str) -> (r: String)
    ensures
        r@ == http_answer(answer_parts(request_path(request@)).0, answer_parts(request_path(request@)).1),
{
    let path = match find_second_word(&find_first_line(request)) {
        Some(path) => path,
        None => "/".to_string(),
    };
    let (status, body) = if same(&path, "/ping") {
        ("200 OK", "{\"status\":\"ok\",\"service\":\"ipams-client\"}")
    } else {
        ("404 Not Found", "{\"error\":\"not found\"}")
    };
    let mut out = "HTTP/1.1 ".to_string();
    out.append(status);
    out.append("\r\nContent-Type: application/json\r\nAccess-Control-Allow-Origin: *\r\nContent-Length: ");
    push_decimal(&mut out, body.as_bytes().len() as u64);
    out.append("\r\nConnection: close\r\n\r\n");
    out.append(body);
    out
}

/// What happens on a connection that stays.
pub enum SocketEvent {
    /// A message is to be passed on.
    Broadcast(String),
    /// Messages were lost, because the connection was too slow.
    Lagged,
    /// There will be no more messages.
    Closed,
    /// The other side asks whether this one is there.
    Ping(Vec<u8>),
    /// The other side says goodbye, or is gone.
    Gone,
    /// The connection failed.
    Failed,
    /// The other side sent something else.
    Other,
}

/// What is done on a connection that stays.
pub enum SocketAction {
    /// Send a text; where that fails, the connection ends.
    Send(String),
    /// Answer that this side is there; it does not matter whether that succeeds.
    Pong(Vec<u8>),
    /// Nothing.
    Wait,
    /// End the connection.
    Stop,
}

/// Decides what is done on a connection that stays.
pub fn handle_ws(event: SocketEvent) -> (r: SocketAction)
    ensures
        match event {
            SocketEvent::Broadcast(text) => r == SocketAction::Send(text),
            SocketEvent::Ping(data) => r == SocketAction::Pong(data),
            SocketEvent::Lagged | SocketEvent::Other => r is Wait,
            SocketEvent::Closed | SocketEvent::Gone | SocketEvent::Failed => r is Stop,
        },
{
    match event {
        SocketEvent::Broadcast(text) => SocketAction::Send(text),
        SocketEvent::Ping(data) => SocketAction::Pong(data),
        SocketEvent::Lagged => SocketAction::Wait,
        SocketEvent::Other => SocketAction::Wait,
        SocketEvent::Closed => SocketAction::Stop,
        SocketEvent::Gone => SocketAction::Stop,
        SocketEvent::Failed => SocketAction::Stop,
    }
}

/// Gives a new client its number, and the message by which it is greeted.
pub fn welcome(counter: &mut u64) -> (r: (u64, Message<String>))
    ensures
        r.0 == *old(counter),
        r.1@ == (Message::<Seq<char>>::Connected { client_id: *old(counter) }),
        *final(counter) == if *old(counter) == u64::MAX {
            0
        } else {
            (*old(counter) + 1) as u64
        },
{
    let id: u64 = *counter;
    *counter = id.wrapping_add(1);
    (id, Message::Connected { client_id: id })
}

/// What stands for white space in a request.
pub proof fn law_white_space(c: char)
    ensures
        is_space(c) <==> {
            let n = c as int;
            9 <= n <= 13 || n == 0x20 || n == 0x85 || n == 0xa0 || n == 0x1680 || 0x2000 <= n <= 0x200a || n == 0x2028
                || n == 0x2029 || n == 0x202f || n == 0x205f || n == 0x3000
        },
{
}

/// A connection asks for a socket exactly where its header says so in one of three ways; a header that is no
/// text says nothing.
pub proof fn law_who_asks_for_a_socket(before: Seq<char>, behind: Seq<char>, bytes: Seq<u8>, text: Seq<char>)
    ensures
        asks_upgrade(before + "Upgrade: websocket"@ + behind),
        asks_upgrade(before + "Upgrade: Websocket"@ + behind),
        asks_upgrade(before + "upgrade: websocket"@ + behind),
        asks_upgrade(text) ==> exists|a: Seq<char>, b: Seq<char>|
            text == #[trigger] (a + "Upgrade: websocket"@ + b) || text == (a + "Upgrade: Websocket"@ + b) || text == (a
                + "upgrade: websocket"@ + b),
        !valid_utf8(bytes) ==> header_text(bytes).len() == 0,
        valid_utf8(bytes) ==> header_text(bytes) == decode_utf8(bytes),
{
    crate::text::law_occurrence(before, "Upgrade: websocket"@, behind, text);
    crate::text::law_occurrence(before, "Upgrade: Websocket"@, behind, text);
    crate::text::law_occurrence(before, "upgrade: websocket"@, behind, text);
    if asks_upgrade(text) {
        if occurs(text, "Upgrade: websocket"@) {
        } else if occurs(text, "Upgrade: Websocket"@) {
            let (a, b) = choose|a: Seq<char>, b: Seq<char>| text == #[trigger] (a + "Upgrade: Websocket"@ + b);
            let other = a + "Upgrade: websocket"@ + b;
            assert(text == (a + "Upgrade: Websocket"@ + b));
        } else {
            let (a, b) = choose|a: Seq<char>, b: Seq<char>| text == #[trigger] (a + "upgrade: websocket"@ + b);
            let other = a + "Upgrade: websocket"@ + b;
            assert(text == (a + "upgrade: websocket"@ + b));
        }
    }
}

proof fn lemma_run(text: Seq<char>, from: int, end: int, space: bool)
    requires
        0 <= from <= end <= text.len(),
        forall|i: int| from <= i < end ==> is_space(#[trigger] text[i]) == space,
        end < text.len() ==> is_space(text[end]) != space,
    ensures
        run_end(text, from, space) == end,
    decreases end - from,
{
    if from < end {
        lemma_run(text, from + 1, end, space);
    }
}

/// The second word of a line is found behind the first and the space between them, however much space stands
/// before, between and behind the words.
pub proof fn law_second_word(before: Seq<char>, first: Seq<char>, gap: Seq<char>, second: Seq<char>, rest: Seq<char>)
    requires
        first.len() > 0,
        second.len() > 0,
        gap.len() > 0,
        forall|i: int| 0 <= i < before.len() ==> is_space(#[trigger] before[i]),
        forall|i: int| 0 <= i < first.len() ==> !is_space(#[trigger] first[i]),
        forall|i: int| 0 <= i < gap.len() ==> is_space(#[trigger] gap[i]),
        forall|i: int| 0 <= i < second.len() ==> !is_space(#[trigger] second[i]),
        rest.len() > 0 ==> is_space(rest[0]),
    ensures
        second_word(before + first + gap + second + rest) == Some(second),
        second_word(before + first + gap) is None,
        second_word(before + first) is None,
        second_word(before) is None,
{
    let a = before.len() as int;
    let b = a + first.len();
    let c = b + gap.len();
    let d = c + second.len();
    let text = before + first + gap + second + rest;
    lemma_shared_run(text, before, 0, true);
    lemma_shared_run(text, first, a, false);
    lemma_shared_run(text, gap, b, true);
    lemma_shared_run(text, second, c, false);
    assert(text[a] == first[0]);
    assert(text[b] == gap[0]);
    assert(text[c] == second[0]);
    if rest.len() > 0 {
        assert(text[d] == rest[0]);
    }
    lemma_run(text, 0, a, true);
    lemma_run(text, a, b, false);
    lemma_run(text, b, c, true);
    lemma_run(text, c, d, false);
    assert(text.subrange(c, d) =~= second);
    let open = before + first + gap;
    lemma_shared_run(open, before, 0, true);
    lemma_shared_run(open, first, a, false);
    lemma_shared_run(open, gap, b, true);
    assert(open[a] == first[0]);
    assert(open[b] == gap[0]);
    lemma_run(open, 0, a, true);
    lemma_run(open, a, b, false);
    lemma_run(open, b, c, true);
    let one = before + first;
    lemma_shared_run(one, before, 0, true);
    lemma_shared_run(one, first, a, false);
    assert(one[a] == first[0]);
    lemma_run(one, 0, a, true);
    lemma_run(one, a, b, false);
    lemma_run(one, b, b, true);
    lemma_run(before, 0, a, true);
    lemma_run(before, a, a, false);
    lemma_run(before, a, a, true);
}

/// A part of a text that is all space, or none of it, is so where it stands.
proof fn lemma_shared_run(text: Seq<char>, part: Seq<char>, at: int, space: bool)
    requires
        0 <= at,
        at + part.len() <= text.len(),
        text.subrange(at, at + part.len()) =~= part,
        forall|i: int| 0 <= i < part.len() ==> is_space(#[trigger] part[i]) == space,
    ensures
        forall|i: int| at <= i < at + part.len() ==> is_space(#[trigger] text[i]) == space,
{
    assert forall|i: int| at <= i < at + part.len() implies is_space(#[trigger] text[i]) == space by {
        assert(text.subrange(at, at + part.len())[i - at] == text[i]);
    }
}

/// The first line ends before the first line feed, and before the carriage return that stands there; a text
/// without a line feed is one line.
pub proof fn law_first_line(line: Seq<char>, rest: Seq<char>)
    requires
        !line.contains('\n'),
    ensures
        first_line(line) == line,
        first_line(line + seq!['\r', '\n'] + rest) == line,
        line.len() > 0 && line.last() != '\r' || line.len() == 0 ==> first_line(line + seq!['\n'] + rest) == line,
{
    assert forall|i: int| 0 <= i < line.len() implies line[i] != '\n' by {
        assert(line.contains(line[i]));
    }
    crate::text::lemma_position_of(line, '\n', 0);
    assert(line.take(line.len() as int) =~= line);
    let a = line + seq!['\r', '\n'] + rest;
    crate::text::lemma_position_of(a, '\n', 0);
    let p = crate::text::position_of(a, '\n', 0);
    assert(a[line.len() as int + 1] == '\n');
    assert(a[line.len() as int] == '\r');
    assert(p == line.len() + 1) by {
        if p < line.len() {
            assert(a[p] == line[p]);
        }
    }
    assert(a.take(line.len() as int) =~= line);
    let b = line + seq!['\n'] + rest;
    crate::text::lemma_position_of(b, '\n', 0);
    let q = crate::text::position_of(b, '\n', 0);
    assert(b[line.len() as int] == '\n');
    assert(q == line.len()) by {
        if q < line.len() {
            assert(b[q] == line[q]);
        }
    }
    if line.len() > 0 {
        assert(b[line.len() - 1] == line.last());
    }
    assert(b.take(line.len() as int) =~= line);
}

/// The path of a request is the second word of its first line, and the root where there is none.
pub proof fn law_path_of_a_request(method: Seq<char>, path: Seq<char>, version: Seq<char>, rest: Seq<char>)
    requires
        method.len() > 0,
        path.len() > 0,
        forall|i: int| 0 <= i < method.len() ==> !is_space(#[trigger] method[i]),
        forall|i: int| 0 <= i < path.len() ==> !is_space(#[trigger] path[i]),
        !version.contains('\n'),
    ensures
        request_path(method + seq![' '] + path + seq![' '] + version + seq!['\r', '\n'] + rest) == path,
        request_path(Seq::empty()) == "/"@,
        request_path(method) == "/"@,
{
    let line = method + seq![' '] + path + seq![' '] + version;
    assert(!line.contains('\n')) by {
        if line.contains('\n') {
            let i = choose|i: int| 0 <= i < line.len() && line[i] == '\n';
            let n = method.len() as int;
            let m = path.len() as int;
            if i < n {
                assert(line[i] == method[i]);
            } else if n < i < n + 1 + m {
                assert(line[i] == path[i - n - 1]);
            } else if i > n + 1 + m {
                assert(line[i] == version[i - n - m - 2]);
                assert(version.contains('\n'));
            }
        }
    }
    law_first_line(line, rest);
    let none: Seq<char> = Seq::empty();
    let gap = seq![' '];
    law_second_word(none, method, gap, path, gap + version);
    assert(none + method + gap + path + (gap + version) =~= line);
    assert(none + method =~= method);
    assert(!method.contains('\n')) by {
        if method.contains('\n') {
            let i = choose|i: int| 0 <= i < method.len() && method[i] == '\n';
            assert(!is_space(method[i]));
        }
    }
    law_first_line(method, rest);
    law_first_line(Seq::empty(), rest);
}

/// Only a ping is answered well; anything else is not found. Every answer tells the length of its body in
/// bytes and ends with the body.
pub proof fn law_answers(path: Seq<char>, status: Seq<char>, body: Seq<char>)
    ensures
        answer_parts("/ping"@) == ("200 OK"@, "{\"status\":\"ok\",\"service\":\"ipams-client\"}"@),
        path != "/ping"@ ==> answer_parts(path) == ("404 Not Found"@, "{\"error\":\"not found\"}"@),
        http_answer(status, body) == "HTTP/1.1 "@ + status
            + "\r\nContent-Type: application/json\r\nAccess-Control-Allow-Origin: *\r\nContent-Length: "@ + decimal(
            encode_utf8(body).len(),
        ) + "\r\nConnection: close\r\n\r\n"@ + body,
{
}

} // verus!
