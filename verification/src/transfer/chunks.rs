//! The chunks of a file: which are still to be sent, how a few are sent at a time, and what is said
//! of their progress.
use vstd::prelude::*;
use vstd::string::*;
use std::collections::HashSet;
use crate::text::{decimal, decimal_text, join_text, joined, push_decimal, strings};
use super::lifecycle::{is_stop, outcome, paused_text};
use super::message::{send, sent, Effect, Message};

verus! {

broadcast use vstd::std_specs::hash::group_hash_axioms;

/// The chunks from 1 to `total` that are not recorded, in order.
pub open spec fn missing_chunks(total: nat, recorded: Seq<u32>) -> Seq<u32>
    decreases total,
{
    if total == 0 {
        Seq::empty()
    } else {
        let before = missing_chunks((total - 1) as nat, recorded);
        if recorded.contains(total as u32) {
            before
        } else {
            before.push(total as u32)
        }
    }
}

fn set_of(numbers: &Vec<u32>) -> (r: HashSet<u32>)
    ensures
        r@ == numbers@.to_set(),
{
    let mut out: HashSet<u32> = HashSet::new();
    let mut i: usize = 0;
    while i < numbers.len()
        invariant
            i <= numbers@.len(),
            out@ == numbers@.take(i as int).to_set(),
        decreases numbers@.len() - i,
    {
        let ghost before = out@;
        let ghost shorter = numbers@.take(i as int);
        let ghost longer = numbers@.take(i + 1);
        out.insert(numbers[i]);
        proof {
            assert(longer =~= shorter.push(numbers@[i as int]));
            assert forall|n: u32| before.insert(numbers@[i as int]).contains(n) <==> longer.to_set().contains(n) by {
                if shorter.contains(n) {
                    let k = choose|k: int| 0 <= k < shorter.len() && shorter[k] == n;
                    assert(longer[k] == n);
                }
                assert(longer[i as int] == numbers@[i as int]);
                if longer.contains(n) {
                    let k = choose|k: int| 0 <= k < longer.len() && longer[k] == n;
                    if k < i {
                        assert(shorter[k] == n);
                    }
                }
            }
            assert(before.insert(numbers@[i as int]) =~= longer.to_set());
        }
        i = i + 1;
    }
    assert(numbers@.take(i as int) =~= numbers@);
    out
}

/// The chunks from 1 to `total` that are not recorded, in order.
pub fn chunks_to_upload(total_chunks: u32, recorded: &Vec<u32>) -> (r: Vec<u32>)
    ensures
        r@ == missing_chunks(total_chunks as nat, recorded@),
        r@.len() <= total_chunks,
{
    let known = set_of(recorded);
    let mut out: Vec<u32> = Vec::new();
    let mut chunk: u32 = 0;
    while chunk < total_chunks
        invariant
            chunk <= total_chunks,
            known@ == recorded@.to_set(),
            out@ == missing_chunks(chunk as nat, recorded@),
            out@.len() <= chunk,
        decreases total_chunks - chunk,
    {
        chunk = chunk + 1;
        assert(recorded@.to_set().contains(chunk) <==> recorded@.contains(chunk));
        if !known.contains(&chunk) {
            out.push(chunk);
        }
    }
    out
}

/// A chunk is to be sent if and only if it is one of the file's and is not recorded; the chunks come
/// in ascending order, so that none comes twice.
pub proof fn law_missing_chunks(total: nat, recorded: Seq<u32>)
    requires
        total <= u32::MAX,
    ensures
        forall|c: u32| #[trigger]
            missing_chunks(total, recorded).contains(c) <==> 1 <= c <= total && !recorded.contains(c),
        forall|i: int, j: int|
            0 <= i < j < missing_chunks(total, recorded).len() ==> #[trigger] missing_chunks(total, recorded)[i]
                < #[trigger] missing_chunks(total, recorded)[j],
    decreases total,
{
    if total > 0 {
        let before = missing_chunks((total - 1) as nat, recorded);
        let now = missing_chunks(total, recorded);
        law_missing_chunks((total - 1) as nat, recorded);
        assert forall|c: u32| #[trigger] now.contains(c) <==> 1 <= c <= total && !recorded.contains(c) by {
            assert(before.contains(c) <==> 1 <= c <= total - 1 && !recorded.contains(c));
            if !recorded.contains(total as u32) {
                assert(now[before.len() as int] == total as u32);
                if before.contains(c) {
                    let k = choose|k: int| 0 <= k < before.len() && before[k] == c;
                    assert(now[k] == c);
                }
                if now.contains(c) {
                    let k = choose|k: int| 0 <= k < now.len() && now[k] == c;
                    if k < before.len() {
                        assert(before[k] == c);
                    }
                }
            }
        }
        assert forall|i: int, j: int| 0 <= i < j < now.len() implies #[trigger] now[i] < #[trigger] now[j] by {
            if j < before.len() {
                assert(before[i] < before[j]);
            } else if i < before.len() {
                assert(before.contains(before[i]));
            }
        }
    }
}

/// Sending chunks, a few at a time.
pub struct ChunkWindow {
    chunks: Vec<u32>,
    limit: usize,
    next: usize,
    in_flight: usize,
    errors: Vec<String>,
    paused: bool,
}

/// How far the sending of chunks has come.
#[verifier::ext_equal]
pub struct WindowView {
    /// The chunks that are to be sent, in order.
    pub chunks: Seq<u32>,
    /// How many may be under way. One always may.
    pub limit: usize,
    /// How many have been taken up.
    pub next: nat,
    /// How many are under way.
    pub in_flight: nat,
    /// What went wrong.
    pub errors: Seq<Seq<char>>,
    /// The sending was stopped.
    pub paused: bool,
}

impl View for ChunkWindow {
    type V = WindowView;

    closed spec fn view(&self) -> WindowView {
        WindowView {
            chunks: self.chunks@,
            limit: self.limit,
            next: self.next as nat,
            in_flight: self.in_flight as nat,
            errors: strings(self.errors@),
            paused: self.paused,
        }
    }
}

/// How many chunks may be under way.
pub open spec fn width(limit: usize) -> nat {
    if limit == 0 {
        1
    } else {
        limit as nat
    }
}

/// Never more chunks are under way than may be, and those that are have been taken up.
pub open spec fn window_ok(w: WindowView) -> bool {
    &&& w.in_flight <= width(w.limit)
    &&& w.in_flight <= w.next <= w.chunks.len()
}

/// The next chunk is taken up.
pub open spec fn taken_up(w: WindowView) -> WindowView {
    WindowView { next: w.next + 1, in_flight: w.in_flight + 1, ..w }
}

/// The first chunks are still being taken up.
pub open spec fn filling(w: WindowView) -> bool {
    w.next < w.chunks.len() && w.in_flight < width(w.limit) && !w.paused
}

/// Taking up one of the first chunks: where the sending was stopped, none is taken up any more.
pub open spec fn filled(w: WindowView, stopped: bool) -> WindowView {
    if !filling(w) {
        w
    } else if stopped {
        WindowView { next: w.next + 1, paused: true, ..w }
    } else {
        taken_up(w)
    }
}

/// A chunk that was under way has been sent, or not. Where the sending was stopped with chunks left,
/// it stays stopped.
pub open spec fn chunk_landed(w: WindowView, result: Result<(), Seq<char>>, stopped: bool) -> WindowView {
    let down = WindowView {
        in_flight: (w.in_flight - 1) as nat,
        paused: w.paused || (stopped && w.next < w.chunks.len()),
        ..w
    };
    match result {
        Ok(()) => down,
        Err(error) => if error == paused_text() {
            WindowView { paused: true, ..down }
        } else {
            WindowView { errors: w.errors.push(error), ..down }
        },
    }
}

/// Another chunk is taken up.
pub open spec fn refills(w: WindowView) -> bool {
    w.errors.len() == 0 && !w.paused && w.next < w.chunks.len()
}

/// The window after a chunk has landed and the next one has been taken up, if one is.
pub open spec fn stepped(w: WindowView, result: Result<(), Seq<char>>, stopped: bool) -> WindowView {
    let down = chunk_landed(w, result, stopped);
    if refills(down) {
        taken_up(down)
    } else {
        down
    }
}

/// What comes of the sending: what went wrong, if anything did; an error that says that it was
/// stopped, if it was or chunks are left; and else a good end.
pub open spec fn window_result(w: WindowView) -> Result<(), Seq<char>> {
    if w.errors.len() > 0 {
        Err("Upload errors: "@ + joined(w.errors, "; "@))
    } else if w.paused || w.next < w.chunks.len() {
        Err(paused_text())
    } else {
        Ok(())
    }
}

impl ChunkWindow {
    /// The limits are kept.
    pub open spec fn wf(&self) -> bool {
        window_ok(self@)
    }

    /// The sending of these chunks, at most `limit` at a time, before any has been taken up.
    pub fn new(chunks: Vec<u32>, limit: usize) -> (r: Self)
        ensures
            r.wf(),
            r@ == (WindowView {
                chunks: chunks@,
                limit,
                next: 0,
                in_flight: 0,
                errors: Seq::empty(),
                paused: false,
            }),
    {
        let r = ChunkWindow { chunks, limit, next: 0, in_flight: 0, errors: Vec::new(), paused: false };
        assert(strings(r.errors@) =~= Seq::empty());
        r
    }

    /// How many chunks are under way.
    pub fn in_flight(&self) -> (r: usize)
        ensures
            r == self@.in_flight,
    {
        self.in_flight
    }

    /// Takes up one of the first chunks. Where there is none, the window is full, or nothing is left
    /// to send, or the sending was stopped.
    pub fn fill(&mut self, stopped: bool) -> (r: Option<u32>)
        requires
            old(self).wf(),
        ensures
            final(self).wf(),
            final(self)@ == filled(old(self)@, stopped),
            match r {
                Some(chunk) => filling(old(self)@) && !stopped && chunk == old(self)@.chunks[old(self)@.next as int],
                None => !filling(old(self)@) || stopped,
            },
    {
        let width: usize = if self.limit == 0 {
            1
        } else {
            self.limit
        };
        if self.next >= self.chunks.len() || self.in_flight >= width || self.paused {
            return None;
        }
        let chunk: u32 = self.chunks[self.next];
        self.next = self.next + 1;
        if stopped {
            self.paused = true;
            return None;
        }
        self.in_flight = self.in_flight + 1;
        Some(chunk)
    }

    /// Takes in what came of a chunk that was under way, and takes up the next one, if there is one
    /// and nothing went wrong and the sending was not stopped. Once it was stopped with chunks left, it
    /// stays so.
    pub fn landed(&mut self, result: &Result<(), String>, stopped: bool) -> (r: Option<u32>)
        requires
            old(self).wf(),
            old(self)@.in_flight > 0,
        ensures
            final(self).wf(),
            final(self)@ == stepped(old(self)@, outcome(*result), stopped),
            ({
                let down = chunk_landed(old(self)@, outcome(*result), stopped);
                match r {
                    Some(chunk) => refills(down) && chunk == down.chunks[down.next as int],
                    None => !refills(down),
                }
            }),
    {
        let ghost before = self@;
        self.in_flight = self.in_flight - 1;
        match result {
            Ok(()) => {},
            Err(error) => {
                if is_stop(error) {
                    self.paused = true;
                } else {
                    self.errors.push(error.clone());
                    assert(strings(self.errors@) =~= before.errors.push(error@));
                }
            },
        }
        if stopped && self.next < self.chunks.len() {
            self.paused = true;
        }
        assert(self@ =~= chunk_landed(before, outcome(*result), stopped));
        if self.errors.len() > 0 || self.paused || self.next >= self.chunks.len() {
            return None;
        }
        let chunk: u32 = self.chunks[self.next];
        self.next = self.next + 1;
        self.in_flight = self.in_flight + 1;
        Some(chunk)
    }

    /// What comes of the sending, once no chunk is under way.
    pub fn result(&self) -> (r: Result<(), String>)
        ensures
            outcome(r) == window_result(self@),
    {
        if self.errors.len() > 0 {
            let mut text = "Upload errors: ".to_string();
            text.append(&join_text(&self.errors, "; "));
            return Err(text);
        }
        if self.paused || self.next < self.chunks.len() {
            return Err("paused".to_string());
        }
        Ok(())
    }
}

/// The error for a chunk whose sending ended without a word.
pub fn chunk_lost(cause: &str) -> (r: String)
    ensures
        r@ == "Task panicked: "@ + cause@,
{
    let mut text = "Task panicked: ".to_string();
    text.append(cause);
    text
}

/// The window once the first chunks have been taken up, and then after this many chunks were sent,
/// none of them failed or stopped.
pub open spec fn sent_in_turn(w: WindowView, steps: nat) -> WindowView
    decreases steps,
{
    if steps == 0 {
        WindowView {
            next: if width(w.limit) < w.chunks.len() {
                width(w.limit)
            } else {
                w.chunks.len()
            },
            in_flight: if width(w.limit) < w.chunks.len() {
                width(w.limit)
            } else {
                w.chunks.len()
            },
            ..w
        }
    } else {
        stepped(sent_in_turn(w, (steps - 1) as nat), Ok(()), false)
    }
}

/// When no chunk fails and nothing is stopped, each chunk is taken up exactly once and in order, with
/// no more under way than may be; and when all have been sent, none is left and the outcome is good.
pub proof fn law_every_chunk_is_sent(w: WindowView, steps: nat)
    requires
        w.next == 0,
        w.in_flight == 0,
        w.errors.len() == 0,
        !w.paused,
        steps <= w.chunks.len(),
    ensures
        window_ok(sent_in_turn(w, steps)),
        sent_in_turn(w, steps).next - sent_in_turn(w, steps).in_flight == steps,
        sent_in_turn(w, steps).errors.len() == 0,
        !sent_in_turn(w, steps).paused,
        sent_in_turn(w, steps).chunks == w.chunks,
        sent_in_turn(w, steps).limit == w.limit,
        sent_in_turn(w, steps).in_flight == width(w.limit) || sent_in_turn(w, steps).next == w.chunks.len(),
        steps < w.chunks.len() ==> sent_in_turn(w, steps).in_flight > 0,
        steps == w.chunks.len() ==> {
            &&& sent_in_turn(w, steps).in_flight == 0
            &&& sent_in_turn(w, steps).next == w.chunks.len()
            &&& window_result(sent_in_turn(w, steps)) == Ok::<(), Seq<char>>(())
        },
    decreases steps,
{
    if steps > 0 {
        law_every_chunk_is_sent(w, (steps - 1) as nat);
    }
}

/// Taking up the first chunks ends with the window full, or with every chunk taken up.
pub open spec fn fill_all(w: WindowView) -> WindowView
    decreases w.chunks.len() - w.next,
{
    if filling(w) {
        fill_all(filled(w, false))
    } else {
        w
    }
}

/// Taking up the first chunks fills the window, where nothing is stopped.
pub proof fn law_window_is_filled(w: WindowView)
    requires
        window_ok(w),
        !w.paused,
        w.next == w.in_flight,
    ensures
        fill_all(w) == (WindowView {
            next: if width(w.limit) < w.chunks.len() {
                width(w.limit)
            } else {
                w.chunks.len()
            },
            in_flight: if width(w.limit) < w.chunks.len() {
                width(w.limit)
            } else {
                w.chunks.len()
            },
            ..w
        }),
    decreases w.chunks.len() - w.next,
{
    if filling(w) {
        law_window_is_filled(filled(w, false));
    }
}

/// Once something went wrong, or the sending was stopped with chunks left, no further chunk is taken
/// up, and the outcome stays bad.
pub proof fn law_no_chunk_after_a_failure(w: WindowView, result: Result<(), Seq<char>>, stopped: bool)
    requires
        window_ok(w),
        w.in_flight > 0,
        w.errors.len() > 0 || w.paused || (stopped && w.next < w.chunks.len()),
    ensures
        stepped(w, result, stopped).next == w.next,
        stepped(w, result, stopped).errors.len() > 0 || stepped(w, result, stopped).paused,
        window_result(stepped(w, result, stopped)) is Err,
{
}

/// One thing that happens to a window.
pub enum WindowEvent {
    /// One of the first chunks is to be taken up.
    Fill { stopped: bool },
    /// This chunk, which was under way, has been sent, or not.
    Land { chunk: u32, result: Result<(), Seq<char>>, stopped: bool },
}

/// A window, with the chunks that are under way and those that were sent.
#[verifier::ext_equal]
pub struct WindowRun {
    pub window: WindowView,
    pub under_way: Set<u32>,
    pub sent: Set<u32>,
}

/// A window before anything has happened to it.
pub open spec fn fresh_run(chunks: Seq<u32>, limit: usize) -> WindowRun {
    WindowRun {
        window: WindowView { chunks, limit, next: 0, in_flight: 0, errors: Seq::empty(), paused: false },
        under_way: Set::empty(),
        sent: Set::empty(),
    }
}

/// The chunk that is taken up where the window goes from `before` to `after`, if one is.
pub open spec fn with_taken(under_way: Set<u32>, before: WindowView, after: WindowView) -> Set<u32> {
    if after.in_flight == before.in_flight + 1 {
        under_way.insert(before.chunks[before.next as int])
    } else {
        under_way
    }
}

/// A window after one more thing has happened to it.
pub open spec fn run_step(run: WindowRun, event: WindowEvent) -> WindowRun {
    match event {
        WindowEvent::Fill { stopped } => {
            let after = filled(run.window, stopped);
            WindowRun { window: after, under_way: with_taken(run.under_way, run.window, after), ..run }
        },
        WindowEvent::Land { chunk, result, stopped } => {
            let down = chunk_landed(run.window, result, stopped);
            let after = stepped(run.window, result, stopped);
            WindowRun {
                window: after,
                under_way: with_taken(run.under_way.remove(chunk), down, after),
                sent: if result is Ok {
                    run.sent.insert(chunk)
                } else {
                    run.sent
                },
            }
        },
    }
}

/// A window after all of this has happened to it.
pub open spec fn run_of(start: WindowRun, events: Seq<WindowEvent>) -> WindowRun
    decreases events.len(),
{
    if events.len() == 0 {
        start
    } else {
        run_step(run_of(start, events.drop_last()), events.last())
    }
}

/// Only chunks that are under way land.
pub open spec fn lands_what_flies(start: WindowRun, events: Seq<WindowEvent>) -> bool
    decreases events.len(),
{
    events.len() == 0 || {
        &&& lands_what_flies(start, events.drop_last())
        &&& events.last() matches WindowEvent::Land { chunk, .. } ==> run_of(
            start,
            events.drop_last(),
        ).under_way.contains(chunk)
    }
}

/// What holds of a window whatever happens to it: the chunks under way are as many as it counts and
/// have been taken up, and as long as nothing went wrong and nothing was stopped, each chunk that was
/// taken up is under way or was sent.
pub open spec fn run_ok(run: WindowRun) -> bool {
    let w = run.window;
    &&& window_ok(w)
    &&& run.under_way.finite()
    &&& run.under_way.len() == w.in_flight
    &&& forall|c: u32| #[trigger]
        run.under_way.contains(c) ==> exists|i: int| 0 <= i < w.next && #[trigger] w.chunks[i] == c
    &&& w.errors.len() == 0 && !w.paused ==> forall|i: int|
        0 <= i < w.next ==> run.under_way.contains(#[trigger] w.chunks[i]) || run.sent.contains(w.chunks[i])
}

proof fn lemma_take_up(run: WindowRun)
    requires
        run_ok(run),
        run.window.next < run.window.chunks.len(),
        run.window.in_flight < width(run.window.limit),
        run.window.chunks.no_duplicates(),
    ensures
        run_ok(
            WindowRun {
                window: taken_up(run.window),
                under_way: run.under_way.insert(run.window.chunks[run.window.next as int]),
                ..run
            },
        ),
{
    let w = run.window;
    let chunk = w.chunks[w.next as int];
    let after = WindowRun { window: taken_up(w), under_way: run.under_way.insert(chunk), ..run };
    assert(!run.under_way.contains(chunk)) by {
        if run.under_way.contains(chunk) {
            let i = choose|i: int| 0 <= i < w.next && #[trigger] w.chunks[i] == chunk;
            assert(w.chunks[i] == w.chunks[w.next as int]);
        }
    }
    assert forall|c: u32| #[trigger] after.under_way.contains(c) implies exists|i: int|
        0 <= i < after.window.next && #[trigger] after.window.chunks[i] == c by {
        if c == chunk {
            assert(after.window.chunks[w.next as int] == c);
        } else {
            let i = choose|i: int| 0 <= i < w.next && #[trigger] w.chunks[i] == c;
            assert(after.window.chunks[i] == c);
        }
    }
}

proof fn lemma_run(chunks: Seq<u32>, limit: usize, events: Seq<WindowEvent>)
    requires
        chunks.no_duplicates(),
        lands_what_flies(fresh_run(chunks, limit), events),
    ensures
        run_ok(run_of(fresh_run(chunks, limit), events)),
        run_of(fresh_run(chunks, limit), events).window.chunks == chunks,
    decreases events.len(),
{
    let start = fresh_run(chunks, limit);
    if events.len() > 0 {
        lemma_run(chunks, limit, events.drop_last());
        let before = run_of(start, events.drop_last());
        match events.last() {
            WindowEvent::Fill { stopped } => {
                if filling(before.window) && !stopped {
                    lemma_take_up(before);
                }
            },
            WindowEvent::Land { chunk, result, stopped } => {
                let middle = WindowRun {
                    window: chunk_landed(before.window, result, stopped),
                    under_way: before.under_way.remove(chunk),
                    sent: if result is Ok {
                        before.sent.insert(chunk)
                    } else {
                        before.sent
                    },
                };
                assert(before.under_way.contains(chunk));
                assert(before.under_way.len() > 0) by {
                    vstd::set_lib::lemma_set_empty_equivalency_len(before.under_way);
                }
                assert forall|c: u32| #[trigger] middle.under_way.contains(c) implies exists|i: int|
                    0 <= i < middle.window.next && #[trigger] middle.window.chunks[i] == c by {
                    assert(before.under_way.contains(c));
                    let i = choose|i: int| 0 <= i < before.window.next && #[trigger] before.window.chunks[i] == c;
                    assert(middle.window.chunks[i] == c);
                }
                assert forall|i: int|
                    middle.window.errors.len() == 0 && !middle.window.paused && 0 <= i < middle.window.next implies {
                    ||| middle.under_way.contains(#[trigger] middle.window.chunks[i])
                    ||| middle.sent.contains(middle.window.chunks[i])
                } by {
                    assert(before.window.chunks[i] == middle.window.chunks[i]);
                }
                assert(run_ok(middle));
                if refills(middle.window) {
                    lemma_take_up(middle);
                }
            },
        }
    }
}

/// Whenever the sending of a file's missing chunks ends well, each chunk of the file was recorded when
/// it began or has been sent, whatever happened in between and whenever it was stopped.
pub proof fn law_good_end_means_every_chunk(
    total: u32,
    recorded: Seq<u32>,
    limit: usize,
    events: Seq<WindowEvent>,
    chunk: u32,
)
    requires
        ({
            let start = fresh_run(missing_chunks(total as nat, recorded), limit);
            &&& lands_what_flies(start, events)
            &&& run_of(start, events).window.in_flight == 0
            &&& window_result(run_of(start, events).window) is Ok
        }),
        1 <= chunk <= total,
    ensures
        recorded.contains(chunk) || run_of(fresh_run(missing_chunks(total as nat, recorded), limit), events).sent
            .contains(chunk),
        run_of(fresh_run(missing_chunks(total as nat, recorded), limit), events).window.next == missing_chunks(
            total as nat,
            recorded,
        ).len(),
{
    let chunks = missing_chunks(total as nat, recorded);
    law_missing_chunks(total as nat, recorded);
    assert(chunks.no_duplicates()) by {
        assert forall|i: int, j: int| 0 <= i < chunks.len() && 0 <= j < chunks.len() && i != j implies chunks[i]
            != chunks[j] by {
            if i < j {
                assert(chunks[i] < chunks[j]);
            } else {
                assert(chunks[j] < chunks[i]);
            }
        }
    }
    lemma_run(chunks, limit, events);
    let run = run_of(fresh_run(chunks, limit), events);
    vstd::set_lib::lemma_set_empty_equivalency_len(run.under_way);
    if !recorded.contains(chunk) {
        assert(chunks.contains(chunk));
        let i = choose|i: int| 0 <= i < chunks.len() && chunks[i] == chunk;
        assert(run.window.chunks[i] == chunk);
    }
}

/// A window in which nothing is under way ended well only if every chunk was taken up, nothing went
/// wrong and nothing was stopped.
pub proof fn law_good_end_leaves_nothing(w: WindowView)
    requires
        window_ok(w),
        w.in_flight == 0,
        window_result(w) is Ok,
    ensures
        w.next == w.chunks.len(),
        w.errors.len() == 0,
        !w.paused,
{
}

/// Where a chunk begins in its file. Chunks count from 1.
pub fn chunk_offset(chunk_index: u32, chunk_size: usize) -> (r: u64)
    requires
        chunk_index >= 1,
        (chunk_index - 1) * chunk_size <= u64::MAX,
    ensures
        r == (chunk_index - 1) * chunk_size,
{
    let before: u64 = (chunk_index - 1) as u64;
    before * (chunk_size as u64)
}

/// The byte at this place of a file stands in the chunk with this number.
pub open spec fn stands_in(place: int, chunk: int, chunk_size: int) -> bool {
    chunk >= 1 && (chunk - 1) * chunk_size <= place < (chunk - 1) * chunk_size + chunk_size
}

/// Every byte of a file stands in exactly one chunk.
pub proof fn law_every_byte_in_one_chunk(place: int, chunk: int, chunk_size: int)
    requires
        place >= 0,
        chunk_size > 0,
    ensures
        stands_in(place, chunk, chunk_size) <==> chunk == place / chunk_size + 1,
{
    vstd::arithmetic::div_mod::lemma_fundamental_div_mod(place, chunk_size);
    vstd::arithmetic::div_mod::lemma_div_pos_is_pos(place, chunk_size);
    vstd::arithmetic::div_mod::lemma_mod_bound(place, chunk_size);
    let q = place / chunk_size;
    assert(chunk_size * q == q * chunk_size) by (nonlinear_arith);
    if stands_in(place, chunk, chunk_size) {
        let before = chunk - 1;
        vstd::arithmetic::div_mod::lemma_fundamental_div_mod_converse(
            place,
            chunk_size,
            before,
            place - before * chunk_size,
        );
    }
}

/// What may go wrong with a chunk on this side.
#[derive(Debug, Clone, Copy, PartialEq, Eq, Structural)]
pub enum ChunkFault {
    /// Reading it ended without a word.
    ReadPanicked,
    /// It could not be read.
    Read,
    /// The request could not be made.
    Build,
    /// The backend was not reached.
    Network,
}

/// What is said of a chunk with which something went wrong on this side.
pub open spec fn chunk_fault_text(fault: ChunkFault, chunk: u32, cause: Seq<char>) -> Seq<char> {
    match fault {
        ChunkFault::ReadPanicked => "Chunk "@ + decimal(chunk as nat) + " read task panicked: "@ + cause,
        ChunkFault::Read => "Failed to read chunk "@ + decimal(chunk as nat) + " from file: "@ + cause,
        ChunkFault::Build => "Failed to build request for chunk "@ + decimal(chunk as nat) + ": "@ + cause,
        ChunkFault::Network => "Failed to upload chunk "@ + decimal(chunk as nat) + ": "@ + cause,
    }
}

/// What is said of a chunk with which something went wrong on this side.
pub fn chunk_fault(fault: ChunkFault, chunk_index: u32, cause: &str) -> (r: String)
    ensures
        r@ == chunk_fault_text(fault, chunk_index, cause@),
{
    let mut text = match fault {
        ChunkFault::ReadPanicked => "Chunk ".to_string(),
        ChunkFault::Read => "Failed to read chunk ".to_string(),
        ChunkFault::Build => "Failed to build request for chunk ".to_string(),
        ChunkFault::Network => "Failed to upload chunk ".to_string(),
    };
    push_decimal(&mut text, chunk_index as u64);
    match fault {
        ChunkFault::ReadPanicked => text.append(" read task panicked: "),
        ChunkFault::Read => text.append(" from file: "),
        ChunkFault::Build => text.append(": "),
        ChunkFault::Network => text.append(": "),
    }
    text.append(cause);
    text
}

/// What is said of an empty chunk of the file with this name.
pub open spec fn empty_chunk_text(offset: nat, file: Seq<char>) -> Seq<char> {
    "Read 0 bytes at offset "@ + decimal(offset) + " from file: "@ + file
}

/// What comes of a chunk that was read: it must hold something.
pub open spec fn checked_chunk(data: Seq<u8>, offset: nat, file: Seq<char>) -> Result<Seq<u8>, Seq<char>> {
    if data.len() == 0 {
        Err(empty_chunk_text(offset, file))
    } else {
        Ok(data)
    }
}

/// A chunk that was read: it must hold something.
pub fn check_chunk(data: Vec<u8>, offset: u64, file: &str) -> (r: Result<Vec<u8>, String>)
    ensures
        match r {
            Ok(d) => checked_chunk(data@, offset as nat, file@) == Ok::<Seq<u8>, Seq<char>>(d@),
            Err(e) => checked_chunk(data@, offset as nat, file@) == Err::<Seq<u8>, Seq<char>>(e@),
        },
{
    if data.len() == 0 {
        let mut text = "Read 0 bytes at offset ".to_string();
        push_decimal(&mut text, offset);
        text.append(" from file: ");
        text.append(file);
        return Err(text);
    }
    Ok(data)
}

/// The bytes of a file from this place on, this many of them, or as many as there are.
pub open spec fn bytes_at(bytes: Seq<u8>, offset: nat, size: nat) -> Seq<u8> {
    if offset >= bytes.len() {
        Seq::empty()
    } else if offset + size <= bytes.len() {
        bytes.subrange(offset as int, (offset + size) as int)
    } else {
        bytes.skip(offset as int)
    }
}

/// What comes of reading a chunk of a file that holds these bytes.
pub open spec fn chunk_read(bytes: Seq<u8>, offset: nat, size: nat, file: Seq<char>) -> Result<Seq<u8>, Seq<char>> {
    checked_chunk(bytes_at(bytes, offset, size), offset, file)
}

/// The chunks of a file from this place on, read one behind the other and joined, up to the first that
/// is refused.
pub open spec fn read_through(bytes: Seq<u8>, offset: nat, size: nat, file: Seq<char>) -> Seq<u8>
    decreases
            if offset < bytes.len() {
                bytes.len() - offset
            } else {
                0
            },
{
    match chunk_read(bytes, offset, size, file) {
        Ok(data) => data + read_through(bytes, offset + size, size, file),
        Err(_) => Seq::empty(),
    }
}

/// A read inside a file gives as many bytes as were asked for, or those that are left, and never none.
/// A read of nothing, or behind the end, is refused.
pub proof fn law_chunk_read(bytes: Seq<u8>, offset: nat, size: nat, file: Seq<char>)
    ensures
        size > 0 && offset < bytes.len() ==> chunk_read(bytes, offset, size, file) == Ok::<Seq<u8>, Seq<char>>(
            bytes.subrange(
                offset as int,
                if offset + size <= bytes.len() {
                    (offset + size) as int
                } else {
                    bytes.len() as int
                },
            ),
        ),
        size == 0 || offset >= bytes.len() ==> chunk_read(bytes, offset, size, file) == Err::<Seq<u8>, Seq<char>>(
            empty_chunk_text(offset, file),
        ),
        chunk_read(bytes, offset, size, file) matches Ok(data) ==> data.len() > 0,
{
    if size > 0 && offset < bytes.len() && offset + size > bytes.len() {
        assert(bytes.skip(offset as int) =~= bytes.subrange(offset as int, bytes.len() as int));
    }
}

/// The chunks of a file, read one behind the other from its start until one is refused, are the file.
pub proof fn law_chunks_make_the_file(bytes: Seq<u8>, size: nat, file: Seq<char>)
    requires
        size > 0,
    ensures
        read_through(bytes, 0, size, file) == bytes,
{
    lemma_read_through(bytes, 0, size, file);
    assert(bytes.skip(0) =~= bytes);
}

proof fn lemma_read_through(bytes: Seq<u8>, offset: nat, size: nat, file: Seq<char>)
    requires
        size > 0,
    ensures
        offset <= bytes.len() ==> read_through(bytes, offset, size, file) == bytes.skip(offset as int),
        offset >= bytes.len() ==> read_through(bytes, offset, size, file) == Seq::<u8>::empty(),
    decreases
            if offset < bytes.len() {
                bytes.len() - offset
            } else {
                0
            },
{
    if offset < bytes.len() {
        law_chunk_read(bytes, offset, size, file);
        lemma_read_through(bytes, offset + size, size, file);
        if offset + size <= bytes.len() {
            assert(bytes.subrange(offset as int, (offset + size) as int) + bytes.skip((offset + size) as int)
                =~= bytes.skip(offset as int));
        } else {
            assert(bytes.skip(offset as int) + Seq::<u8>::empty() =~= bytes.skip(offset as int));
        }
    } else if offset == bytes.len() {
        assert(bytes.skip(offset as int) =~= Seq::<u8>::empty());
    }
}

/// The clients of the socket are told of this many chunks: the first, every fifth and the last.
pub open spec fn worth_telling(done: u32, total: u32) -> bool {
    done == 1 || done >= total || done % 5 == 0
}

/// Counts a chunk that was sent. The result is how many have been.
pub fn count_chunk(count: &mut u32, upload_id: &str, total_chunks: u32, out: &mut Vec<Effect<String>>) -> (r: u32)
    requires
        *old(count) < u32::MAX,
    ensures
        *final(count) == *old(count) + 1,
        r == *old(count) + 1,
        sent(final(out)@) == sent(old(out)@) + (if worth_telling((*old(count) + 1) as u32, total_chunks) {
            seq![
                Effect::Broadcast(
                    Message::Progress {
                        upload_id: upload_id@,
                        uploaded_chunks: (*old(count) + 1) as u32,
                        total_chunks,
                    },
                ),
            ]
        } else {
            Seq::empty()
        }),
{
    let done: u32 = *count + 1;
    *count = done;
    if done == 1 || done >= total_chunks || done % 5 == 0 {
        send(
            out,
            Effect::Broadcast(
                Message::Progress { upload_id: upload_id.to_string(), uploaded_chunks: done, total_chunks },
            ),
        );
    }
    done
}

/// The decimal texts of some numbers.
pub open spec fn decimals(numbers: Seq<u32>) -> Seq<Seq<char>> {
    numbers.map_values(|n: u32| decimal(n as nat))
}

/// A list of numbers in brackets.
pub open spec fn number_list(numbers: Seq<u32>) -> Seq<char> {
    "["@ + joined(decimals(numbers), ", "@) + "]"@
}

/// A list of numbers in brackets.
pub fn number_list_text(numbers: &Vec<u32>) -> (r: String)
    ensures
        r@ == number_list(numbers@),
{
    let mut texts: Vec<String> = Vec::new();
    let mut i: usize = 0;
    while i < numbers.len()
        invariant
            i <= numbers@.len(),
            texts@.len() == i,
            forall|j: int| 0 <= j < i ==> (#[trigger] texts@[j])@ == decimal(numbers@[j] as nat),
        decreases numbers@.len() - i,
    {
        texts.push(decimal_text(numbers[i] as u64));
        i = i + 1;
    }
    assert(strings(texts@) =~= decimals(numbers@));
    let mut out = "[".to_string();
    out.append(&join_text(&texts, ", "));
    out.append("]");
    out
}

/// The window never holds more chunks than the limit, and always room for one; what is under way was taken
/// up.
pub proof fn law_window_bounds(w: WindowView)
    ensures
        window_ok(w) ==> w.in_flight <= 1 || w.in_flight <= w.limit,
        window_ok(w) ==> w.in_flight <= w.next <= w.chunks.len(),
        w.limit > 0 ==> width(w.limit) == w.limit,
        w.limit == 0 ==> width(w.limit) == 1,
        w.in_flight <= w.next <= w.chunks.len() && w.in_flight <= w.limit ==> window_ok(w),
{
}

/// While there is room and nothing was stopped, the next chunk is taken up; where the sending is stopped
/// just then, that chunk is passed over and nothing more is taken up.
pub proof fn law_window_takes_up(w: WindowView, stopped: bool)
    ensures
        ({
            let room = w.in_flight < w.limit || w.in_flight == 0;
            let takes = w.next < w.chunks.len() && room && !w.paused;
            let after = filled(w, stopped);
            &&& !takes ==> after == w
            &&& takes && !stopped ==> after.in_flight == w.in_flight + 1 && after.next == w.next + 1 && !after.paused
            &&& takes && stopped ==> after.in_flight == w.in_flight && after.next == w.next + 1 && after.paused
            &&& after.chunks == w.chunks && after.limit == w.limit && after.errors == w.errors
        }),
{
}

/// A chunk that has landed makes room for the next one, which is taken up where nothing has gone wrong and
/// nothing was stopped. Its error is recorded last, but for the one that says that it was stopped; a stop
/// counts only while chunks are left.
pub proof fn law_chunk_makes_room(w: WindowView, error: Seq<char>, stopped: bool)
    requires
        w.in_flight > 0,
    ensures
        ({
            let left = w.next < w.chunks.len();
            let after = stepped(w, Ok(()), stopped);
            let goes_on = left && w.errors.len() == 0 && !w.paused && !stopped;
            &&& goes_on ==> after == (WindowView { next: w.next + 1, ..w })
            &&& !goes_on ==> after.in_flight == w.in_flight - 1 && after.next == w.next
            &&& after.paused <==> w.paused || (stopped && left)
            &&& after.errors == w.errors && after.chunks == w.chunks && after.limit == w.limit
        }),
        error != "paused"@ ==> ({
            let after = stepped(w, Err(error), stopped);
            &&& after.errors.len() == w.errors.len() + 1
            &&& after.errors.last() == error
            &&& after.errors.drop_last() == w.errors
            &&& after.in_flight == w.in_flight - 1 && after.next == w.next
            &&& after.paused <==> w.paused || (stopped && w.next < w.chunks.len())
            &&& after.chunks == w.chunks && after.limit == w.limit
        }),
        ({
            let after = stepped(w, Err("paused"@), stopped);
            after == (WindowView { in_flight: (w.in_flight - 1) as nat, paused: true, ..w })
        }),
{
}

/// The sending went well exactly where no chunk failed, nothing was stopped and no chunk is left. Where
/// chunks failed, all their errors are told; where none did, the sending says that it was stopped.
pub proof fn law_window_outcome(w: WindowView)
    ensures
        window_result(w) is Ok <==> w.errors.len() == 0 && !w.paused && w.next >= w.chunks.len(),
        w.errors.len() == 0 && (w.paused || w.next < w.chunks.len()) ==> window_result(w) == Err::<(), Seq<char>>(
            "paused"@,
        ),
        w.errors.len() == 1 ==> window_result(w) == Err::<(), Seq<char>>("Upload errors: "@ + w.errors[0]),
        w.errors.len() == 2 ==> window_result(w) == Err::<(), Seq<char>>(
            "Upload errors: "@ + (w.errors[0] + "; "@ + w.errors[1]),
        ),
        w.errors.len() > 0 ==> window_result(w) == Err::<(), Seq<char>>(
            "Upload errors: "@ + joined(w.errors, "; "@),
        ),
{
    if w.errors.len() == 1 {
        reveal_with_fuel(joined, 2);
        assert(joined(w.errors, "; "@) =~= w.errors[0]);
    }
    if w.errors.len() == 2 {
        reveal_with_fuel(joined, 3);
        assert(joined(w.errors, "; "@) =~= w.errors[0] + "; "@ + w.errors[1]);
    }
}

/// Progress is told of the first chunk, of the last, and of every fifth; of no other.
pub proof fn law_when_progress_is_told(done: u32, total: u32)
    ensures
        worth_telling(1, total),
        done >= total ==> worth_telling(done, total),
        done % 5 == 0 ==> worth_telling(done, total),
        1 < done < total && done % 5 != 0 ==> !worth_telling(done, total),
{
}

/// Where a chunk fails on this side, its number and the cause are told, and what was being done.
pub proof fn law_chunk_faults(chunk: u32, cause: Seq<char>, offset: nat, file: Seq<char>)
    ensures
        chunk_fault_text(ChunkFault::ReadPanicked, chunk, cause) == "Chunk "@ + decimal(chunk as nat)
            + " read task panicked: "@ + cause,
        chunk_fault_text(ChunkFault::Read, chunk, cause) == "Failed to read chunk "@ + decimal(chunk as nat)
            + " from file: "@ + cause,
        chunk_fault_text(ChunkFault::Build, chunk, cause) == "Failed to build request for chunk "@ + decimal(
            chunk as nat,
        ) + ": "@ + cause,
        chunk_fault_text(ChunkFault::Network, chunk, cause) == "Failed to upload chunk "@ + decimal(chunk as nat)
            + ": "@ + cause,
        empty_chunk_text(offset, file) == "Read 0 bytes at offset "@ + decimal(offset) + " from file: "@ + file,
{
}

/// A list of numbers is written in square brackets, each number in decimal, with a comma and a space
/// between two.
pub proof fn law_number_list(numbers: Seq<u32>, n: u32)
    ensures
        number_list(Seq::empty()) == "["@ + "]"@,
        number_list(seq![n]) == "["@ + decimal(n as nat) + "]"@,
        numbers.len() > 0 ==> ({
            let before = number_list(numbers);
            number_list(numbers.push(n)) == before.drop_last() + ", "@ + decimal(n as nat) + "]"@
        }),
{
    reveal_strlit("]");
    reveal_with_fuel(joined, 2);
    let empty: Seq<u32> = Seq::empty();
    assert(decimals(empty) =~= Seq::empty());
    assert(number_list(empty) =~= "["@ + "]"@);
    assert(decimals(seq![n]) =~= seq![decimal(n as nat)]);
    assert(number_list(seq![n]) =~= "["@ + decimal(n as nat) + "]"@);
    if numbers.len() > 0 {
        assert(decimals(numbers.push(n)).drop_last() =~= decimals(numbers));
        assert(decimals(numbers.push(n)).last() == decimal(n as nat));
        assert(number_list(numbers).drop_last() =~= "["@ + joined(decimals(numbers), ", "@));
        assert(number_list(numbers.push(n)) =~= number_list(numbers).drop_last() + ", "@ + decimal(n as nat) + "]"@);
    }
}

} // verus!
