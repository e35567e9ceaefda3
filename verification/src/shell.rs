//! The frame of the program: the links with which it is launched, and whether the user is asked to
//! log in.
use vstd::prelude::*;
use vstd::string::*;
use crate::auth::{delete_token, keyring_outcome, KeyringFault, TokenCache};
use crate::text::{begins_with, chars_of, replace_text, replaced, starts_with_text, string_of, strings};
use crate::transfer::manager::{clear_tasks, Manager, ManagerView};
use crate::transfer::message::{sent, Effect};

verus! {

/// What a link begins with.
pub open spec fn scheme() -> Seq<char> {
    "ipams://"@
}

/// At this place stands a link, and none stands before it.
pub open spec fn first_link(args: Seq<Seq<char>>, at: int) -> bool {
    &&& 0 <= at < args.len()
    &&& begins_with(args[at], scheme())
    &&& forall|i: int| 0 <= i < at ==> !begins_with(#[trigger] args[i], scheme())
}

/// The place of the first argument that is a link, if there is one.
pub fn link_argument(args: &Vec<String>) -> (r: Option<usize>)
    ensures
        match r {
            Some(at) => first_link(strings(args@), at as int),
            None => forall|i: int| 0 <= i < args@.len() ==> !begins_with(#[trigger] strings(args@)[i], scheme()),
        },
{
    let ghost texts = strings(args@);
    let mut i: usize = 0;
    while i < args.len()
        invariant
            i <= args@.len(),
            texts == strings(args@),
            forall|j: int| 0 <= j < i ==> !begins_with(#[trigger] texts[j], scheme()),
        decreases args@.len() - i,
    {
        assert(texts[i as int] == args@[i as int]@);
        if starts_with_text(&args[i], "ipams://") {
            return Some(i);
        }
        i = i + 1;
    }
    None
}

/// The text without the quotes round it, if it has both.
pub open spec fn unwrapped(raw: Seq<char>) -> Seq<char> {
    if raw.len() >= 2 && raw[0] == '"' && raw.last() == '"' {
        raw.subrange(1, raw.len() - 1)
    } else {
        raw
    }
}

/// The link in what an event carries: without the quotes round it, and with those inside as they are
/// meant.
pub open spec fn link_in(raw: Seq<char>) -> Seq<char> {
    replaced(unwrapped(raw), "\\\""@, "\""@)
}

/// The link in what an event carries.
pub fn event_link(raw: &str) -> (r: String)
    ensures
        r@ == link_in(raw@),
{
    let chars = chars_of(raw);
    let n: usize = chars.len();
    let inner = if n >= 2 && chars[0] == '"' && chars[n - 1] == '"' {
        string_of(&chars, 1, n - 1)
    } else {
        raw.to_string()
    };
    proof {
        reveal_strlit("\\\"");
    }
    replace_text(&inner, "\\\"", "\"")
}

/// Whether the user is asked to log in as the program starts: not where a link launched it, which may
/// bring a token along.
pub fn asks_login(launched_by_link: bool, logged_in: bool) -> (r: bool)
    ensures
        r == (!launched_by_link && !logged_in),
{
    !launched_by_link && !logged_in
}

/// Logs the user out: the token is given up, and the tasks are forgotten, unless the keyring could not
/// give the token up. `gone` is what came of that.
pub fn logout(
    cache: &mut TokenCache,
    m: &mut Manager,
    gone: &Result<(), KeyringFault>,
    out: &mut Vec<Effect<String>>,
) -> (r: Result<(), String>)
    requires
        old(m).wf(),
    ensures
        final(m).wf(),
        final(cache)@ is None,
        match keyring_outcome(*gone, "delete"@) {
            Ok(()) => {
                &&& r is Ok
                &&& final(m)@ == (ManagerView { tasks: Map::empty(), ..old(m)@ })
                &&& sent(final(out)@) == sent(old(out)@).push(Effect::Save)
            },
            Err(text) => {
                &&& r matches Err(e) && e@ == text
                &&& final(m)@ == old(m)@
                &&& sent(final(out)@) == sent(old(out)@)
            },
        },
{
    match delete_token(cache, gone) {
        Ok(()) => {},
        Err(e) => {
            return Err(e);
        },
    }
    clear_tasks(m, out);
    Ok(())
}

/// A link is told by its scheme; the first argument that is one counts, and the arguments before it are none.
pub proof fn law_first_link(args: Seq<Seq<char>>, at: int, rest: Seq<char>, i: int)
    ensures
        begins_with("ipams://"@ + rest, scheme()),
        scheme() == "ipams://"@,
        first_link(args, at) ==> 0 <= at < args.len() && args[at] == "ipams://"@ + args[at].skip(8),
        first_link(args, at) && 0 <= i < at ==> args[i] != "ipams://"@ + rest,
        first_link(args, at) && first_link(args, i) ==> at == i,
        0 <= at < args.len() && args[at] == "ipams://"@ + rest && (forall|j: int|
            0 <= j < at ==> !begins_with(#[trigger] args[j], "ipams://"@)) ==> first_link(args, at),
{
    reveal_strlit("ipams://");
    crate::text::law_occurrence(rest, "ipams://"@, rest, rest);
    if first_link(args, at) {
        crate::text::law_occurrence(rest, "ipams://"@, rest, args[at]);
        if 0 <= i < at {
            assert(!begins_with(args[i], scheme()));
        }
        if first_link(args, i) && i > at {
            assert(!begins_with(args[at], scheme()));
        }
    }
}

/// A link in quotes is taken out of them, and a quote that was written with a backslash is a quote; a link
/// with neither is taken as it is.
pub proof fn law_link_in_an_event(link: Seq<char>, before: Seq<char>)
    requires
        !link.contains('"'),
        !link.contains('\\'),
        !before.contains('"'),
        !before.contains('\\'),
    ensures
        unwrapped(seq!['"'] + link + seq!['"']) == link,
        unwrapped(link) == link,
        link_in(link) == link,
        link_in(seq!['"'] + link + seq!['"']) == link,
        link_in(before + seq!['\\', '"'] + link) == before + seq!['"'] + link,
{
    reveal_strlit("\\\"");
    reveal_strlit("\"");
    assert("\\\""@ =~= seq!['\\', '"']);
    assert("\""@ =~= seq!['"']);
    let quoted = seq!['"'] + link + seq!['"'];
    assert(quoted.subrange(1, quoted.len() - 1) =~= link);
    if link.len() > 0 {
        assert(link.contains(link[0]));
    }
    lemma_nothing_to_replace(link);
    let whole = before + seq!['\\', '"'] + link;
    assert(unwrapped(whole) == whole) by {
        if before.len() > 0 {
            assert(before.contains(before[0]));
            assert(whole[0] == before[0]);
        } else {
            assert(whole[0] == '\\');
        }
    }
    lemma_one_to_replace(before, link);
}

proof fn lemma_nothing_to_replace(text: Seq<char>)
    requires
        !text.contains('\\'),
    ensures
        replaced(text, seq!['\\', '"'], seq!['"']) == text,
{
    let from = seq!['\\', '"'];
    assert(!crate::text::occurs(text, from)) by {
        if crate::text::occurs(text, from) {
            let at = choose|at: int| crate::text::occurs_at(text, from, at);
            assert(text.subrange(at, at + 2)[0] == text[at]);
            assert(text.contains(text[at]));
        }
    }
    crate::text::law_replaced(from, seq!['"'], text, ' ');
}

proof fn lemma_one_to_replace(before: Seq<char>, behind: Seq<char>)
    requires
        !before.contains('\\'),
        !behind.contains('\\'),
    ensures
        replaced(before + seq!['\\', '"'] + behind, seq!['\\', '"'], seq!['"']) == before + seq!['"'] + behind,
    decreases before.len(),
{
    let from = seq!['\\', '"'];
    let to = seq!['"'];
    lemma_nothing_to_replace(behind);
    if before.len() == 0 {
        crate::text::law_replaced(from, to, behind, ' ');
        assert(before + from + behind =~= from + behind);
        assert(before + to + behind =~= to + behind);
    } else {
        let fewer = before.skip(1);
        assert forall|i: int| 0 <= i < fewer.len() implies fewer[i] != '\\' by {
            assert(before.contains(before[i + 1]));
        }
        lemma_one_to_replace(fewer, behind);
        let rest = fewer + from + behind;
        let whole = seq![before[0]] + rest;
        assert(whole =~= before + from + behind);
        assert(before.contains(before[0]));
        assert(!begins_with(whole, from)) by {
            if begins_with(whole, from) {
                assert(whole.subrange(0, 2)[0] == whole[0]);
            }
        }
        assert(whole.skip(1) =~= rest);
        assert(replaced(whole, from, to) == seq![whole[0]] + replaced(rest, from, to));
        assert(seq![before[0]] + (fewer + to + behind) =~= before + to + behind);
    }
}

/// A text in quotes stands for what is between them, and any other for itself; then every quote that was
/// written with a backslash is a quote.
pub proof fn law_any_event(raw: Seq<char>)
    ensures
        raw.len() >= 2 && raw[0] == '"' && raw.last() == '"' ==> raw == seq!['"'] + unwrapped(raw) + seq!['"'],
        raw.len() < 2 || raw[0] != '"' || raw.last() != '"' ==> unwrapped(raw) == raw,
        link_in(raw) == replaced(unwrapped(raw), seq!['\\', '"'], seq!['"']),
{
    reveal_strlit("\\\"");
    reveal_strlit("\"");
    assert("\\\""@ =~= seq!['\\', '"']);
    assert("\""@ =~= seq!['"']);
    if raw.len() >= 2 && raw[0] == '"' && raw.last() == '"' {
        assert(raw =~= seq!['"'] + unwrapped(raw) + seq!['"']);
    }
}

} // verus!
