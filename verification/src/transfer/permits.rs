//! Permits for the files that are being sent: only so many at once.
use vstd::prelude::*;
use crate::text::{same, strings};
use super::batch::MAX_CONCURRENT_FILES;
use super::manager::{forgets, remove_cancel_token, Manager, ManagerView};
use super::message::{sent, Effect};

verus! {

/// The permits that are out, each with the upload that holds it.
#[derive(Debug)]
pub struct FilePermits {
    holders: Vec<String>,
}

impl View for FilePermits {
    type V = Seq<Seq<char>>;

    closed spec fn view(&self) -> Seq<Seq<char>> {
        strings(self.holders@)
    }
}

/// The permits that are out once an upload has given one back.
pub open spec fn less_one(holders: Seq<Seq<char>>, id: Seq<char>) -> Seq<Seq<char>> {
    holders.remove(holders.index_of_first(id)->Some_0)
}

impl FilePermits {
    /// No more permits are out than there are.
    pub open spec fn wf(&self) -> bool {
        self@.len() <= MAX_CONCURRENT_FILES
    }

    /// All permits are there.
    pub fn new() -> (r: Self)
        ensures
            r.wf(),
            r@ == Seq::<Seq<char>>::empty(),
    {
        let r = FilePermits { holders: Vec::new() };
        assert(r@ =~= Seq::<Seq<char>>::empty());
        r
    }

    /// Where an upload's permit stands among those that are out.
    fn place(&self, id: &str) -> (r: Option<usize>)
        ensures
            match r {
                Some(at) => at < self@.len() && self@.index_of_first(id@) == Some(at as int),
                None => !self@.contains(id@),
            },
    {
        let mut i: usize = 0;
        while i < self.holders.len()
            invariant
                i <= self.holders@.len(),
                forall|j: int| 0 <= j < i ==> #[trigger] self@[j] != id@,
            decreases self.holders@.len() - i,
        {
            if same(&self.holders[i], id) {
                assert(self@[i as int] == id@);
                proof {
                    self@.index_of_first_ensures(id@);
                }
                return Some(i);
            }
            assert(self@[i as int] != id@);
            i = i + 1;
        }
        None
    }
}

/// Whether an upload holds a permit.
pub fn holds_permit(m: &Manager, upload_id: &str) -> (r: bool)
    ensures
        r == m@.sending.contains(upload_id@),
{
    match m.sending.place(upload_id) {
        Some(at) => {
            proof {
                m@.sending.index_of_first_ensures(upload_id@);
            }
            true
        },
        None => false,
    }
}

/// Gives an upload a permit, if one is left. The result says whether one was.
pub fn take_permit(m: &mut Manager, upload_id: &str) -> (r: bool)
    requires
        old(m).wf(),
    ensures
        final(m).wf(),
        r == (old(m)@.sending.len() < MAX_CONCURRENT_FILES),
        final(m)@ == permit_taken(old(m)@, upload_id@),
{
    if m.sending.holders.len() >= MAX_CONCURRENT_FILES {
        return false;
    }
    m.sending.holders.push(upload_id.to_string());
    assert(m@.sending =~= old(m)@.sending.push(upload_id@));
    true
}

/// The state after an upload has asked for a permit.
pub open spec fn permit_taken(m: ManagerView, id: Seq<char>) -> ManagerView {
    if m.sending.len() < MAX_CONCURRENT_FILES {
        ManagerView { sending: m.sending.push(id), ..m }
    } else {
        m
    }
}

/// The state after an upload has given a permit back. Without one it has no cancellation token either.
pub open spec fn permit_given_back(m: ManagerView, id: Seq<char>) -> ManagerView {
    let left = ManagerView { sending: less_one(m.sending, id), ..m };
    if left.sending.contains(id) {
        left
    } else {
        left.without_token(id)
    }
}

/// Takes a permit back from an upload.
pub fn give_back_permit(m: &mut Manager, upload_id: &str, out: &mut Vec<Effect<String>>)
    requires
        old(m).wf(),
        old(m)@.sending.contains(upload_id@),
    ensures
        final(m).wf(),
        final(m)@ == permit_given_back(old(m)@, upload_id@),
        sent(final(out)@) == sent(old(out)@) + if less_one(old(m)@.sending, upload_id@).contains(upload_id@) {
            Seq::empty()
        } else {
            forgets(old(m)@.tokens, upload_id@)
        },
{
    match m.sending.place(upload_id) {
        Some(at) => {
            m.sending.holders.remove(at);
            assert(m@.sending =~= less_one(old(m)@.sending, upload_id@));
        },
        None => {},
    }
    assert(m@ =~= (ManagerView { sending: less_one(old(m)@.sending, upload_id@), ..old(m)@ }));
    if holds_permit(m, upload_id) {
        assert(sent(out@) =~= sent(old(out)@) + Seq::<Effect<Seq<char>>>::empty());
    } else {
        remove_cancel_token(m, upload_id, out);
    }
}

/// A permit is given while fewer than three are out, and then the upload holds one more; else nothing
/// changes. All other permits stay, in their order.
pub proof fn law_permit_is_given(m: ManagerView, id: Seq<char>)
    ensures
        m.sending.len() < 3 ==> permit_taken(m, id).sending.len() == m.sending.len() + 1,
        m.sending.len() < 3 ==> permit_taken(m, id).sending.last() == id,
        m.sending.len() < 3 ==> permit_taken(m, id).sending.drop_last() == m.sending,
        m.sending.len() >= 3 ==> permit_taken(m, id) == m,
        permit_taken(m, id) == (ManagerView { sending: permit_taken(m, id).sending, ..m }),
{
}

/// An upload that gives a permit back holds one less, and every other upload as many as before. When it
/// holds none any more its token goes; no other token, and nothing else, changes.
pub proof fn law_permit_is_given_back(m: ManagerView, id: Seq<char>, other: Seq<char>)
    requires
        m.sending.contains(id),
    ensures
        ({
            let after = permit_given_back(m, id);
            &&& after.sending.len() == m.sending.len() - 1
            &&& after.sending.to_multiset().count(id) == m.sending.to_multiset().count(id) - 1
            &&& other != id ==> after.sending.to_multiset().count(other) == m.sending.to_multiset().count(other)
            &&& after.sending.contains(id) ==> after.tokens == m.tokens
            &&& !after.sending.contains(id) ==> !after.tokens.contains_key(id)
            &&& other != id ==> after.tokens.contains_key(other) == m.tokens.contains_key(other)
            &&& other != id && m.tokens.contains_key(other) ==> after.tokens[other] == m.tokens[other]
            &&& after == (ManagerView { sending: after.sending, tokens: after.tokens, ..m })
        }),
{
    let at = m.sending.index_of_first(id)->Some_0;
    m.sending.index_of_first_ensures(id);
    m.sending.to_multiset_ensures();
    m.sending.remove_ensures(at);
    assert(m.sending[at] == id);
    assert(m.sending.remove(at).to_multiset() =~= m.sending.to_multiset().remove(id));
}

} // verus!
