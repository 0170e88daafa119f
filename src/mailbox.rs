use vstd::prelude::*;

verus! {

/// What one `drain_one` hands out of a mailbox holding `c`.
pub open spec fn drain_result(c: Seq<Seq<char>>) -> Option<Seq<char>> {
    if c.len() == 0 {
        None
    } else {
        Some(c.last())
    }
}

/// What a mailbox holding `c` holds after one `drain_one`.
pub open spec fn drain_rest(c: Seq<Seq<char>>) -> Seq<Seq<char>> {
    if c.len() == 0 {
        c
    } else {
        c.drop_last()
    }
}

/// The contents after posting each of `msgs` in turn into a mailbox holding `c`.
pub open spec fn posted_all(c: Seq<Seq<char>>, msgs: Seq<Seq<char>>) -> Seq<Seq<char>>
    decreases msgs.len(),
{
    if msgs.len() == 0 {
        c
    } else {
        posted_all(c.push(msgs[0]), msgs.drop_first())
    }
}

/// The results of `n` successive `drain_one` calls on a mailbox holding `c`.
pub open spec fn drained(c: Seq<Seq<char>>, n: nat) -> Seq<Option<Seq<char>>>
    decreases n,
{
    if n == 0 {
        Seq::empty()
    } else {
        seq![drain_result(c)] + drained(drain_rest(c), (n - 1) as nat)
    }
}

/// What a mailbox holding `c` holds after `n` successive `drain_one` calls.
pub open spec fn drained_rest(c: Seq<Seq<char>>, n: nat) -> Seq<Seq<char>>
    decreases n,
{
    if n == 0 {
        c
    } else {
        drained_rest(drain_rest(c), (n - 1) as nat)
    }
}

/// The messages carried by a sequence of drain results.
pub open spec fn payloads(rs: Seq<Option<Seq<char>>>) -> Seq<Seq<char>> {
    rs.map_values(|o: Option<Seq<char>>| o->0)
}

/// Result messages produced by background work, waiting for the frame loop.
///
/// Producers append with `post`; the single consumer takes one arbitrary
/// entry per frame with `drain_one`. The owner shares it behind a lock, so
/// every sequence of concurrent posts reaches it as some order of `post`
/// calls.
pub struct Mailbox {
    entries: Vec<String>,
}

impl View for Mailbox {
    type V = Seq<Seq<char>>;

    closed spec fn view(&self) -> Seq<Seq<char>> {
        self.entries@.map_values(|s: String| s@)
    }
}

impl Mailbox {
    pub fn new() -> (r: Mailbox)
        ensures
            r@ == Seq::<Seq<char>>::empty(),
    {
        let r = Mailbox { entries: Vec::new() };
        assert(r@ =~= Seq::<Seq<char>>::empty());
        r
    }

    /// Adds one message.
    pub fn post(&mut self, message: String)
        ensures
            final(self)@ == old(self)@.push(message@),
    {
        self.entries.push(message);
        assert(self@ =~= old(self)@.push(message@));
    }

    /// Removes and returns one waiting message, or `None` when there is none.
    pub fn drain_one(&mut self) -> (r: Option<String>)
        ensures
            r.is_none() == (drain_result(old(self)@) is None),
            r matches Some(s) ==> drain_result(old(self)@) == Some(s@),
            final(self)@ == drain_rest(old(self)@),
    {
        let r = self.entries.pop();
        assert(self@ =~= drain_rest(old(self)@));
        r
    }

    pub fn len(&self) -> (r: usize)
        ensures
            r == self@.len(),
    {
        self.entries.len()
    }

    pub fn is_empty(&self) -> (r: bool)
        ensures
            r == (self@.len() == 0),
    {
        self.entries.len() == 0
    }
}

/// Posting messages one after another appends them in that order.
pub proof fn lemma_posted_all_appends(c: Seq<Seq<char>>, msgs: Seq<Seq<char>>)
    ensures
        posted_all(c, msgs) == c + msgs,
    decreases msgs.len(),
{
    if msgs.len() == 0 {
        assert(c + msgs =~= c);
    } else {
        lemma_posted_all_appends(c.push(msgs[0]), msgs.drop_first());
        assert(c.push(msgs[0]) + msgs.drop_first() =~= c + msgs);
    }
}

/// Draining as many times as there are entries yields every entry once,
/// each as `Some`, and leaves the mailbox empty.
pub proof fn lemma_drain_everything(c: Seq<Seq<char>>)
    ensures
        drained(c, c.len()).len() == c.len(),
        forall|i: int| 0 <= i < c.len() ==> #[trigger] drained(c, c.len())[i] is Some,
        payloads(drained(c, c.len())).to_multiset() == c.to_multiset(),
        drained_rest(c, c.len()) == Seq::<Seq<char>>::empty(),
    decreases c.len(),
{
    broadcast use vstd::seq_lib::group_to_multiset_ensures;
    if c.len() == 0 {
        assert(payloads(drained(c, 0)) =~= Seq::<Seq<char>>::empty());
        assert(c =~= Seq::<Seq<char>>::empty());
    } else {
        let rest = c.drop_last();
        lemma_drain_everything(rest);
        let n = c.len();
        assert(drain_rest(c) == rest);
        assert(rest.len() == (n - 1) as nat);
        let tail = drained(rest, rest.len());
        assert(drained(c, n) == seq![Some(c.last())] + tail);
        assert forall|i: int| 0 <= i < c.len() implies #[trigger] drained(c, c.len())[i] is Some by {
            if i > 0 {
                assert(drained(c, n)[i] == tail[i - 1]);
            }
        }
        assert(payloads(drained(c, n)) =~= seq![c.last()] + payloads(tail));
        vstd::seq_lib::lemma_multiset_commutative(seq![c.last()], payloads(tail));
        assert(seq![c.last()] =~= Seq::<Seq<char>>::empty().push(c.last()));
        assert(rest.push(c.last()) =~= c);
    }
}

/// Posting `msgs` into an empty mailbox and then draining it once per message
/// returns exactly the posted messages, in some order, each once; one more
/// drain then returns nothing.
pub proof fn lemma_drain_returns_every_post(msgs: Seq<Seq<char>>)
    ensures
        ({
            let c = posted_all(Seq::empty(), msgs);
            let outs = drained(c, msgs.len());
            &&& outs.len() == msgs.len()
            &&& forall|i: int| 0 <= i < msgs.len() ==> #[trigger] outs[i] is Some
            &&& payloads(outs).to_multiset() == msgs.to_multiset()
            &&& drain_result(drained_rest(c, msgs.len())) is None
        }),
{
    lemma_posted_all_appends(Seq::empty(), msgs);
    assert(Seq::<Seq<char>>::empty() + msgs =~= msgs);
    lemma_drain_everything(msgs);
}

/// Posts never lose, overwrite or duplicate entries: whatever the order in
/// which concurrent posts reach the mailbox, what it holds afterwards is what
/// it held before together with every posted message.
pub proof fn lemma_posts_keep_every_entry(c: Seq<Seq<char>>, msgs: Seq<Seq<char>>)
    ensures
        posted_all(c, msgs).to_multiset() == c.to_multiset().add(msgs.to_multiset()),
{
    lemma_posted_all_appends(c, msgs);
    vstd::seq_lib::lemma_multiset_commutative(c, msgs);
}

/// The `j`-th of `n` successive drains hands out what one drain hands out of
/// the mailbox left by the first `j`.
pub proof fn lemma_drained_index(c: Seq<Seq<char>>, n: nat, j: int)
    requires
        0 <= j < n,
    ensures
        drained(c, n)[j] == drain_result(drained_rest(c, j as nat)),
    decreases j,
{
    lemma_drained_len(c, n);
    let tail = drained(drain_rest(c), (n - 1) as nat);
    assert(drained(c, n) == seq![drain_result(c)] + tail);
    if j > 0 {
        lemma_drained_index(drain_rest(c), (n - 1) as nat, j - 1);
        assert(drained(c, n)[j] == tail[j - 1]);
        assert(drained_rest(c, j as nat) == drained_rest(drain_rest(c), (j - 1) as nat));
    } else {
        assert(drained_rest(c, 0) == c);
    }
}

/// `n` successive drains give `n` results.
pub proof fn lemma_drained_len(c: Seq<Seq<char>>, n: nat)
    ensures
        drained(c, n).len() == n,
    decreases n,
{
    if n > 0 {
        lemma_drained_len(drain_rest(c), (n - 1) as nat);
    }
}

/// One more drain after `j` drains leaves what `j + 1` drains leave.
pub proof fn lemma_drained_rest_step(c: Seq<Seq<char>>, j: nat)
    ensures
        drained_rest(c, j + 1) == drain_rest(drained_rest(c, j)),
    decreases j,
{
    if j > 0 {
        lemma_drained_rest_step(drain_rest(c), (j - 1) as nat);
        assert(drained_rest(c, j + 1) == drained_rest(drain_rest(c), j));
        assert(drained_rest(c, j) == drained_rest(drain_rest(c), (j - 1) as nat));
    } else {
        assert(drained_rest(c, 1) == drained_rest(drain_rest(c), 0));
        assert(drained_rest(c, 0) == c);
    }
}

} // verus!
