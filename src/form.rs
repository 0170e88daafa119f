use vstd::prelude::*;
use crate::mailbox::{
    Mailbox, drain_rest, drain_result, drained, drained_rest, lemma_drain_everything,
    lemma_drained_index, lemma_drained_rest_step, payloads,
};

verus! {

/// The placeholder shown instead of a card suffix that is too short to mask.
pub open spec fn mask_placeholder() -> Seq<char> {
    "XXXX"@
}

/// The last four characters of `card`, or the placeholder when it holds four
/// or fewer.
pub open spec fn masked(card: Seq<char>) -> Seq<char> {
    if card.len() > 4 {
        card.subrange(card.len() - 4, card.len() as int)
    } else {
        mask_placeholder()
    }
}

/// The notice shown as soon as a submission is started.
pub open spec fn sending_message(card: Seq<char>) -> Seq<char> {
    "Th-thanks for your card ending in "@ + masked(card) + "! (Sending...)"@
}

/// The characters of `card` that a status line may show.
pub fn masked_suffix(card: &str) -> (r: String)
    ensures
        r@ == masked(card@),
{
    let n = card.unicode_len();
    if n > 4 {
        String::from_str(card.substring_char(n - 4, n))
    } else {
        String::from_str("XXXX")
    }
}

/// The optimistic status line for a submission of `card`.
pub fn sending_notice(card: &str) -> (r: String)
    ensures
        r@ == sending_message(card@),
{
    let mut s = String::from_str("Th-thanks for your card ending in ");
    let suffix = masked_suffix(card);
    s.append(suffix.as_str());
    s.append("! (Sending...)");
    s
}

/// One frame's `absorb_one`: the message on show goes from `shown` to
/// `shown2` while the mailbox goes from `c` to `c2`.
pub open spec fn absorb_step(
    shown: Option<Seq<char>>,
    c: Seq<Seq<char>>,
    shown2: Option<Seq<char>>,
    c2: Seq<Seq<char>>,
) -> bool {
    &&& c2 == drain_rest(c)
    &&& shown2 == match drain_result(c) {
        Some(m) => Some(m),
        None => shown,
    }
}

/// The three text fields as the user is typing them.
pub struct FormState {
    pub card_number: String,
    pub expiry_date: String,
    pub security_code: String,
}

/// A snapshot of the form taken when it is submitted.
pub struct SubmissionRecord {
    pub card_number: String,
    pub expiry_date: String,
    pub security_code: String,
}

impl FormState {
    pub fn new() -> (r: FormState)
        ensures
            r.card_number@.len() == 0,
            r.expiry_date@.len() == 0,
            r.security_code@.len() == 0,
    {
        FormState {
            card_number: String::new(),
            expiry_date: String::new(),
            security_code: String::new(),
        }
    }

    /// Copies the three fields as they stand now.
    pub fn snapshot(&self) -> (r: SubmissionRecord)
        ensures
            r.card_number@ == self.card_number@,
            r.expiry_date@ == self.expiry_date@,
            r.security_code@ == self.security_code@,
    {
        SubmissionRecord {
            card_number: self.card_number.clone(),
            expiry_date: self.expiry_date.clone(),
            security_code: self.security_code.clone(),
        }
    }
}

/// The state that the frame loop owns: the form and the one message on show.
pub struct FormWindow {
    pub form: FormState,
    pub message: Option<String>,
}

impl FormWindow {
    pub open spec fn shown(&self) -> Option<Seq<char>> {
        match self.message {
            Some(m) => Some(m@),
            None => None,
        }
    }

    pub fn new() -> (r: FormWindow)
        ensures
            r.form.card_number@.len() == 0,
            r.form.expiry_date@.len() == 0,
            r.form.security_code@.len() == 0,
            r.shown() is None,
    {
        FormWindow { form: FormState::new(), message: None }
    }

    /// Takes at most one waiting result out of the mailbox; when there was
    /// one, it replaces the message on show.
    pub fn absorb_one(&mut self, mailbox: &mut Mailbox)
        ensures
            absorb_step(old(self).shown(), old(mailbox)@, final(self).shown(), final(mailbox)@),
            final(self).form == old(self).form,
    {
        match mailbox.drain_one() {
            Some(m) => {
                self.message = Some(m);
            },
            None => {},
        }
    }

    /// Starts a submission: snapshots the form and shows the sending notice.
    /// The caller hands the record to a detached submission task.
    pub fn submit(&mut self) -> (r: SubmissionRecord)
        ensures
            r.card_number@ == old(self).form.card_number@,
            r.expiry_date@ == old(self).form.expiry_date@,
            r.security_code@ == old(self).form.security_code@,
            final(self).form == old(self).form,
            final(self).shown() == Some(sending_message(old(self).form.card_number@)),
    {
        let record = self.form.snapshot();
        self.message = Some(sending_notice(self.form.card_number.as_str()));
        record
    }
}

/// When the mailbox holds `c` and no further posts come, the next `c.len()`
/// frames show each waiting message exactly once, in some order, and leave
/// the mailbox empty. `shown[j]` and `boxes[j]` are the message on show and
/// the mailbox contents before frame `j`.
pub proof fn lemma_frames_show_every_post(
    c: Seq<Seq<char>>,
    shown: Seq<Option<Seq<char>>>,
    boxes: Seq<Seq<Seq<char>>>,
)
    requires
        shown.len() == c.len() + 1,
        boxes.len() == c.len() + 1,
        boxes[0] == c,
        forall|j: int|
            0 <= j < c.len() ==> #[trigger] absorb_step(
                shown[j],
                boxes[j],
                shown[j + 1],
                boxes[j + 1],
            ),
    ensures
        forall|j: int| 1 <= j <= c.len() ==> #[trigger] shown[j] is Some,
        payloads(shown.subrange(1, c.len() as int + 1)).to_multiset() == c.to_multiset(),
        boxes[c.len() as int].len() == 0,
{
    let n = c.len();
    lemma_drain_everything(c);
    assert forall|j: int| 0 <= j <= n implies #[trigger] boxes[j] == drained_rest(c, j as nat) by {
        lemma_boxes_follow_drains(c, shown, boxes, j);
    }
    assert forall|j: int| 0 <= j < n implies shown[j + 1] == #[trigger] drained(c, n)[j] by {
        lemma_drained_index(c, n, j);
        assert(absorb_step(shown[j], boxes[j], shown[j + 1], boxes[j + 1]));
    }
    assert(shown.subrange(1, n as int + 1) =~= drained(c, n));
    assert forall|j: int| 1 <= j <= n implies #[trigger] shown[j] is Some by {
        assert(shown[(j - 1) + 1] == drained(c, n)[j - 1]);
    }
}

proof fn lemma_boxes_follow_drains(
    c: Seq<Seq<char>>,
    shown: Seq<Option<Seq<char>>>,
    boxes: Seq<Seq<Seq<char>>>,
    j: int,
)
    requires
        shown.len() == c.len() + 1,
        boxes.len() == c.len() + 1,
        boxes[0] == c,
        forall|k: int|
            0 <= k < c.len() ==> #[trigger] absorb_step(
                shown[k],
                boxes[k],
                shown[k + 1],
                boxes[k + 1],
            ),
        0 <= j <= c.len(),
    ensures
        boxes[j] == drained_rest(c, j as nat),
    decreases j,
{
    if j > 0 {
        let k = j - 1;
        lemma_boxes_follow_drains(c, shown, boxes, k);
        assert(absorb_step(shown[k], boxes[k], shown[k + 1], boxes[k + 1]));
        lemma_drained_rest_step(c, k as nat);
    }
}

} // verus!
