use vstd::prelude::*;

use crate::decimal::{digits_of, is_digit, lemma_digits_of};
use crate::frame::{byte_len, frame_of, prepend_header};
use crate::text::chars_of;

verus! {

/// `p` occurs in `t` starting at position `i`.
pub open spec fn occurs_at(t: Seq<char>, p: Seq<char>, i: int) -> bool {
    0 <= i && i + p.len() <= t.len() && t.subrange(i, i + p.len()) == p
}

pub open spec fn contains(t: Seq<char>, p: Seq<char>) -> bool {
    exists|i: int| occurs_at(t, p, i)
}

/// A chunk that ends the subscription: it names `quote_completed` or `session_id`.
pub open spec fn is_control(t: Seq<char>) -> bool {
    contains(t, "quote_completed"@) || contains(t, "session_id"@)
}

/// Position of the first `{` at or after `i`.
pub open spec fn brace_from(t: Seq<char>, i: int) -> Option<int>
    decreases t.len() - i,
{
    if i < 0 || i >= t.len() {
        None
    } else if t[i] == '{' {
        Some(i)
    } else {
        brace_from(t, i + 1)
    }
}

/// The trailing JSON object of a chunk: from its first `{` to its final
/// character, which must be `}`. Leading frame headers, one or several, are
/// passed over.
pub open spec fn json_object(t: Seq<char>) -> Option<Seq<char>> {
    if t.len() > 0 && t.last() == '}' {
        match brace_from(t, 0) {
            Some(i) => Some(t.subrange(i, t.len() as int)),
            None => None,
        }
    } else {
        None
    }
}

/// Width of the header that a keepalive probe starts with.
pub open spec fn ping_header_len() -> int {
    7
}

/// The reply to a keepalive probe: what follows its first seven characters,
/// framed again; nothing when nothing follows.
pub open spec fn ping_reply_of(t: Seq<char>) -> Option<Seq<char>> {
    if t.len() > ping_header_len() {
        Some(frame_of(t.subrange(ping_header_len(), t.len() as int)))
    } else {
        None
    }
}

/// What the quote loop does with one inbound chunk.
#[derive(Debug, PartialEq, Eq)]
pub enum Step {
    /// The server ended the subscription: read and write nothing more.
    Stop,
    /// A quote envelope, as JSON text, to be decoded and reported.
    Quote(String),
    /// A keepalive reply to send back.
    Reply(String),
    /// Nothing to do for this chunk.
    Skip,
}

/// The step for a chunk, as text.
pub open spec fn step_of(t: Seq<char>) -> StepSpec {
    if is_control(t) {
        StepSpec::Stop
    } else if json_object(t) is Some {
        StepSpec::Quote(json_object(t)->Some_0)
    } else if ping_reply_of(t) is Some {
        StepSpec::Reply(ping_reply_of(t)->Some_0)
    } else {
        StepSpec::Skip
    }
}

/// The mathematical value of a `Step`.
pub enum StepSpec {
    Stop,
    Quote(Seq<char>),
    Reply(Seq<char>),
    Skip,
}

impl View for Step {
    type V = StepSpec;

    open spec fn view(&self) -> StepSpec {
        match self {
            Step::Stop => StepSpec::Stop,
            Step::Quote(s) => StepSpec::Quote(s@),
            Step::Reply(s) => StepSpec::Reply(s@),
            Step::Skip => StepSpec::Skip,
        }
    }
}

/// Whether `p` occurs in `t`.
pub fn contains_seq(t: &Vec<char>, p: &Vec<char>) -> (r: bool)
    ensures
        r == contains(t@, p@),
{
    let n = t.len();
    let m = p.len();
    if m > n {
        assert forall|i: int| !occurs_at(t@, p@, i) by {}
        return false;
    }
    let mut i: usize = 0;
    while i <= n - m
        invariant
            m <= n,
            n == t@.len(),
            m == p@.len(),
            forall|q: int| 0 <= q < i ==> !occurs_at(t@, p@, q),
        decreases n - m + 1 - i,
    {
        let mut j: usize = 0;
        let mut same = true;
        while j < m
            invariant
                j <= m,
                m == p@.len(),
                i + m <= n,
                n == t@.len(),
                same == (forall|q: int| 0 <= q < j ==> t@[i + q] == p@[q]),
            decreases m - j,
        {
            if t[i + j] != p[j] {
                same = false;
            }
            j = j + 1;
        }
        if same {
            assert(t@.subrange(i as int, i + m) =~= p@);
            assert(occurs_at(t@, p@, i as int));
            return true;
        }
        assert(!occurs_at(t@, p@, i as int)) by {
            let w = choose|q: int| 0 <= q < m && t@[i + q] != p@[q];
            if t@.subrange(i as int, i + m) == p@ {
                assert(t@.subrange(i as int, i + m)[w] == t@[i + w]);
            }
        }
        i = i + 1;
    }
    assert forall|q: int| !occurs_at(t@, p@, q) by {
        if 0 <= q < i {
        }
    }
    false
}

/// Whether the chunk ends the subscription.
pub fn is_control_chunk(chunk: &str) -> (r: bool)
    ensures
        r == is_control(chunk@),
{
    let t = chars_of(chunk);
    let completed = chars_of("quote_completed");
    let session = chars_of("session_id");
    contains_seq(&t, &completed) || contains_seq(&t, &session)
}

/// The trailing JSON object of a chunk, if it has one.
pub fn extract_json(chunk: &str) -> (r: Option<String>)
    ensures
        r matches Some(j) ==> json_object(chunk@) == Some(j@),
        r is None ==> json_object(chunk@) is None,
{
    let t = chars_of(chunk);
    let n = t.len();
    if n == 0 || t[n - 1] != '}' {
        return None;
    }
    let mut i: usize = 0;
    while i < n
        invariant
            i <= n,
            n == t@.len(),
            t@ == chunk@,
            brace_from(t@, 0) == brace_from(t@, i as int),
            n > 0,
            t@.last() == '}',
        decreases n - i,
    {
        if t[i] == '{' {
            assert(brace_from(t@, i as int) == Some(i as int));
            return Some(String::from_str(chunk.substring_char(i, n)));
        }
        i = i + 1;
    }
    None
}

/// The keepalive reply to a chunk that holds no JSON object.
pub fn ping_reply(chunk: &str) -> (r: Option<String>)
    ensures
        r matches Some(s) ==> ping_reply_of(chunk@) == Some(s@),
        r is None ==> ping_reply_of(chunk@) is None,
{
    let n = chunk.unicode_len();
    if n > 7 {
        let rest = chunk.substring_char(7, n);
        Some(prepend_header(rest))
    } else {
        None
    }
}

/// Decides what to do with one inbound chunk of the quote stream.
pub fn get_price(chunk: &str) -> (r: Step)
    ensures
        r@ == step_of(chunk@),
{
    if is_control_chunk(chunk) {
        return Step::Stop;
    }
    match extract_json(chunk) {
        Some(j) => Step::Quote(j),
        None => match ping_reply(chunk) {
            Some(p) => Step::Reply(p),
            None => Step::Skip,
        },
    }
}

/// One transition of the quote loop: from "terminated yet?" and a chunk, to
/// the new flag and the step taken.
pub open spec fn feed_spec(terminated: bool, t: Seq<char>) -> (bool, StepSpec) {
    if terminated {
        (true, StepSpec::Stop)
    } else {
        let s = step_of(t);
        (s is Stop, s)
    }
}

/// The quote loop: active until the server ends the subscription.
pub struct QuoteLoop {
    terminated: bool,
}

impl View for QuoteLoop {
    type V = bool;

    /// Whether the loop has terminated.
    closed spec fn view(&self) -> bool {
        self.terminated
    }
}

impl QuoteLoop {
    pub fn new() -> (r: QuoteLoop)
        ensures
            r@ == false,
    {
        QuoteLoop { terminated: false }
    }

    pub fn is_terminated(&self) -> (r: bool)
        ensures
            r == self@,
    {
        self.terminated
    }

    /// Handles one inbound chunk. Once terminated, the loop answers `Stop` to
    /// everything and nothing more is read or written.
    pub fn feed(&mut self, chunk: &str) -> (r: Step)
        ensures
            (final(self)@, r@) == feed_spec(old(self)@, chunk@),
    {
        if self.terminated {
            return Step::Stop;
        }
        let r = get_price(chunk);
        if let Step::Stop = r {
            self.terminated = true;
        }
        r
    }
}

/// A chunk that names `quote_completed` terminates an active loop, and every
/// later chunk is answered with `Stop`.
pub proof fn lemma_completed_terminates(first: Seq<char>, later: Seq<char>)
    requires
        contains(first, "quote_completed"@),
    ensures
        feed_spec(false, first) == (true, StepSpec::Stop),
        feed_spec(feed_spec(false, first).0, later) == (true, StepSpec::Stop),
{
}

/// A JSON object framed for the wire is found again by the loose decoder.
pub proof fn lemma_framed_object_found(payload: Seq<char>)
    requires
        payload.len() > 0,
        payload[0] == '{',
        payload.last() == '}',
    ensures
        json_object(frame_of(payload)) == Some(payload),
{
    let d = digits_of(byte_len(payload));
    let t = frame_of(payload);
    let h = 6 + d.len();
    lemma_digits_of(byte_len(payload));
    assert(t[h as int] == '{');
    assert forall|i: int| 0 <= i < h implies t[i] != '{' by {
        if 3 <= i < 3 + d.len() {
            assert(t[i] == d[i - 3]);
            assert(is_digit(d[i - 3]));
        }
    }
    lemma_brace_from_skips(t, 0, h as int);
    assert(t.subrange(h as int, t.len() as int) =~= payload);
}

proof fn lemma_brace_from_skips(t: Seq<char>, i: int, h: int)
    requires
        0 <= i <= h < t.len(),
        t[h] == '{',
        forall|j: int| i <= j < h ==> t[j] != '{',
    ensures
        brace_from(t, i) == Some(h),
    decreases h - i,
{
    if i < h {
        lemma_brace_from_skips(t, i + 1, h);
    }
}

} // verus!
