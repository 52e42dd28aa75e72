use vstd::prelude::*;

use rand::Rng;

verus! {

/// The shape of a session identifier: `qs_` and twelve lowercase letters.
pub open spec fn is_session_id(s: Seq<char>) -> bool {
    &&& s.len() == 15
    &&& s.subrange(0, 3) == seq!['q', 's', '_']
    &&& forall|i: int| 3 <= i < 15 ==> 'a' <= #[trigger] s[i] && s[i] <= 'z'
}

/// The lowercase letter at position `i` of the alphabet, for `i` in `0..26`.
pub open spec fn letter(i: int) -> char {
    "abcdefghijklmnopqrstuvwxyz"@[i]
}

/// Letters of the session identifier spelled by a sequence of alphabet positions.
pub open spec fn session_text(draws: Seq<usize>) -> Seq<char> {
    seq!['q', 's', '_'] + Seq::new(draws.len(), |i: int| letter(draws[i] as int))
}

/// Relies on rand's `thread_rng` and `Rng::gen_range`: a value drawn from
/// `0..bound`, which panics on an empty range.
#[verifier::external_body]
fn random_below(bound: usize) -> (r: usize)
    requires
        bound > 0,
    ensures
        r < bound,
{
    rand::thread_rng().gen_range(0..bound)
}

/// The session identifier spelled by twelve alphabet positions.
pub fn session_id_from(draws: &[usize]) -> (r: String)
    requires
        draws@.len() == 12,
        forall|i: int| 0 <= i < 12 ==> draws@[i] < 26,
    ensures
        r@ == session_text(draws@),
        is_session_id(r@),
{
    let alphabet = "abcdefghijklmnopqrstuvwxyz";
    proof {
        reveal_strlit("abcdefghijklmnopqrstuvwxyz");
        reveal_strlit("qs_");
    }
    let mut s = String::from_str("qs_");
    let mut i: usize = 0;
    while i < 12
        invariant
            i <= 12,
            draws@.len() == 12,
            forall|j: int| 0 <= j < 12 ==> draws@[j] < 26,
            alphabet@ == "abcdefghijklmnopqrstuvwxyz"@,
            alphabet@.len() == 26,
            forall|j: int| 0 <= j < 26 ==> 'a' <= #[trigger] alphabet@[j] && alphabet@[j] <= 'z',
            s@ == session_text(draws@.subrange(0, i as int)),
        decreases 12 - i,
    {
        let d = draws[i];
        let one = alphabet.substring_char(d, d + 1);
        s.append(one);
        i = i + 1;
        assert(s@ =~= session_text(draws@.subrange(0, i as int)));
    }
    assert(draws@.subrange(0, 12) =~= draws@);
    assert forall|j: int| 3 <= j < 15 implies 'a' <= #[trigger] s@[j] && s@[j] <= 'z' by {
        assert(s@[j] == alphabet@[draws@[j - 3] as int]);
    }
    assert(s@.subrange(0, 3) =~= seq!['q', 's', '_']);
    s
}

/// A fresh session identifier: twelve letters drawn uniformly, with
/// replacement, from the lowercase alphabet.
pub fn generate_session() -> (r: String)
    ensures
        is_session_id(r@),
{
    let mut draws: Vec<usize> = Vec::new();
    while draws.len() < 12
        invariant
            draws@.len() <= 12,
            forall|j: int| 0 <= j < draws@.len() ==> draws@[j] < 26,
        decreases 12 - draws@.len(),
    {
        draws.push(random_below(26));
    }
    session_id_from(draws.as_slice())
}

} // verus!
