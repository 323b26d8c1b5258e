//! Recognition of a force request in a caller-supplied argument string.
//!
//! A force request is recognized only as the exact token `force` standing
//! last in the argument string: either the whole (space-trimmed) string, or
//! preceded by a space. Any other trailing content, such as a word that
//! merely begins with `force`, is not a force request.

use vstd::prelude::*;

verus! {

/// The byte sequence with its trailing spaces removed.
pub open spec fn trim_trailing_spaces(s: Seq<u8>) -> Seq<u8>
    decreases s.len(),
{
    if s.len() > 0 && s.last() == 32 {
        trim_trailing_spaces(s.drop_last())
    } else {
        s
    }
}

/// The bytes of the token `force`.
pub open spec fn force_token() -> Seq<u8> {
    seq![102u8, 111u8, 114u8, 99u8, 101u8]
}

/// Whether the argument string ends in an exact `force` token.
pub open spec fn force_requested(args: Seq<u8>) -> bool {
    let t = trim_trailing_spaces(args);
    t == force_token() || (t.len() > 5 && t.subrange(t.len() - 6, t.len() as int) == seq![32u8]
        + force_token())
}

/// The argument string with a trailing `force` token and the spaces around
/// it removed; meaningful only when `force_requested` holds.
pub open spec fn force_remainder(args: Seq<u8>) -> Seq<u8> {
    let t = trim_trailing_spaces(args);
    trim_trailing_spaces(t.take(t.len() - 5))
}

proof fn lemma_trim_step(s: Seq<u8>)
    requires
        s.len() > 0,
        s.last() == 32,
    ensures
        trim_trailing_spaces(s) == trim_trailing_spaces(s.drop_last()),
{
}

proof fn lemma_trim_fixed(s: Seq<u8>)
    requires
        s.len() == 0 || s.last() != 32,
    ensures
        trim_trailing_spaces(s) == s,
{
}

/// Removes the trailing spaces of a byte string.
fn trim_spaces(v: Vec<u8>) -> (r: Vec<u8>)
    ensures
        r@ == trim_trailing_spaces(v@),
{
    let mut r = v;
    while r.len() > 0 && r[r.len() - 1] == 32
        invariant
            trim_trailing_spaces(r@) == trim_trailing_spaces(v@),
        decreases r@.len(),
    {
        proof {
            lemma_trim_step(r@);
        }
        r.pop();
    }
    proof {
        lemma_trim_fixed(r@);
    }
    r
}

/// Splits a caller-supplied argument string into the arguments proper and
/// the force flag: the flag is set exactly when the string ends in the
/// lone token `force`, and in that case the token and the spaces around it
/// are removed from the returned arguments. Without a force request the
/// string is returned unchanged.
pub fn parse_force_suffix(args: &Vec<u8>) -> (r: (Vec<u8>, bool))
    ensures
        r.1 == force_requested(args@),
        r.1 ==> r.0@ == force_remainder(args@),
        !r.1 ==> r.0@ == args@,
{
    let mut t = trim_spaces(args.clone());
    let l = t.len();
    let has_token = l >= 5 && t[l - 5] == 102 && t[l - 4] == 111 && t[l - 3] == 114 && t[l - 2]
        == 99 && t[l - 1] == 101 && (l == 5 || t[l - 6] == 32);
    proof {
        let tv = trim_trailing_spaces(args@);
        if has_token {
            if l == 5 {
                assert(tv =~= force_token());
            } else {
                assert(tv.subrange(tv.len() - 6, tv.len() as int) =~= seq![32u8]
                    + force_token());
            }
        } else {
            if tv == force_token() {
                assert(tv.len() == 5);
                assert(tv[0] == 102 && tv[1] == 111 && tv[2] == 114 && tv[3] == 99 && tv[4]
                    == 101);
                assert(false);
            }
            if tv.len() > 5 && tv.subrange(tv.len() - 6, tv.len() as int) == seq![32u8]
                + force_token() {
                let sub = tv.subrange(tv.len() - 6, tv.len() as int);
                assert(sub[0] == 32 && sub[1] == 102 && sub[2] == 111 && sub[3] == 114 && sub[4]
                    == 99 && sub[5] == 101);
                assert(false);
            }
        }
    }
    if has_token {
        let mut i: usize = 0;
        while i < 5
            invariant
                i <= 5,
                t@ == trim_trailing_spaces(args@).take(
                    trim_trailing_spaces(args@).len() - i,
                ),
                trim_trailing_spaces(args@).len() >= 5,
            decreases 5 - i,
        {
            proof {
                let tv = trim_trailing_spaces(args@);
                assert(tv.take(tv.len() - i).drop_last() =~= tv.take(tv.len() - (i + 1)));
            }
            t.pop();
            i = i + 1;
        }
        let rest = trim_spaces(t);
        (rest, true)
    } else {
        (args.clone(), false)
    }
}

} // verus!
