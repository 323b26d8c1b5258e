//! Remote-console client logic: error taxonomy, trimming of raw responses,
//! and interpretation of a status query's reply.
//!
//! The network round trip itself happens outside the crate; callers hand the
//! observed outcome of each call in as a [`ConsoleReply`].

use vstd::prelude::*;

verus! {

/// Failure of one remote-console round trip.
#[derive(Clone, Copy, PartialEq, Eq, Structural, Debug)]
pub enum ConsoleError {
    /// The server rejected the shared secret.
    AuthFailed,
    /// The control port could not be reached.
    Unreachable,
    /// The response did not follow the wire format.
    ProtocolError,
    /// The call did not complete within its deadline.
    Timeout,
}

/// Outcome of one console call as the controller sees it: the raw response
/// bytes already trimmed of the trailing line terminator, or a failure. An
/// empty `Output` is a valid response meaning "no output", distinct from
/// `Failed`.
#[derive(Clone, PartialEq, Eq, Debug)]
pub enum ConsoleReply {
    Output(Vec<u8>),
    Failed(ConsoleError),
}

/// Run state of the managed server derived from one status query.
#[derive(Clone, Copy, PartialEq, Eq, Structural, Debug)]
pub enum ServerStatus {
    /// The query failed, so nothing can be said about the server.
    Unknown,
    /// The query returned no output: the server is not serving.
    Stopped,
    /// The query returned output listing the active entries, one per line.
    Running(usize),
}

/// A response with its single trailing line terminator removed: a final
/// line-feed is dropped, together with the carriage return directly before
/// it if there is one.
pub open spec fn trimmed_response(s: Seq<u8>) -> Seq<u8> {
    if s.len() >= 2 && s[s.len() - 1] == 10 && s[s.len() - 2] == 13 {
        s.take(s.len() - 2)
    } else if s.len() >= 1 && s[s.len() - 1] == 10 {
        s.take(s.len() - 1)
    } else {
        s
    }
}

/// Removes the trailing line terminator of a raw console response.
pub fn trim_line_terminator(s: Vec<u8>) -> (r: Vec<u8>)
    ensures
        r@ == trimmed_response(s@),
{
    let mut r = s;
    if r.len() >= 1 && r[r.len() - 1] == 10 {
        r.pop();
        if r.len() >= 1 && r[r.len() - 1] == 13 {
            r.pop();
        }
    }
    r
}

/// Number of line feeds in a byte sequence.
pub open spec fn newline_count(s: Seq<u8>) -> int
    decreases s.len(),
{
    if s.len() == 0 {
        0
    } else {
        newline_count(s.drop_last()) + if s.last() == 10 { 1int } else { 0int }
    }
}

/// Number of lines of a non-empty response: one more than its line feeds,
/// saturated at the machine's word size.
pub open spec fn line_count(s: Seq<u8>) -> int {
    if newline_count(s) + 1 <= usize::MAX {
        newline_count(s) + 1
    } else {
        usize::MAX as int
    }
}

/// What one status reply says about the server: a failed query yields
/// `Unknown`, an empty response `Stopped`, and any other response `Running`
/// with one active entry counted per line.
pub open spec fn status_of_reply(r: ConsoleReply) -> ServerStatus {
    match r {
        ConsoleReply::Failed(_) => ServerStatus::Unknown,
        ConsoleReply::Output(v) => if v@.len() == 0 {
            ServerStatus::Stopped
        } else {
            ServerStatus::Running(line_count(v@) as usize)
        },
    }
}

/// Derives the server's run state from the reply to a status query.
pub fn interpret_status(r: &ConsoleReply) -> (s: ServerStatus)
    ensures
        s == status_of_reply(*r),
{
    match r {
        ConsoleReply::Failed(_) => ServerStatus::Unknown,
        ConsoleReply::Output(v) => {
            if v.len() == 0 {
                ServerStatus::Stopped
            } else {
                let mut count: usize = 0;
                let mut i: usize = 0;
                while i < v.len()
                    invariant
                        i <= v@.len(),
                        count == newline_count(v@.take(i as int)),
                        count <= i,
                    decreases v@.len() - i,
                {
                    proof {
                        assert(v@.take(i + 1).drop_last() =~= v@.take(i as int));
                        assert(v@.take(i + 1).last() == v@[i as int]);
                    }
                    if v[i] == 10 {
                        count = count + 1;
                    }
                    i = i + 1;
                }
                proof {
                    assert(v@.take(v@.len() as int) =~= v@);
                }
                if count < usize::MAX {
                    ServerStatus::Running(count + 1)
                } else {
                    ServerStatus::Running(usize::MAX)
                }
            }
        },
    }
}

/// Left-to-right scan of a player listing: the finished lines' names, the
/// name collected on the current line, and whether the current line's
/// first comma has passed. A line's name is what stands before its first
/// comma (the whole line when it has none).
pub open spec fn scan_names(s: Seq<u8>) -> (Seq<Seq<u8>>, Seq<u8>, bool)
    decreases s.len(),
{
    if s.len() == 0 {
        (Seq::empty(), Seq::empty(), false)
    } else {
        let (acc, cur, skipping) = scan_names(s.drop_last());
        let b = s.last();
        if b == 10 {
            (acc.push(cur), Seq::empty(), false)
        } else if b == 44 {
            (acc, cur, true)
        } else if skipping {
            (acc, cur, true)
        } else {
            (acc, cur.push(b), skipping)
        }
    }
}

/// The names in a non-empty player listing, one per line; an empty
/// listing holds none.
pub open spec fn player_names_of(s: Seq<u8>) -> Seq<Seq<u8>> {
    if s.len() == 0 {
        Seq::empty()
    } else {
        scan_names(s).0.push(scan_names(s).1)
    }
}

pub proof fn lemma_scan_names_len(s: Seq<u8>)
    ensures
        scan_names(s).0.len() == newline_count(s),
    decreases s.len(),
{
    if s.len() > 0 {
        lemma_scan_names_len(s.drop_last());
    }
}

/// Extracts the player names from a listing response: one name per line,
/// each the part of its line before the first comma. A non-empty listing
/// yields exactly one name per line — the same count `status_of_reply`
/// reports.
pub fn player_names(output: &Vec<u8>) -> (r: Vec<Vec<u8>>)
    ensures
        r@.map_values(|v: Vec<u8>| v@) == player_names_of(output@),
        output@.len() == 0 ==> r@.len() == 0,
        output@.len() > 0 ==> r@.len() == newline_count(output@) + 1,
{
    let mut acc: Vec<Vec<u8>> = Vec::new();
    let mut cur: Vec<u8> = Vec::new();
    let mut skipping = false;
    let mut i: usize = 0;
    proof {
        assert(acc@.map_values(|v: Vec<u8>| v@) =~= Seq::<Seq<u8>>::empty());
        assert(output@.take(0) =~= Seq::<u8>::empty());
    }
    while i < output.len()
        invariant
            i <= output@.len(),
            acc@.map_values(|v: Vec<u8>| v@) == scan_names(output@.take(i as int)).0,
            cur@ == scan_names(output@.take(i as int)).1,
            skipping == scan_names(output@.take(i as int)).2,
        decreases output@.len() - i,
    {
        proof {
            assert(output@.take(i + 1).drop_last() =~= output@.take(i as int));
            assert(output@.take(i + 1).last() == output@[i as int]);
        }
        let b = output[i];
        if b == 10 {
            let ghost old_acc = acc@;
            acc.push(cur);
            cur = Vec::new();
            skipping = false;
            proof {
                assert(acc@.map_values(|v: Vec<u8>| v@) =~= old_acc.map_values(
                    |v: Vec<u8>| v@,
                ).push(acc@.last()@));
            }
        } else if b == 44 {
            skipping = true;
        } else if !skipping {
            cur.push(b);
        }
        i = i + 1;
    }
    proof {
        assert(output@.take(output@.len() as int) =~= output@);
        lemma_scan_names_len(output@);
    }
    if output.len() > 0 {
        let ghost old_acc = acc@;
        acc.push(cur);
        proof {
            assert(acc@.map_values(|v: Vec<u8>| v@) =~= old_acc.map_values(
                |v: Vec<u8>| v@,
            ).push(acc@.last()@));
        }
    }
    acc
}

} // verus!
