//! Splitting a reply into pieces that fit a transport's message size.
//!
//! Lengths are counted in characters (code points), never in bytes, so a
//! piece can never end in the middle of a multi-byte character.

use vstd::prelude::*;

verus! {

/// The pieces of `s`: consecutive runs of `max_len` characters, the last one
/// holding whatever is left (between 1 and `max_len` characters). The empty
/// text has no pieces.
pub open spec fn split_spec(s: Seq<char>, max_len: nat) -> Seq<Seq<char>>
    decreases s.len(),
{
    if s.len() == 0 || max_len == 0 {
        Seq::empty()
    } else if s.len() <= max_len {
        seq![s]
    } else {
        seq![s.take(max_len as int)] + split_spec(s.skip(max_len as int), max_len)
    }
}

/// All pieces put back together, in order.
pub open spec fn concat(parts: Seq<Seq<char>>) -> Seq<char>
    decreases parts.len(),
{
    if parts.len() == 0 {
        Seq::empty()
    } else {
        parts.first() + concat(parts.drop_first())
    }
}

/// The character sequences of a list of string slices.
pub open spec fn chunk_views(parts: Seq<&str>) -> Seq<Seq<char>> {
    Seq::new(parts.len(), |i: int| parts[i]@)
}

/// Putting the pieces of a text back together gives the text.
pub proof fn lemma_split_round_trip(s: Seq<char>, max_len: nat)
    requires
        max_len > 0,
    ensures
        concat(split_spec(s, max_len)) == s,
    decreases s.len(),
{
    if s.len() == 0 {
        assert(s =~= Seq::<char>::empty());
    } else if s.len() <= max_len {
        let parts = seq![s];
        assert(parts.drop_first() =~= Seq::<Seq<char>>::empty());
        assert(concat(parts.drop_first()) =~= Seq::<char>::empty());
        assert(parts.first() + concat(parts.drop_first()) =~= s);
    } else {
        let head = s.take(max_len as int);
        let rest = s.skip(max_len as int);
        lemma_split_round_trip(rest, max_len);
        let parts = seq![head] + split_spec(rest, max_len);
        assert(parts.first() == head);
        assert(parts.drop_first() =~= split_spec(rest, max_len));
        assert(head + rest =~= s);
    }
}

/// Every piece holds at least one character and at most `max_len`, and every
/// piece but the last holds exactly `max_len`.
pub proof fn lemma_split_piece_lengths(s: Seq<char>, max_len: nat)
    requires
        max_len > 0,
    ensures
        forall|i: int|
            0 <= i < split_spec(s, max_len).len() ==> 0 < (#[trigger] split_spec(
                s,
                max_len,
            )[i]).len() <= max_len,
        forall|i: int|
            0 <= i < split_spec(s, max_len).len() - 1 ==> (#[trigger] split_spec(
                s,
                max_len,
            )[i]).len() == max_len,
    decreases s.len(),
{
    if s.len() > max_len {
        let rest = s.skip(max_len as int);
        lemma_split_piece_lengths(rest, max_len);
        let parts = split_spec(s, max_len);
        assert forall|i: int| 0 <= i < parts.len() implies 0 < (#[trigger] parts[i]).len()
            <= max_len by {
            if i > 0 {
                assert(parts[i] == split_spec(rest, max_len)[i - 1]);
            }
        }
        assert forall|i: int| 0 <= i < parts.len() - 1 implies (#[trigger] parts[i]).len()
            == max_len by {
            if i > 0 {
                assert(parts[i] == split_spec(rest, max_len)[i - 1]);
            }
        }
    }
}

/// The number of pieces is the text's length divided by `max_len`, rounded up.
pub proof fn lemma_split_count(s: Seq<char>, max_len: nat)
    requires
        max_len > 0,
    ensures
        split_spec(s, max_len).len() == (s.len() + max_len - 1) / (max_len as int),
    decreases s.len(),
{
    let n = max_len as int;
    let len = s.len() as int;
    if len == 0 {
        assert((n - 1) / n == 0) by (nonlinear_arith)
            requires
                n > 0,
        ;
    } else if len <= n {
        assert((len + n - 1) / n == 1) by (nonlinear_arith)
            requires
                0 < len <= n,
        ;
    } else {
        lemma_split_count(s.skip(n), max_len);
        assert((len + n - 1) / n == (len - n + n - 1) / n + 1) by (nonlinear_arith)
            requires
                n > 0,
        ;
    }
}

/// Splits `string` into pieces of at most `sub_len` characters each, in order.
/// Each piece borrows from `string`, so it is valid text by construction.
pub fn sub_strings<'a>(string: &'a str, sub_len: usize) -> (subs: Vec<&'a str>)
    requires
        sub_len > 0,
    ensures
        chunk_views(subs@) == split_spec(string@, sub_len as nat),
        concat(chunk_views(subs@)) == string@,
        forall|i: int| 0 <= i < subs@.len() ==> 0 < (#[trigger] subs@[i])@.len() <= sub_len,
{
    let total = string.unicode_len();
    let mut subs: Vec<&'a str> = Vec::new();
    let mut pos: usize = 0;
    proof {
        assert(string@.skip(0) =~= string@);
        assert(chunk_views(subs@) =~= Seq::<Seq<char>>::empty());
        assert(chunk_views(subs@) + split_spec(string@, sub_len as nat) =~= split_spec(
            string@,
            sub_len as nat,
        ));
    }
    while pos < total
        invariant
            sub_len > 0,
            pos <= total,
            total == string@.len(),
            split_spec(string@, sub_len as nat) == chunk_views(subs@) + split_spec(
                string@.skip(pos as int),
                sub_len as nat,
            ),
        decreases total - pos,
    {
        let end: usize = if total - pos <= sub_len {
            total
        } else {
            pos + sub_len
        };
        let piece = string.substring_char(pos, end);
        let ghost before = chunk_views(subs@);
        let ghost rest = string@.skip(pos as int);
        subs.push(piece);
        proof {
            let n = sub_len as nat;
            assert(chunk_views(subs@) =~= before + seq![piece@]);
            if end == total {
                assert(piece@ =~= rest);
                assert(string@.skip(end as int).len() == 0);
                assert(split_spec(rest, n) =~= seq![piece@] + split_spec(
                    string@.skip(end as int),
                    n,
                ));
            } else {
                assert(piece@ =~= rest.take(n as int));
                assert(string@.skip(end as int) =~= rest.skip(n as int));
            }
            assert(before + (seq![piece@] + split_spec(string@.skip(end as int), n)) =~= (before
                + seq![piece@]) + split_spec(string@.skip(end as int), n));
        }
        pos = end;
    }
    proof {
        assert(chunk_views(subs@) + Seq::<Seq<char>>::empty() =~= chunk_views(subs@));
        lemma_split_round_trip(string@, sub_len as nat);
        lemma_split_piece_lengths(string@, sub_len as nat);
        assert forall|i: int| 0 <= i < subs@.len() implies 0 < (#[trigger] subs@[i])@.len()
            <= sub_len by {
            assert(subs@[i]@ == chunk_views(subs@)[i]);
        }
    }
    subs
}

/// The first `x` characters of `s`, or all of it where it holds fewer.
pub fn first_x_chars(s: &str, x: usize) -> (head: String)
    ensures
        head@ == s@.take(if x <= s@.len() {
            x as int
        } else {
            s@.len() as int
        }),
{
    let total = s.unicode_len();
    let end: usize = if x <= total {
        x
    } else {
        total
    };
    s.substring_char(0, end).to_owned()
}

} // verus!
