//! The output of a command while it runs: how much of it is kept, and its last lines.
use crate::editor;
use crate::scan;
use crate::text;
use vstd::prelude::*;

verus! {

/// How many rows of running output a card shows.
pub const LIVE_ROWS: usize = 10;

/// How many bytes of running output are kept at most.
pub const LIVE_CAP: usize = 131072;

/// How many bytes are kept at most once there were more than [`LIVE_CAP`].
pub const LIVE_KEEP: usize = 65536;

/// What is kept of running output: where it is too long, its end.
pub open spec fn capped(s: Seq<char>) -> Seq<char> {
    let n = editor::byte_len(s);
    if n > LIVE_CAP {
        s.skip(editor::begun(s, (n - LIVE_KEEP) as nat))
    } else {
        s
    }
}

/// Drops the beginning of running output that is too long.
pub fn cap_live_tail(s: &mut String)
    ensures
        final(s)@ == capped(old(s)@),
{
    let n: usize = editor::length(s.as_str());
    if n > LIVE_CAP {
        let (k, _at) = editor::locate(s.as_str(), n - LIVE_KEEP);
        let v = text::chars_of(s.as_str());
        let t = text::string_of(&v, k, v.len());
        proof {
            assert(v@.subrange(k as int, v@.len() as int) =~= v@.skip(k as int));
        }
        *s = t;
    }
}

/// The lines of a text; a line feed at its end begins no line.
pub open spec fn full_lines(s: Seq<char>) -> Seq<Seq<char>> {
    let f = scan::fields(s, '\n');
    if f.last().len() == 0 {
        f.drop_last()
    } else {
        f
    }
}

/// The last lines of a list, not more than `n`.
pub open spec fn last_of(v: Seq<Seq<char>>, n: nat) -> Seq<Seq<char>> {
    if v.len() > n {
        v.skip(v.len() - n)
    } else {
        v
    }
}

/// The last `n` lines of a text, or all where there are fewer.
pub open spec fn tail_lines(s: Seq<char>, n: nat) -> Seq<char> {
    scan::join_lines(last_of(full_lines(s), n))
}

/// The last `n` lines of a text, or all where there are fewer.
pub fn last_n_lines(s: &str, n: usize) -> (r: String)
    ensures
        r@ == tail_lines(s@, n as nat),
{
    let mut ls = scan::split(s, '\n');
    proof {
        scan::lemma_fields_nonempty(s@, '\n');
        assert(scan::texts(ls@).len() == ls@.len());
        assert(scan::texts(ls@).last() == ls@.last()@);
    }
    let m: usize = ls.len();
    if ls[m - 1].as_str().is_empty() {
        let ghost before = scan::texts(ls@);
        ls.pop();
        proof {
            assert(scan::texts(ls@) =~= before.drop_last());
        }
    }
    let ghost all = scan::texts(ls@);
    let total: usize = ls.len();
    proof {
        assert(all == full_lines(s@));
        assert(all.len() == total);
    }
    if total <= n {
        return scan::join(&ls);
    }
    let mut tail: Vec<String> = Vec::new();
    let from: usize = total - n;
    let mut i: usize = from;
    proof {
        assert(scan::texts(tail@) =~= all.subrange(from as int, from as int));
    }
    while i < total
        invariant
            all == scan::texts(ls@),
            total == ls@.len(),
            from <= i <= total,
            scan::texts(tail@) == all.subrange(from as int, i as int),
        decreases total - i,
    {
        scan::push_text(&mut tail, ls[i].clone());
        proof {
            assert(all.subrange(from as int, i + 1) =~= all.subrange(from as int, i as int).push(
                all[i as int],
            ));
        }
        i += 1;
    }
    proof {
        assert(all.subrange(from as int, total as int) =~= all.skip(from as int));
    }
    scan::join(&tail)
}

// ------------------------------------------------------------------------ laws

/// What is kept of running output is its end, and never more than [`LIVE_CAP`]
/// bytes; what was too long is cut down to [`LIVE_KEEP`].
pub proof fn law_live_output_is_bounded(s: Seq<char>)
    ensures
        editor::byte_len(capped(s)) <= LIVE_CAP,
        editor::byte_len(s) > LIVE_CAP ==> editor::byte_len(capped(s)) <= LIVE_KEEP,
        capped(s).is_suffix_of(s),
{
    let n = editor::byte_len(s);
    if n > LIVE_CAP {
        let b = (n - LIVE_KEEP) as nat;
        let k = editor::begun(s, b);
        editor::lemma_begun_bound(s, b);
        assert(s =~= s.take(k) + s.skip(k));
        editor::lemma_byte_len_add(s.take(k), s.skip(k));
        if k == s.len() {
            assert(s.skip(k) =~= Seq::<char>::empty());
        }
        assert(s.skip(k).is_suffix_of(s)) by {
            assert(s.subrange(s.len() - s.skip(k).len(), s.len() as int) =~= s.skip(k));
        }
    } else {
        assert(s.is_suffix_of(s)) by {
            assert(s.subrange(0, s.len() as int) =~= s);
        }
    }
}

} // verus!
