//! Building report text: pieces concatenated in order.

use vstd::prelude::*;

verus! {

/// All pieces one after another.
pub open spec fn concat_all(parts: Seq<Seq<char>>) -> Seq<char>
    decreases parts.len(),
{
    if parts.len() == 0 {
        Seq::empty()
    } else {
        concat_all(parts.drop_last()) + parts.last()
    }
}

pub proof fn lemma_concat_push(parts: Seq<Seq<char>>, p: Seq<char>)
    ensures
        concat_all(parts.push(p)) == concat_all(parts) + p,
{
    assert(parts.push(p).drop_last() =~= parts);
}

/// `n` as text.
pub open spec fn count_text(n: nat) -> Seq<char> {
    crate::text::decimal(n)
}

/// The size notation of an optional size; nothing when absent.
pub open spec fn opt_size_text(o: Option<u64>) -> Seq<char> {
    match o {
        Some(s) => crate::fs::size_text(s as nat),
        None => Seq::empty(),
    }
}

/// Appends `opt_size_text(o)`.
pub fn push_opt_size(out: &mut String, o: Option<u64>)
    ensures
        final(out)@ == old(out)@ + opt_size_text(o),
{
    match o {
        Some(s) => {
            let t = crate::fs::FileEntry::format_size(s);
            out.append(t.as_str());
        },
        None => {
            assert(old(out)@ + Seq::<char>::empty() =~= old(out)@);
        },
    }
}

/// Appends the decimal notation of a count.
pub fn push_count(out: &mut String, n: usize)
    ensures
        final(out)@ == old(out)@ + count_text(n as nat),
{
    crate::text::push_decimal(out, n as u64);
}

} // verus!
