use vstd::prelude::*;

use crate::buffer::{fill_len, SmallBytes};
use crate::store::{lemma_reserved_capacity, repeat, reserved_capacity, MAX_LEN};

verus! {

/// A write as it acts on the content: the content clause of the method it
/// stands for, with no mention of capacity.
pub enum Write {
    /// `extend_from_slice`, `put_slice`, `put`, `put_u8`, `put_u16`, or
    /// `advance_mut` after writing these bytes into `chunk_mut`.
    Append(Seq<u8>),
    /// `put_bytes(val, cnt)`.
    Fill(u8, nat),
    /// `resize(new_len, value)`.
    Resize(nat, u8),
}

/// The content after one write.
pub open spec fn written(c: Seq<u8>, w: Write) -> Seq<u8> {
    match w {
        Write::Append(s) => c + s,
        Write::Fill(v, k) => c + repeat(v, (fill_len(c.len(), k) - c.len()) as nat),
        Write::Resize(n, v) => if n <= c.len() {
            c.subrange(0, n as int)
        } else {
            c + repeat(v, (n - c.len()) as nat)
        },
    }
}

/// The content after a run of writes, in order.
pub open spec fn written_all(c: Seq<u8>, ws: Seq<Write>) -> Seq<u8>
    decreases ws.len(),
{
    if ws.len() == 0 {
        c
    } else {
        written_all(written(c, ws[0]), ws.drop_first())
    }
}

/// Spilling never shows in the content: two buffers that hold the same
/// bytes, whatever their inline capacities and whether either has spilled,
/// hold the same bytes after any run of writes.
pub proof fn lemma_spill_invisible<const N: usize, const M: usize>(
    a: SmallBytes<N>,
    b: SmallBytes<M>,
    ws: Seq<Write>,
)
    requires
        a.wf(),
        b.wf(),
        a@ == b@,
    ensures
        written_all(a@, ws) == written_all(b@, ws),
{
}

/// Making room never shrinks the capacity and always leaves room for the
/// bytes asked for, so the length stays within the capacity, the capacity
/// never drops below the inline `n`, and a buffer that has spilled past `n`
/// stays spilled.
pub proof fn lemma_reserve_never_shrinks(n: nat, cap: nat, len: nat, additional: nat)
    requires
        len <= cap,
        n <= cap,
    ensures
        reserved_capacity(cap, len, additional) >= cap,
        reserved_capacity(cap, len, additional) >= len + additional,
        reserved_capacity(cap, len, additional) >= n,
        cap > n ==> reserved_capacity(cap, len, additional) > n,
{
    lemma_reserved_capacity(cap, len, additional);
}

/// Writing `k` bytes lowers what is left to write by exactly `k`.
pub proof fn lemma_remaining_after_write<const N: usize>(
    before: SmallBytes<N>,
    after: SmallBytes<N>,
    written: Seq<u8>,
)
    requires
        before.wf(),
        after@ == before@ + written,
    ensures
        after.spec_remaining() == before.spec_remaining() - written.len(),
{
}

/// After truncating to `k` bytes and appending `s`, the content is the first
/// `k` old bytes followed by `s` alone: nothing truncated reappears.
pub proof fn lemma_truncate_then_append<const N: usize>(
    start: SmallBytes<N>,
    truncated: SmallBytes<N>,
    extended: SmallBytes<N>,
    k: nat,
    s: Seq<u8>,
)
    requires
        start.wf(),
        k <= start@.len(),
        truncated@ == start@.subrange(0, k as int),
        extended@ == truncated@ + s,
    ensures
        extended@ == start@.subrange(0, k as int) + s,
        extended@.len() == k + s.len(),
        extended@.subrange(k as int, extended@.len() as int) == s,
{
    assert(extended@.subrange(k as int, extended@.len() as int) =~= s);
}

/// A fill request clamps at `MAX_LEN`: the length it reaches never falls
/// below the current one, and an overflowing request yields exactly
/// `MAX_LEN`.
pub proof fn lemma_fill_len_clamps(len: nat, cnt: nat)
    requires
        len <= MAX_LEN,
    ensures
        len <= fill_len(len, cnt) <= MAX_LEN,
        len + cnt > MAX_LEN ==> fill_len(len, cnt) == MAX_LEN,
        len + cnt <= MAX_LEN ==> fill_len(len, cnt) == len + cnt,
{
}

} // verus!
