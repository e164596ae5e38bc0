//! Byte-level interleaving of equally long mono channels.
use vstd::prelude::*;
use vstd::arithmetic::div_mod::lemma_fundamental_div_mod_converse;

verus! {

/// The channels' bytes as sequences.
pub open spec fn channels_view(chs: Seq<Vec<u8>>) -> Seq<Seq<u8>> {
    chs.map_values(|c: Vec<u8>| c@)
}

/// Every channel is as long as the first.
pub open spec fn same_lengths(chs: Seq<Seq<u8>>) -> bool {
    forall|j: int| 0 <= j < chs.len() ==> #[trigger] chs[j].len() == chs[0].len()
}

/// Channel `k % n` gives the byte at `k`, taken from its position `k / n`.
pub open spec fn interleaved(chs: Seq<Seq<u8>>) -> Seq<u8> {
    if chs.len() == 0 {
        Seq::empty()
    } else {
        Seq::new(chs.len() * chs[0].len(), |k: int| chs[k % chs.len() as int][k / chs.len() as int])
    }
}

/// Interleaving `N` channels of `L` bytes gives `N * L` bytes, and the byte at
/// `i * N + j` is byte `i` of channel `j`.
pub proof fn lemma_interleave_position(chs: Seq<Seq<u8>>, i: int, j: int)
    requires
        chs.len() >= 1,
        same_lengths(chs),
        0 <= i < chs[0].len(),
        0 <= j < chs.len(),
    ensures
        interleaved(chs).len() == chs.len() * chs[0].len(),
        interleaved(chs)[i * chs.len() + j] == chs[j][i],
{
    let n = chs.len() as int;
    let l = chs[0].len() as int;
    assert(i * n + j < n * l) by (nonlinear_arith)
        requires
            0 <= i < l,
            0 <= j < n,
    ;
    lemma_fundamental_div_mod_converse(i * n + j, n, i, j);
}

pub fn interleave_channels(channels: &Vec<Vec<u8>>) -> (r: Vec<u8>)
    requires
        same_lengths(channels_view(channels@)),
    ensures
        r@ == interleaved(channels_view(channels@)),
{
    let ghost chs = channels_view(channels@);
    let n = channels.len();
    if n == 0 {
        return Vec::new();
    }
    let l = channels[0].len();
    let mut result: Vec<u8> = Vec::new();
    let mut i: usize = 0;
    while i < l
        invariant
            n == chs.len(),
            n > 0,
            l == chs[0].len(),
            chs == channels_view(channels@),
            same_lengths(chs),
            i <= l,
            result@.len() == i * n,
            forall|k: int| 0 <= k < result@.len() ==> result@[k] == chs[k % n as int][k / n as int],
        decreases l - i,
    {
        let mut j: usize = 0;
        while j < n
            invariant
                n == chs.len(),
                n > 0,
                l == chs[0].len(),
                chs == channels_view(channels@),
                same_lengths(chs),
                i < l,
                j <= n,
                result@.len() == i * n + j,
                forall|k: int|
                    0 <= k < result@.len() ==> result@[k] == chs[k % n as int][k / n as int],
            decreases n - j,
        {
            proof {
                lemma_fundamental_div_mod_converse(i * n + j, n as int, i as int, j as int);
                assert(chs[j as int].len() == l);
            }
            result.push(channels[j][i]);
            j += 1;
        }
        assert((i + 1) * n == i * n + n) by (nonlinear_arith);
        i += 1;
    }
    assert(result@.len() == chs.len() * chs[0].len()) by (nonlinear_arith)
        requires
            result@.len() == i * n,
            i == l,
            n == chs.len(),
            l == chs[0].len(),
    ;
    assert(result@ =~= interleaved(chs));
    result
}

} // verus!
