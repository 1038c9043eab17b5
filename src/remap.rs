use vstd::prelude::*;

verus! {

/// The bit pattern of a silent sample (`0.0f32`).
pub const SILENCE: u32 = 0;

/// Number of groups of `cin` samples in a buffer of `len` samples, counting a
/// final partial group.
pub open spec fn group_count(len: nat, cin: nat) -> nat
    recommends
        cin > 0,
{
    ((len + cin - 1) / cin as int) as nat
}

/// The sample at position `k` of the remapped buffer, with groups of `cout`:
/// channel `j` of group `g` is channel `j` of the input's group `g` when the
/// input has it, and silence otherwise.
pub open spec fn remap_at(s: Seq<u32>, cin: nat, cout: nat, k: int) -> u32
    recommends
        cin > 0,
        cout > 0,
{
    let g = k / (cout as int);
    let j = k % (cout as int);
    if j < cin && g * cin + j < s.len() {
        s[g * cin + j]
    } else {
        SILENCE
    }
}

/// `s`, grouped by `cin` channels, converted to groups of `cout` channels:
/// unchanged when the counts are equal, else truncated or padded with silence
/// group by group.
pub open spec fn remapped(s: Seq<u32>, cin: nat, cout: nat) -> Seq<u32>
    recommends
        cin > 0,
        cout > 0,
{
    if cin == cout {
        s
    } else {
        Seq::new(group_count(s.len(), cin) * cout, |k: int| remap_at(s, cin, cout, k))
    }
}

pub(crate) proof fn lemma_group_index(g: int, j: int, c: int)
    requires
        c > 0,
        0 <= g,
        0 <= j < c,
    ensures
        (g * c + j) / c == g,
        (g * c + j) % c == j,
{
    vstd::arithmetic::div_mod::lemma_fundamental_div_mod_converse(g * c + j, c, g, j);
}

pub(crate) proof fn lemma_group_count(len: int, c: int, g: int)
    requires
        c > 0,
        len >= 0,
        0 <= g,
    ensures
        g < group_count(len as nat, c as nat) <==> g * c < len,
{
    let q = (len + c - 1) / c;
    vstd::arithmetic::div_mod::lemma_fundamental_div_mod(len + c - 1, c);
    let r = (len + c - 1) % c;
    assert(len + c - 1 == c * q + r);
    if g < q {
        assert(g + 1 <= q);
        assert(c * (g + 1) <= c * q) by (nonlinear_arith)
            requires g + 1 <= q, c > 0;
        assert(g * c + c == c * (g + 1)) by (nonlinear_arith);
    } else {
        assert(q <= g);
        assert(c * q <= c * g) by (nonlinear_arith)
            requires q <= g, c > 0;
        assert(g * c == c * g) by (nonlinear_arith);
    }
}

/// A copy of `input`.
pub(crate) fn copy_samples(input: &[u32]) -> (r: Vec<u32>)
    ensures
        r@ == input@,
{
    let mut out: Vec<u32> = Vec::with_capacity(input.len());
    let mut i: usize = 0;
    while i < input.len()
        invariant
            i <= input.len(),
            out@ == input@.take(i as int),
        decreases input.len() - i,
    {
        out.push(input[i]);
        i = i + 1;
        proof {
            assert(out@ =~= input@.take(i as int));
        }
    }
    proof {
        assert(out@ =~= input@);
    }
    out
}

/// Converts `input`, interleaved in groups of `cin` channels, to groups of
/// `cout` channels. A final partial group is completed with silence.
pub fn remap(input: &[u32], cin: u16, cout: u16) -> (r: Vec<u32>)
    requires
        cin >= 1,
        cout >= 1,
    ensures
        r@ == remapped(input@, cin as nat, cout as nat),
        cin == cout ==> r@ == input@,
{
    if cin == cout {
        return copy_samples(input);
    }
    let ghost s = input@;
    let ci: usize = cin as usize;
    let co: usize = cout as usize;
    let mut out: Vec<u32> = Vec::new();
    let mut start: usize = 0;
    let ghost mut g: int = 0;
    while start < input.len()
        invariant
            ci == cin as usize,
            co == cout as usize,
            ci >= 1,
            co >= 1,
            s == input@,
            0 <= g,
            start <= input.len(),
            start as int == g * ci || (start == input.len() && g * ci >= input.len()),
            g <= group_count(s.len(), ci as nat),
            out@.len() == g * co,
            forall|k: int| 0 <= k < out@.len() ==> out@[k] == remap_at(s, ci as nat, co as nat, k),
        decreases input.len() - start,
    {
        proof {
            lemma_group_count(s.len() as int, ci as int, g);
        }
        let mut j: usize = 0;
        while j < co
            invariant
                ci == cin as usize,
                co == cout as usize,
                ci >= 1,
                co >= 1,
                s == input@,
                0 <= g,
                start as int == g * ci,
                start < input.len(),
                j <= co,
                out@.len() == g * co + j,
                forall|k: int| 0 <= k < out@.len() ==> out@[k] == remap_at(s, ci as nat, co as nat, k),
            decreases co - j,
        {
            let v: u32 = if j < ci && j < input.len() - start {
                input[start + j]
            } else {
                SILENCE
            };
            proof {
                lemma_group_index(g, j as int, co as int);
            }
            out.push(v);
            j = j + 1;
        }
        proof {
            assert(out@.len() == (g + 1) * co) by (nonlinear_arith)
                requires out@.len() == g * co + co;
        }
        if ci < input.len() - start {
            start = start + ci;
        } else {
            start = input.len();
        }
        proof {
            lemma_group_count(s.len() as int, ci as int, g + 1);
            assert((g + 1) * ci == g * ci + ci) by (nonlinear_arith);
            g = g + 1;
        }
    }
    proof {
        lemma_group_count(s.len() as int, ci as int, g);
        assert(g == group_count(s.len(), ci as nat));
        assert(out@ =~= remapped(s, cin as nat, cout as nat));
    }
    out
}

} // verus!
