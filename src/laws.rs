use vstd::prelude::*;
use vstd::arithmetic::div_mod::{lemma_add_mod_noop, lemma_div_multiples_vanish, lemma_mod_twice, lemma_small_mod};
use crate::graph::{
    add_all, input_advanced, input_wf, node_wf, SCRATCH_LEN, mix_inputs, node_advanced, node_out, scale_all, AudioGraph, AudioNode,
    Gain, Input, Output,
};
use crate::osc::{lemma_triangle_bounds, Osc, OSC_LEVEL};
use crate::sample::{clip, GAIN_UNIT};

verus! {

/// The phase of a tone repeats after `k` samples whenever `k` steps of its
/// frequency make whole cycles; in particular, a tone of `f` Hz at a sample
/// rate of `k * f` repeats every `k` samples.  Its samples repeat with it,
/// and after `k` samples the tone is back where it started.
pub proof fn osc_phase_is_periodic(o: Osc, k: nat, i: nat)
    requires
        o.wf(),
        (k * o.freq) % (o.period as int) == 0,
    ensures
        o.phase_at(i + k as int) == o.phase_at(i as int),
        o.samples(i + k + 1)[i + k as int] == o.samples(i + 1)[i as int],
        o.advanced(k) == o,
{
    let p = o.period as int;
    let f = o.freq as int;
    let s = o.phase as int;
    let ii = i as int;
    let kk = k as int;
    assert(s + (ii + kk) * f == (s + ii * f) + kk * f) by (nonlinear_arith);
    lemma_add_mod_noop(s + ii * f, kk * f, p);
    lemma_mod_twice(s + ii * f, p);
    lemma_add_mod_noop(s, kk * f, p);
    lemma_mod_twice(s, p);
    lemma_small_mod(o.phase as nat, o.period as nat);
}

/// Every sample of a tone lies within `[-OSC_LEVEL, OSC_LEVEL]`.
pub proof fn osc_samples_are_bounded(o: Osc, n: nat)
    requires
        o.wf(),
    ensures
        forall|j: int|
            0 <= j < n ==> -OSC_LEVEL <= #[trigger] o.samples(n)[j] <= OSC_LEVEL,
{
    assert forall|j: int| 0 <= j < n implies -OSC_LEVEL <= #[trigger] o.samples(n)[j]
        <= OSC_LEVEL by {
        lemma_triangle_bounds(o.phase_at(j), 0, o.period as int);
    }
}

/// A node writes exactly as many samples as the buffer holds.
pub proof fn node_out_keeps_length(node: AudioNode, buf: Seq<i32>)
    ensures
        node_out(node, buf).len() == buf.len(),
    decreases node, 0nat,
{
    match node {
        AudioNode::Osc(_) => {},
        AudioNode::Gain(g) => {
            mix_inputs_keeps_length(g.inputs@, g.inputs@.len(), buf);
        },
        AudioNode::Output(s) => {
            mix_inputs_keeps_length(s.inputs@, s.inputs@.len(), buf);
        },
    }
}

/// Mixing inputs into a buffer keeps its length.
pub proof fn mix_inputs_keeps_length(inputs: Seq<Input>, k: nat, buf: Seq<i32>)
    ensures
        mix_inputs(inputs, k, buf).len() == buf.len(),
    decreases inputs, k,
{
    if k == 0 || k > inputs.len() {
    } else if k == 1 {
        node_out_keeps_length(*inputs[0].node, buf);
    } else {
        mix_inputs_keeps_length(inputs, (k - 1) as nat, buf);
    }
}

/// A gain of zero with at least one input silences whatever its inputs
/// produce.
pub proof fn gain_of_zero_silences(g: Gain, buf: Seq<i32>)
    requires
        g.amount == 0,
        g.inputs@.len() >= 1,
    ensures
        node_out(AudioNode::Gain(g), buf) == Seq::new(buf.len(), |j: int| 0i32),
{
    assert(AudioNode::Gain(g)->Gain_0 == g);
    mix_inputs_keeps_length(g.inputs@, g.inputs@.len(), buf);
    assert(node_out(AudioNode::Gain(g), buf) =~= Seq::new(buf.len(), |j: int| 0i32));
}

/// A gain of one reproduces the mix of its inputs exactly.
pub proof fn gain_of_one_passes_the_mix(g: Gain, buf: Seq<i32>)
    requires
        g.amount == GAIN_UNIT,
    ensures
        node_out(AudioNode::Gain(g), buf) == mix_inputs(g.inputs@, g.inputs@.len(), buf),
{
    assert(AudioNode::Gain(g)->Gain_0 == g);
    let m = mix_inputs(g.inputs@, g.inputs@.len(), buf);
    mix_inputs_keeps_length(g.inputs@, g.inputs@.len(), buf);
    assert forall|j: int| 0 <= j < m.len() implies #[trigger] scale_all(m, g.amount)[j] == m[j] by {
        let x = m[j] as int;
        lemma_div_multiples_vanish(x, 1000);
        lemma_div_multiples_vanish(-x, 1000);
        assert(x * 1000 == 1000 * x);
        assert(-(x * 1000) == 1000 * (-x));
    }
    assert(node_out(AudioNode::Gain(g), buf) =~= m);
}

/// A sink with a single input hands that input's samples through
/// unchanged.
pub proof fn single_input_passes_through(s: Output, buf: Seq<i32>)
    requires
        s.inputs@.len() == 1,
    ensures
        node_out(AudioNode::Output(s), buf) == node_out(*s.inputs@[0].node, buf),
{
    assert(AudioNode::Output(s)->Output_0 == s);
}

/// A gain of one with a single input hands that input's samples through
/// unchanged.
pub proof fn single_input_passes_through_unit_gain(g: Gain, buf: Seq<i32>)
    requires
        g.amount == GAIN_UNIT,
        g.inputs@.len() == 1,
    ensures
        node_out(AudioNode::Gain(g), buf) == node_out(*g.inputs@[0].node, buf),
{
    gain_of_one_passes_the_mix(g, buf);
}

/// `a` and `b` hold the same state: the same shape, the same tones and
/// amounts, and scratch buffers that hold the same samples.
pub open spec fn same_node(a: AudioNode, b: AudioNode) -> bool
    decreases a,
{
    match a {
        AudioNode::Osc(x) => b == AudioNode::Osc(x),
        AudioNode::Gain(g) => match b {
            AudioNode::Gain(h) => h.amount == g.amount && h.inputs@.len() == g.inputs@.len()
                && forall|i: int|
                0 <= i < g.inputs@.len() ==> same_input(#[trigger] g.inputs@[i], h.inputs@[i]),
            _ => false,
        },
        AudioNode::Output(s) => match b {
            AudioNode::Output(t) => t.inputs@.len() == s.inputs@.len() && forall|i: int|
                0 <= i < s.inputs@.len() ==> same_input(#[trigger] s.inputs@[i], t.inputs@[i]),
            _ => false,
        },
    }
}

/// `x` and `y` hold the same node state and the same scratch samples.
pub open spec fn same_input(x: Input, y: Input) -> bool
    decreases x,
{
    x.buffer@ == y.buffer@ && same_node(*x.node, *y.node)
}

/// Every node holds the same state as itself.
pub proof fn same_node_is_reflexive(a: AudioNode)
    ensures
        same_node(a, a),
    decreases a,
{
    match a {
        AudioNode::Osc(_) => {},
        AudioNode::Gain(g) => {
            assert(a->Gain_0 == g);
            assert forall|i: int| 0 <= i < g.inputs@.len() implies same_input(
                #[trigger] g.inputs@[i],
                g.inputs@[i],
            ) by {
                assert(decreases_to!(g.inputs => g.inputs@));
                vstd::seq::axiom_seq_index_decreases(g.inputs@, i);
                same_node_is_reflexive(*g.inputs@[i].node);
            }
        },
        AudioNode::Output(s) => {
            assert(a->Output_0 == s);
            assert forall|i: int| 0 <= i < s.inputs@.len() implies same_input(
                #[trigger] s.inputs@[i],
                s.inputs@[i],
            ) by {
                assert(decreases_to!(s.inputs => s.inputs@));
                vstd::seq::axiom_seq_index_decreases(s.inputs@, i);
                same_node_is_reflexive(*s.inputs@[i].node);
            }
        },
    }
}

/// Nodes in the same state write the same samples.
pub proof fn same_node_same_out(a: AudioNode, b: AudioNode, buf: Seq<i32>)
    requires
        same_node(a, b),
    ensures
        node_out(a, buf) == node_out(b, buf),
    decreases a, 0nat,
{
    match a {
        AudioNode::Osc(_) => {},
        AudioNode::Gain(g) => {
            assert(a->Gain_0 == g);
            let h = b->Gain_0;
            assert(b->Gain_0 == h);
            same_inputs_same_mix(g.inputs@, h.inputs@, g.inputs@.len(), buf);
        },
        AudioNode::Output(s) => {
            assert(a->Output_0 == s);
            let t = b->Output_0;
            assert(b->Output_0 == t);
            same_inputs_same_mix(s.inputs@, t.inputs@, s.inputs@.len(), buf);
        },
    }
}

/// Inputs in the same state mix to the same samples.
pub proof fn same_inputs_same_mix(xs: Seq<Input>, ys: Seq<Input>, k: nat, buf: Seq<i32>)
    requires
        xs.len() == ys.len(),
        forall|i: int| 0 <= i < xs.len() ==> same_input(#[trigger] xs[i], ys[i]),
    ensures
        mix_inputs(xs, k, buf) == mix_inputs(ys, k, buf),
    decreases xs, k,
{
    if k == 0 || k > xs.len() {
    } else if k == 1 {
        assert(same_input(xs[0], ys[0]));
        same_node_same_out(*xs[0].node, *ys[0].node, buf);
    } else {
        let j = k - 1;
        assert(same_input(xs[j], ys[j]));
        same_inputs_same_mix(xs, ys, (k - 1) as nat, buf);
        same_node_same_out(
            *xs[j].node,
            *ys[j].node,
            xs[j].buffer@.subrange(0, buf.len() as int),
        );
    }
}

/// Nodes in the same state are again in the same state once each has
/// processed a buffer of the same length.
pub proof fn same_node_same_advance(a: AudioNode, b: AudioNode, a2: AudioNode, b2: AudioNode, n: nat)
    requires
        same_node(a, b),
        node_advanced(a, a2, n),
        node_advanced(b, b2, n),
    ensures
        same_node(a2, b2),
    decreases a,
{
    match a {
        AudioNode::Osc(_) => {},
        AudioNode::Gain(g) => {
            assert(a->Gain_0 == g);
            let (h, g2, h2) = (b->Gain_0, a2->Gain_0, b2->Gain_0);
            assert(b->Gain_0 == h && a2->Gain_0 == g2 && b2->Gain_0 == h2);
            assert forall|i: int| 0 <= i < g2.inputs@.len() implies same_input(
                #[trigger] g2.inputs@[i],
                h2.inputs@[i],
            ) by {
                let (x, y) = (g.inputs@[i], h.inputs@[i]);
                assert(same_input(x, y));
                assert(input_advanced(x, g2.inputs@[i], i, n));
                assert(input_advanced(y, h2.inputs@[i], i, n));
                assert(decreases_to!(g.inputs => g.inputs@));
                vstd::seq::axiom_seq_index_decreases(g.inputs@, i);
                same_node_same_advance(*x.node, *y.node, *g2.inputs@[i].node, *h2.inputs@[i].node, n);
                same_node_same_out(*x.node, *y.node, x.buffer@.subrange(0, n as int));
            }
        },
        AudioNode::Output(s) => {
            assert(a->Output_0 == s);
            let (t, s2, t2) = (b->Output_0, a2->Output_0, b2->Output_0);
            assert(b->Output_0 == t && a2->Output_0 == s2 && b2->Output_0 == t2);
            assert forall|i: int| 0 <= i < s2.inputs@.len() implies same_input(
                #[trigger] s2.inputs@[i],
                t2.inputs@[i],
            ) by {
                let (x, y) = (s.inputs@[i], t.inputs@[i]);
                assert(same_input(x, y));
                assert(input_advanced(x, s2.inputs@[i], i, n));
                assert(input_advanced(y, t2.inputs@[i], i, n));
                assert(decreases_to!(s.inputs => s.inputs@));
                vstd::seq::axiom_seq_index_decreases(s.inputs@, i);
                same_node_same_advance(*x.node, *y.node, *s2.inputs@[i].node, *t2.inputs@[i].node, n);
                same_node_same_out(*x.node, *y.node, x.buffer@.subrange(0, n as int));
            }
        },
    }
}

/// Processing is deterministic: two graphs in the same state fill a buffer
/// with the same samples, and are again in the same state afterwards; so
/// from equal starts, equal sequences of buffer lengths give equal outputs
/// call after call.
pub proof fn process_is_deterministic(a: AudioGraph, b: AudioGraph, a2: AudioGraph, b2: AudioGraph, buf: Seq<i32>)
    requires
        same_node(AudioNode::Output(a.output), AudioNode::Output(b.output)),
        a.advanced_to(a2, buf.len()),
        b.advanced_to(b2, buf.len()),
    ensures
        a.out(buf) == b.out(buf),
        same_node(AudioNode::Output(a2.output), AudioNode::Output(b2.output)),
{
    same_node_same_out(AudioNode::Output(a.output), AudioNode::Output(b.output), buf);
    same_node_same_advance(
        AudioNode::Output(a.output),
        AudioNode::Output(b.output),
        AudioNode::Output(a2.output),
        AudioNode::Output(b2.output),
        buf.len(),
    );
}

/// Equal graphs are in the same state.
pub proof fn equal_graphs_are_in_the_same_state(a: AudioGraph)
    ensures
        same_node(AudioNode::Output(a.output), AudioNode::Output(a.output)),
{
    same_node_is_reflexive(AudioNode::Output(a.output));
}

/// Every gain and sink of the tree has at least one input.
pub open spec fn all_fed(node: AudioNode) -> bool
    decreases node,
{
    match node {
        AudioNode::Osc(_) => true,
        AudioNode::Gain(g) => g.inputs@.len() >= 1 && forall|i: int|
            0 <= i < g.inputs@.len() ==> all_fed(*(#[trigger] g.inputs@[i]).node),
        AudioNode::Output(s) => s.inputs@.len() >= 1 && forall|i: int|
            0 <= i < s.inputs@.len() ==> all_fed(*(#[trigger] s.inputs@[i]).node),
    }
}

/// A tree whose gains and sinks all have an input overwrites the buffer it
/// is given: what it writes depends on the buffer's length alone, not on
/// the samples it held.
pub proof fn fed_node_overwrites(node: AudioNode, b1: Seq<i32>, b2: Seq<i32>)
    requires
        all_fed(node),
        b1.len() == b2.len(),
    ensures
        node_out(node, b1) == node_out(node, b2),
    decreases node, 0nat,
{
    match node {
        AudioNode::Osc(_) => {},
        AudioNode::Gain(g) => {
            assert(node->Gain_0 == g);
            assert(decreases_to!(g.inputs => g.inputs@));
            assert(all_fed(*g.inputs@[0].node));
            fed_mix_overwrites(g.inputs@, g.inputs@.len(), b1, b2);
        },
        AudioNode::Output(s) => {
            assert(node->Output_0 == s);
            assert(decreases_to!(s.inputs => s.inputs@));
            assert(all_fed(*s.inputs@[0].node));
            fed_mix_overwrites(s.inputs@, s.inputs@.len(), b1, b2);
        },
    }
}

/// Mixing at least one input, the first of which overwrites its buffer,
/// depends on the buffer's length alone.
pub proof fn fed_mix_overwrites(inputs: Seq<Input>, k: nat, b1: Seq<i32>, b2: Seq<i32>)
    requires
        1 <= k <= inputs.len(),
        all_fed(*inputs[0].node),
        b1.len() == b2.len(),
    ensures
        mix_inputs(inputs, k, b1) == mix_inputs(inputs, k, b2),
    decreases inputs, k,
{
    if k == 1 {
        vstd::seq::axiom_seq_index_decreases(inputs, 0);
        fed_node_overwrites(*inputs[0].node, b1, b2);
    } else {
        fed_mix_overwrites(inputs, (k - 1) as nat, b1, b2);
    }
}

/// The sum of two inputs in the same state, each a tree whose gains and
/// sinks all have an input: twice one input's samples, limited to the
/// sample range, not their average.
pub open spec fn doubled(inputs: Seq<Input>, buf: Seq<i32>) -> Seq<i32> {
    Seq::new(buf.len(), |j: int| clip(2 * node_out(*inputs[0].node, buf)[j]) as i32)
}

proof fn lemma_two_identical_inputs(inputs: Seq<Input>, buf: Seq<i32>)
    requires
        inputs.len() == 2,
        same_node(*inputs[0].node, *inputs[1].node),
        all_fed(*inputs[0].node),
        buf.len() <= inputs[1].buffer@.len(),
    ensures
        mix_inputs(inputs, 2, buf) == doubled(inputs, buf),
{
    let x = node_out(*inputs[0].node, buf);
    let scratch = inputs[1].buffer@.subrange(0, buf.len() as int);
    same_node_same_out(*inputs[0].node, *inputs[1].node, scratch);
    fed_node_overwrites(*inputs[0].node, scratch, buf);
    node_out_keeps_length(*inputs[0].node, buf);
    assert(mix_inputs(inputs, 1, buf) == x);
    assert(mix_inputs(inputs, 2, buf) == add_all(x, x));
    assert(add_all(x, x) =~= doubled(inputs, buf));
}

/// A sink with two inputs in the same state, whose gains and sinks all have
/// an input, outputs their sum: twice one input's samples (limited to the
/// sample range), not their average.
pub proof fn two_identical_inputs_double(s: Output, buf: Seq<i32>)
    requires
        node_wf(AudioNode::Output(s)),
        buf.len() <= SCRATCH_LEN,
        s.inputs@.len() == 2,
        same_node(*s.inputs@[0].node, *s.inputs@[1].node),
        all_fed(*s.inputs@[0].node),
    ensures
        node_out(AudioNode::Output(s), buf) == doubled(s.inputs@, buf),
{
    assert(AudioNode::Output(s)->Output_0 == s);
    assert(input_wf(s.inputs@[1]));
    lemma_two_identical_inputs(s.inputs@, buf);
}

/// A gain with two inputs in the same state, whose gains and sinks all have
/// an input, scales their sum: twice one input's samples, not their
/// average.
pub proof fn gain_of_two_identical_inputs(g: Gain, buf: Seq<i32>)
    requires
        node_wf(AudioNode::Gain(g)),
        buf.len() <= SCRATCH_LEN,
        g.inputs@.len() == 2,
        same_node(*g.inputs@[0].node, *g.inputs@[1].node),
        all_fed(*g.inputs@[0].node),
    ensures
        node_out(AudioNode::Gain(g), buf) == scale_all(doubled(g.inputs@, buf), g.amount),
{
    assert(AudioNode::Gain(g)->Gain_0 == g);
    assert(input_wf(g.inputs@[1]));
    lemma_two_identical_inputs(g.inputs@, buf);
}

} // verus!
