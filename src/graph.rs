use vstd::prelude::*;
use crate::osc::{Osc, OscWave};
use crate::sample::{mix, mix_sample, scale, scale_sample};

verus! {

broadcast use vstd::std_specs::vec::group_vec_axioms;

/// The capacity of an input's scratch buffer, and so the largest buffer a
/// graph can process.
pub const SCRATCH_LEN: usize = 4096;

/// A node of the graph.  A generator is a leaf; a gain and a sink mix the
/// nodes wired into them.
#[derive(Debug)]
pub enum AudioNode {
    Osc(Osc),
    Gain(Gain),
    Output(Output),
}

/// A node that mixes its inputs and scales the sum by `amount / GAIN_UNIT`.
#[derive(Debug)]
pub struct Gain {
    pub amount: i32,
    pub inputs: Vec<Input>,
}

/// The sink at the root of a graph: it mixes its inputs into the caller's
/// buffer, without scaling.
#[derive(Debug)]
pub struct Output {
    pub inputs: Vec<Input>,
}

/// A wiring slot: it owns one upstream node and a scratch buffer that
/// receives that node's samples when they are mixed with a sibling's.
#[derive(Debug)]
pub struct Input {
    pub node: Box<AudioNode>,
    pub buffer: Vec<i32>,
}

/// Element-wise sum of two sample sequences, saturating.
pub open spec fn add_all(a: Seq<i32>, b: Seq<i32>) -> Seq<i32> {
    Seq::new(a.len(), |j: int| mix_sample(a[j], b[j]))
}

/// Every sample of `a` scaled by `amount / GAIN_UNIT`.
pub open spec fn scale_all(a: Seq<i32>, amount: i32) -> Seq<i32> {
    Seq::new(a.len(), |j: int| scale_sample(a[j], amount))
}

/// Every node of the tree is well formed and every scratch buffer holds
/// `SCRATCH_LEN` samples.
pub open spec fn node_wf(node: AudioNode) -> bool
    decreases node,
{
    match node {
        AudioNode::Osc(o) => o.wf(),
        AudioNode::Gain(g) => forall|i: int|
            0 <= i < g.inputs@.len() ==> input_wf(#[trigger] g.inputs@[i]),
        AudioNode::Output(s) => forall|i: int|
            0 <= i < s.inputs@.len() ==> input_wf(#[trigger] s.inputs@[i]),
    }
}

pub open spec fn input_wf(input: Input) -> bool
    decreases input,
{
    input.buffer@.len() == SCRATCH_LEN && node_wf(*input.node)
}

/// What a node writes into a buffer that held `buf` when it is processed.
pub open spec fn node_out(node: AudioNode, buf: Seq<i32>) -> Seq<i32>
    decreases node,
{
    match node {
        AudioNode::Osc(o) => o.samples(buf.len()),
        AudioNode::Gain(g) => if g.inputs@.len() == 0 {
            buf
        } else {
            scale_all(mix_inputs(g.inputs@, g.inputs@.len(), buf), g.amount)
        },
        AudioNode::Output(s) => mix_inputs(s.inputs@, s.inputs@.len(), buf),
    }
}

/// The buffer that held `buf` after the first `k` inputs were mixed into
/// it: the first input's node writes into the buffer itself, each later
/// one's into its scratch buffer, which is then added.
pub open spec fn mix_inputs(inputs: Seq<Input>, k: nat, buf: Seq<i32>) -> Seq<i32>
    decreases inputs, k,
{
    if k == 0 || k > inputs.len() {
        buf
    } else if k == 1 {
        node_out(*inputs[0].node, buf)
    } else {
        add_all(
            mix_inputs(inputs, (k - 1) as nat, buf),
            node_out(*inputs[k - 1].node, inputs[k - 1].buffer@.subrange(0, buf.len() as int)),
        )
    }
}

/// `after` is `before` once it has processed a buffer of `n` samples:
/// each generator advanced by `n` samples, each scratch buffer but the
/// first input's holding its node's samples, and nothing else changed.
pub open spec fn node_advanced(before: AudioNode, after: AudioNode, n: nat) -> bool
    decreases before,
{
    match before {
        AudioNode::Osc(o) => after == AudioNode::Osc(o.advanced(n)),
        AudioNode::Gain(g) => match after {
            AudioNode::Gain(h) => h.amount == g.amount && h.inputs@.len() == g.inputs@.len()
                && forall|i: int|
                0 <= i < g.inputs@.len() ==> input_advanced(
                    #[trigger] g.inputs@[i],
                    h.inputs@[i],
                    i,
                    n,
                ),
            _ => false,
        },
        AudioNode::Output(s) => match after {
            AudioNode::Output(t) => t.inputs@.len() == s.inputs@.len() && forall|i: int|
                0 <= i < s.inputs@.len() ==> input_advanced(
                    #[trigger] s.inputs@[i],
                    t.inputs@[i],
                    i,
                    n,
                ),
            _ => false,
        },
    }
}

/// `after` is the input `before`, at `index` in its list, once its node
/// processed `n` samples: into the caller's buffer for the first input,
/// else into the scratch buffer.
pub open spec fn input_advanced(before: Input, after: Input, index: int, n: nat) -> bool
    decreases before,
{
    &&& node_advanced(*before.node, *after.node, n)
    &&& if index == 0 {
        after.buffer@ == before.buffer@
    } else {
        after.buffer@ == node_out(*before.node, before.buffer@.subrange(0, n as int))
            + before.buffer@.subrange(n as int, before.buffer@.len() as int)
    }
}

/// `input` is a new slot that owns `node` and a silent scratch buffer.
pub open spec fn fresh_input(input: Input, node: AudioNode) -> bool {
    &&& *input.node == node
    &&& input.buffer@ == Seq::new(SCRATCH_LEN as nat, |j: int| 0i32)
}

impl Input {
    /// A slot owning `node`, with a silent scratch buffer of `SCRATCH_LEN`
    /// samples.
    pub fn new(node: AudioNode) -> (r: Input)
        ensures
            fresh_input(r, node),
    {
        let buffer: Vec<i32> = vec![0i32; SCRATCH_LEN];
        assert(buffer@ =~= Seq::new(SCRATCH_LEN as nat, |j: int| 0i32));
        Input { node: Box::new(node), buffer }
    }
}

impl AudioNode {
    /// Wires `input` into this node, as its last input.  A generator is a
    /// leaf and ignores it.
    pub fn add_input(&mut self, input: AudioNode)
        requires
            node_wf(*old(self)),
            node_wf(input),
        ensures
            node_wf(*final(self)),
            match *old(self) {
                AudioNode::Osc(o) => *final(self) == AudioNode::Osc(o),
                AudioNode::Gain(g) => match *final(self) {
                    AudioNode::Gain(h) => h.amount == g.amount && h.inputs@.len() == g.inputs@.len() + 1
                        && h.inputs@.drop_last() == g.inputs@ && fresh_input(h.inputs@.last(), input),
                    _ => false,
                },
                AudioNode::Output(s) => match *final(self) {
                    AudioNode::Output(t) => t.inputs@.len() == s.inputs@.len() + 1
                        && t.inputs@.drop_last() == s.inputs@ && fresh_input(t.inputs@.last(), input),
                    _ => false,
                },
            },
    {
        match self {
            AudioNode::Osc(_) => {},
            AudioNode::Gain(g) => g.add_input(input),
            AudioNode::Output(s) => s.add_input(input),
        }
    }

    /// Processes a buffer: a generator fills it, a gain or a sink mixes its
    /// inputs into it.
    pub fn process(&mut self, buf: &mut [i32])
        requires
            node_wf(*old(self)),
            old(buf)@.len() <= SCRATCH_LEN,
        ensures
            final(buf)@ == node_out(*old(self), old(buf)@),
            final(buf)@.len() == old(buf)@.len(),
            node_advanced(*old(self), *final(self), old(buf)@.len()),
            node_wf(*final(self)),
        decreases *old(self),
    {
        match self {
            AudioNode::Osc(o) => o.process(buf),
            AudioNode::Gain(g) => g.process(buf),
            AudioNode::Output(s) => s.process(buf),
        }
    }
}

/// Appends a fresh slot owning `input` to `inputs`.
fn push_input(inputs: &mut Vec<Input>, input: AudioNode)
    requires
        forall|i: int| 0 <= i < old(inputs)@.len() ==> input_wf(#[trigger] old(inputs)@[i]),
        node_wf(input),
    ensures
        final(inputs)@.len() == old(inputs)@.len() + 1,
        final(inputs)@.drop_last() == old(inputs)@,
        fresh_input(final(inputs)@.last(), input),
        forall|i: int| 0 <= i < final(inputs)@.len() ==> input_wf(#[trigger] final(inputs)@[i]),
{
    let slot = Input::new(input);
    inputs.push(slot);
    assert(final(inputs)@.drop_last() =~= old(inputs)@);
}

impl Gain {
    /// A gain of `amount / GAIN_UNIT`, with no inputs yet.
    pub fn new(amount: i32) -> (r: Gain)
        ensures
            r.amount == amount,
            r.inputs@.len() == 0,
            node_wf(AudioNode::Gain(r)),
    {
        let r = Gain { amount, inputs: Vec::new() };
        assert(AudioNode::Gain(r)->Gain_0 == r);
        r
    }

    /// Wires `input` into this gain, as its last input.
    pub fn add_input(&mut self, input: AudioNode)
        requires
            node_wf(AudioNode::Gain(*old(self))),
            node_wf(input),
        ensures
            final(self).amount == old(self).amount,
            final(self).inputs@.len() == old(self).inputs@.len() + 1,
            final(self).inputs@.drop_last() == old(self).inputs@,
            fresh_input(final(self).inputs@.last(), input),
            node_wf(AudioNode::Gain(*final(self))),
    {
        assert(AudioNode::Gain(*self)->Gain_0 == *self);
        push_input(&mut self.inputs, input);
        assert(AudioNode::Gain(*self)->Gain_0 == *self);
    }

    /// Mixes the inputs into `buf`, then scales every sample by
    /// `amount / GAIN_UNIT`.  A gain with no inputs leaves `buf` as it is.
    pub fn process(&mut self, buf: &mut [i32])
        requires
            node_wf(AudioNode::Gain(*old(self))),
            old(buf)@.len() <= SCRATCH_LEN,
        ensures
            final(buf)@ == node_out(AudioNode::Gain(*old(self)), old(buf)@),
            final(buf)@.len() == old(buf)@.len(),
            node_advanced(AudioNode::Gain(*old(self)), AudioNode::Gain(*final(self)), old(buf)@.len()),
            node_wf(AudioNode::Gain(*final(self))),
        decreases *old(self),
    {
        assert(AudioNode::Gain(*self)->Gain_0 == *self);
        process_inputs_to_data(&mut self.inputs, buf);
        assert(AudioNode::Gain(*self)->Gain_0 == *self);
        if self.inputs.len() == 0 {
            return;
        }
        let ghost mixed = buf@;
        let n = buf.len();
        let mut i: usize = 0;
        while i < n
            invariant
                i <= n,
                n == buf@.len(),
                mixed.len() == n,
                forall|k: int| 0 <= k < i ==> buf@[k] == #[trigger] scale_all(mixed, self.amount)[k],
                forall|k: int| i <= k < n ==> buf@[k] == mixed[k],
            decreases n - i,
        {
            buf[i] = scale(buf[i], self.amount);
            i = i + 1;
        }
        assert(buf@ =~= scale_all(mixed, self.amount));
    }
}

impl Output {
    /// A sink with no inputs yet.
    pub fn new() -> (r: Output)
        ensures
            r.inputs@.len() == 0,
            node_wf(AudioNode::Output(r)),
    {
        let r = Output { inputs: Vec::new() };
        assert(AudioNode::Output(r)->Output_0 == r);
        r
    }

    /// Wires `input` into this sink, as its last input.
    pub fn add_input(&mut self, input: AudioNode)
        requires
            node_wf(AudioNode::Output(*old(self))),
            node_wf(input),
        ensures
            final(self).inputs@.len() == old(self).inputs@.len() + 1,
            final(self).inputs@.drop_last() == old(self).inputs@,
            fresh_input(final(self).inputs@.last(), input),
            node_wf(AudioNode::Output(*final(self))),
    {
        assert(AudioNode::Output(*self)->Output_0 == *self);
        push_input(&mut self.inputs, input);
        assert(AudioNode::Output(*self)->Output_0 == *self);
    }

    /// Mixes the inputs into `buf`.
    pub fn process(&mut self, buf: &mut [i32])
        requires
            node_wf(AudioNode::Output(*old(self))),
            old(buf)@.len() <= SCRATCH_LEN,
        ensures
            final(buf)@ == node_out(AudioNode::Output(*old(self)), old(buf)@),
            final(buf)@.len() == old(buf)@.len(),
            node_advanced(AudioNode::Output(*old(self)), AudioNode::Output(*final(self)), old(buf)@.len()),
            node_wf(AudioNode::Output(*final(self))),
        decreases *old(self),
    {
        assert(AudioNode::Output(*self)->Output_0 == *self);
        process_inputs_to_data(&mut self.inputs, buf);
        assert(AudioNode::Output(*self)->Output_0 == *self);
    }
}

/// Mixes every input into `buf`, in order: the first input's node writes
/// into `buf` itself; each later one's writes into its scratch buffer,
/// which is then added into `buf`.
pub fn process_inputs_to_data(inputs: &mut Vec<Input>, buf: &mut [i32])
    requires
        forall|i: int| 0 <= i < old(inputs)@.len() ==> input_wf(#[trigger] old(inputs)@[i]),
        old(buf)@.len() <= SCRATCH_LEN,
    ensures
        final(buf)@ == mix_inputs(old(inputs)@, old(inputs)@.len(), old(buf)@),
        final(buf)@.len() == old(buf)@.len(),
        final(inputs)@.len() == old(inputs)@.len(),
        forall|i: int|
            0 <= i < old(inputs)@.len() ==> input_advanced(
                old(inputs)@[i],
                #[trigger] final(inputs)@[i],
                i,
                old(buf)@.len(),
            ) && input_wf(final(inputs)@[i]),
    decreases *old(inputs),
{
    let ghost start_vec = *inputs;
    let ghost start = start_vec@;
    let ghost start_buf = buf@;
    let n = buf.len();
    let count = inputs.len();
    let mut i: usize = 0;
    while i < count
        invariant
            i <= count,
            count == start.len(),
            start == start_vec@,
            start_vec == *old(inputs),
            inputs@.len() == count,
            n == buf@.len(),
            n == start_buf.len(),
            n <= SCRATCH_LEN,
            buf@ == mix_inputs(start, i as nat, start_buf),
            forall|j: int| 0 <= j < count ==> input_wf(#[trigger] start[j]),
            forall|j: int|
                0 <= j < i ==> input_advanced(start[j], #[trigger] inputs@[j], j, n as nat)
                    && input_wf(inputs@[j]),
            forall|j: int| i <= j < count ==> #[trigger] inputs@[j] == start[j],
        decreases count - i,
    {
        let input = &mut inputs[i];
        proof {
            assert(decreases_to!(start_vec => start_vec@));
            vstd::seq::axiom_seq_index_decreases(start_vec@, i as int);
            assert(decreases_to!(start_vec => *start_vec@[i as int].node));
        }
        if i == 0 {
            input.node.process(buf);
        } else {
            let (head, _tail) = input.buffer.as_mut_slice().split_at_mut(n);
            input.node.process(head);
            let ghost before = buf@;
            let mut j: usize = 0;
            while j < n
                invariant
                    j <= n,
                    n == buf@.len(),
                    n == head@.len(),
                    before.len() == n,
                    forall|k: int| 0 <= k < j ==> buf@[k] == #[trigger] add_all(before, head@)[k],
                    forall|k: int| j <= k < n ==> buf@[k] == before[k],
                decreases n - j,
            {
                buf[j] = mix(buf[j], head[j]);
                j = j + 1;
            }
            assert(buf@ =~= add_all(before, head@));
        }
        i = i + 1;
    }
}

/// A graph: a sink at the root of a tree of nodes, and the sample rate its
/// generators run at.
#[derive(Debug)]
pub struct AudioGraph {
    pub output: Output,
    pub sample_rate: u32,
}

impl AudioGraph {
    pub open spec fn wf(&self) -> bool {
        self.sample_rate > 0 && node_wf(AudioNode::Output(self.output))
    }

    /// What processing a buffer that held `buf` writes into it.
    pub open spec fn out(&self, buf: Seq<i32>) -> Seq<i32> {
        node_out(AudioNode::Output(self.output), buf)
    }

    /// `after` is this graph once it has processed `n` samples.
    pub open spec fn advanced_to(&self, after: AudioGraph, n: nat) -> bool {
        after.sample_rate == self.sample_rate && node_advanced(
            AudioNode::Output(self.output),
            AudioNode::Output(after.output),
            n,
        )
    }

    /// An empty graph at `sample_rate` samples per second.
    pub fn new(sample_rate: u32) -> (r: AudioGraph)
        requires
            sample_rate > 0,
        ensures
            r.wf(),
            r.sample_rate == sample_rate,
            r.output.inputs@.len() == 0,
    {
        AudioGraph { output: Output::new(), sample_rate }
    }

    /// Fills `data` from the graph: the per-period entry point.
    pub fn process(&mut self, data: &mut [i32])
        requires
            old(self).wf(),
            old(data)@.len() <= SCRATCH_LEN,
        ensures
            final(data)@ == old(self).out(old(data)@),
            old(self).advanced_to(*final(self), old(data)@.len()),
            final(self).wf(),
    {
        self.output.process(data);
    }

    /// Fills `data` from the graph if it fits the scratch buffers; a longer
    /// buffer is refused and left as it was.
    pub fn try_process(&mut self, data: &mut [i32]) -> (r: bool)
        requires
            old(self).wf(),
        ensures
            r == (old(data)@.len() <= SCRATCH_LEN),
            r ==> final(data)@ == old(self).out(old(data)@) && old(self).advanced_to(
                *final(self),
                old(data)@.len(),
            ),
            !r ==> final(data)@ == old(data)@ && *final(self) == *old(self),
            final(self).wf(),
    {
        if data.len() <= SCRATCH_LEN {
            self.process(data);
            true
        } else {
            false
        }
    }
}

/// The frequency of the graph's tone: 220 Hz, in millihertz.
pub const TONE_FREQ: u32 = 220_000;

/// The gain applied to the graph's tone: one half.
pub const TONE_GAIN: i32 = 500;

/// A graph at `sample_rate` playing a 220 Hz triangle tone at half gain:
/// generator, gain, sink.
pub fn create_graph(sample_rate: u32) -> (r: AudioGraph)
    requires
        sample_rate > 0,
    ensures
        r.wf(),
        r.sample_rate == sample_rate,
        r.output.inputs@.len() == 1,
        ({
            let gain = *r.output.inputs@[0].node;
            &&& gain is Gain
            &&& gain->Gain_0.amount == TONE_GAIN
            &&& gain->Gain_0.inputs@.len() == 1
            &&& *gain->Gain_0.inputs@[0].node == AudioNode::Osc(
                Osc::new_spec(sample_rate, TONE_FREQ, OscWave::Triangle),
            )
        }),
{
    let mut audio_graph = AudioGraph::new(sample_rate);
    let osc = Osc::new(sample_rate, TONE_FREQ, OscWave::Triangle);
    let mut gain = Gain::new(TONE_GAIN);
    gain.add_input(AudioNode::Osc(osc));
    audio_graph.output.add_input(AudioNode::Gain(gain));
    audio_graph
}

} // verus!
