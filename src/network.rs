//! A feed-forward network: layers of neurons, each holding a bias and one
//! weight per input. Its parameters flatten to one sequence that visits the
//! neurons in layer order and, within a neuron, the bias first and then the
//! weights in input order.

use rand_chacha::ChaCha8Rng;
use vstd::prelude::*;

verus! {

/// The number of neurons in one layer of a network's topology.
#[derive(Clone, Copy, Debug)]
pub struct LayerTopology {
    pub neurons: usize,
}

/// A neuron: one bias and one weight per input.
#[derive(Clone, Debug)]
pub struct Neuron<W> {
    bias: W,
    weights: Vec<W>,
}

/// An ordered sequence of neurons fed by the same inputs.
#[derive(Clone, Debug)]
pub struct Layer<W> {
    neurons: Vec<Neuron<W>>,
}

/// An ordered sequence of layers.
#[derive(Clone, Debug)]
pub struct Network<W> {
    layers: Vec<Layer<W>>,
}

/// Why a flat parameter sequence does not fit a topology.
#[derive(Clone, Copy, Debug, PartialEq, Eq)]
pub enum ShapeError {
    /// The sequence ends before every neuron is filled.
    NotEnoughWeights,
    /// Values remain after the last neuron is filled.
    TooManyWeights,
}

/// A neuron as its bias and its weights.
pub type NeuronModel<W> = (W, Seq<W>);

/// A layer as its neurons.
pub type LayerModel<W> = Seq<NeuronModel<W>>;

/// A network as its layers.
pub type NetworkModel<W> = Seq<LayerModel<W>>;

/// The arithmetic a forward pass needs of a weight type.
///
/// Each operation is a function of its arguments alone, named by a spec
/// function of the same meaning.
pub trait Weight: Copy {
    /// The empty sum.
    spec fn spec_zero() -> Self;

    /// `self + other`.
    spec fn spec_plus(self, other: Self) -> Self;

    /// `self * other`.
    spec fn spec_times(self, other: Self) -> Self;

    /// The rectified value: `self` where it is above zero, else zero.
    spec fn spec_relu(self) -> Self;

    fn zero() -> (r: Self)
        ensures
            r == Self::spec_zero(),
    ;

    fn plus(self, other: Self) -> (r: Self)
        ensures
            r == self.spec_plus(other),
    ;

    fn times(self, other: Self) -> (r: Self)
        ensures
            r == self.spec_times(other),
    ;

    fn relu(self) -> (r: Self)
        ensures
            r == self.spec_relu(),
    ;

    /// A weight drawn uniformly from `[-1, 1]`.
    fn draw(rng: &mut ChaCha8Rng) -> Self;
}

impl<W> View for Neuron<W> {
    type V = NeuronModel<W>;

    closed spec fn view(&self) -> NeuronModel<W> {
        (self.bias, self.weights@)
    }
}

impl<W> View for Layer<W> {
    type V = LayerModel<W>;

    closed spec fn view(&self) -> LayerModel<W> {
        self.neurons@.map_values(|n: Neuron<W>| n@)
    }
}

impl<W> View for Network<W> {
    type V = NetworkModel<W>;

    closed spec fn view(&self) -> NetworkModel<W> {
        self.layers@.map_values(|l: Layer<W>| l@)
    }
}

/// The parameters of one neuron: its bias, then its weights.
pub open spec fn neuron_flat<W>(n: NeuronModel<W>) -> Seq<W> {
    seq![n.0] + n.1
}

/// The parameters of a layer's neurons, one neuron after another.
pub open spec fn layer_flat<W>(l: LayerModel<W>) -> Seq<W>
    decreases l.len(),
{
    if l.len() == 0 {
        seq![]
    } else {
        layer_flat(l.drop_last()) + neuron_flat(l.last())
    }
}

/// The parameters of a network, one layer after another.
pub open spec fn network_flat<W>(n: NetworkModel<W>) -> Seq<W>
    decreases n.len(),
{
    if n.len() == 0 {
        seq![]
    } else {
        network_flat(n.drop_last()) + layer_flat(n.last())
    }
}

/// `outputs` neurons, each with `inputs` weights.
pub open spec fn layer_has_shape<W>(l: LayerModel<W>, inputs: nat, outputs: nat) -> bool {
    &&& l.len() == outputs
    &&& forall|k: int| 0 <= k < l.len() ==> (#[trigger] l[k]).1.len() == inputs
}

/// One layer for each consecutive pair of sizes in `topology`, each shaped by
/// that pair.
pub open spec fn has_shape<W>(n: NetworkModel<W>, topology: Seq<LayerTopology>) -> bool {
    &&& topology.len() >= 2
    &&& n.len() == topology.len() - 1
    &&& forall|i: int|
        0 <= i < n.len() ==> layer_has_shape(
            #[trigger] n[i],
            topology[i].neurons as nat,
            topology[i + 1].neurons as nat,
        )
}

/// How many parameters a layer of `outputs` neurons with `inputs` weights each
/// holds.
pub open spec fn layer_parameters(inputs: nat, outputs: nat) -> nat {
    outputs * (inputs + 1)
}

/// How many parameters a network of the given topology holds.
pub open spec fn parameter_count(topology: Seq<LayerTopology>) -> nat
    decreases topology.len(),
{
    if topology.len() < 2 {
        0
    } else {
        parameter_count(topology.drop_last()) + layer_parameters(
            topology[topology.len() - 2].neurons as nat,
            topology.last().neurons as nat,
        )
    }
}

/// The layer of `outputs` neurons with `inputs` weights each that reads its
/// parameters from the front of `flat`.
pub open spec fn layer_from_flat<W>(flat: Seq<W>, inputs: nat, outputs: nat) -> LayerModel<W>
    decreases outputs,
{
    if outputs == 0 {
        seq![]
    } else {
        let start = layer_parameters(inputs, (outputs - 1) as nat) as int;
        layer_from_flat(flat, inputs, (outputs - 1) as nat).push(
            (flat[start], flat.subrange(start + 1, start + 1 + inputs)),
        )
    }
}

/// The network of the given topology that reads its parameters from the front
/// of `flat`, in the flat order.
pub open spec fn network_from_flat<W>(topology: Seq<LayerTopology>, flat: Seq<W>) -> NetworkModel<
    W,
>
    decreases topology.len(),
{
    if topology.len() < 2 {
        seq![]
    } else {
        let t = topology.drop_last();
        network_from_flat(t, flat).push(
            layer_from_flat(
                flat.subrange(parameter_count(t) as int, parameter_count(topology) as int),
                t.last().neurons as nat,
                topology.last().neurons as nat,
            ),
        )
    }
}

proof fn lemma_parameter_count_step(t: Seq<LayerTopology>, i: int)
    requires
        0 <= i,
        i + 2 <= t.len(),
    ensures
        parameter_count(t.subrange(0, i + 2)) == parameter_count(t.subrange(0, i + 1))
            + layer_parameters(t[i].neurons as nat, t[i + 1].neurons as nat),
{
    assert(t.subrange(0, i + 2).drop_last() =~= t.subrange(0, i + 1));
}

proof fn lemma_parameter_count_prefix(t: Seq<LayerTopology>, i: int)
    requires
        0 <= i <= t.len(),
    ensures
        parameter_count(t.subrange(0, i)) <= parameter_count(t),
    decreases t.len() - i,
{
    if i < t.len() {
        lemma_parameter_count_prefix(t, i + 1);
        if i >= 1 {
            lemma_parameter_count_step(t, i - 1);
        } else {
            assert(parameter_count(t.subrange(0, 0)) == 0);
        }
    } else {
        assert(t.subrange(0, i) =~= t);
    }
}

proof fn lemma_layer_flat_push<W>(l: LayerModel<W>, n: NeuronModel<W>)
    ensures
        layer_flat(l.push(n)) == layer_flat(l) + neuron_flat(n),
{
    assert(l.push(n).drop_last() =~= l);
}

proof fn lemma_network_flat_push<W>(net: NetworkModel<W>, l: LayerModel<W>)
    ensures
        network_flat(net.push(l)) == network_flat(net) + layer_flat(l),
{
    assert(net.push(l).drop_last() =~= net);
}

proof fn lemma_layer_flat_len<W>(l: LayerModel<W>, inputs: nat, outputs: nat)
    requires
        layer_has_shape(l, inputs, outputs),
    ensures
        layer_flat(l).len() == layer_parameters(inputs, outputs),
    decreases l.len(),
{
    if l.len() > 0 {
        let m = (l.len() - 1) as nat;
        assert forall|k: int| 0 <= k < l.drop_last().len() implies (#[trigger] l.drop_last()[k]).1.len()
            == inputs by {
            assert(l.drop_last()[k] == l[k]);
        }
        lemma_layer_flat_len(l.drop_last(), inputs, m);
        assert(l.last().1.len() == inputs);
        assert(neuron_flat(l.last()).len() == inputs + 1);
        assert(m * (inputs + 1) + (inputs + 1) == outputs * (inputs + 1)) by (nonlinear_arith)
            requires
                outputs == m + 1,
        ;
    } else {
        assert(outputs * (inputs + 1) == 0) by (nonlinear_arith)
            requires
                outputs == 0,
        ;
    }
}

proof fn lemma_layer_from_flat<W>(flat: Seq<W>, inputs: nat, outputs: nat)
    requires
        flat.len() >= layer_parameters(inputs, outputs),
    ensures
        layer_has_shape(layer_from_flat(flat, inputs, outputs), inputs, outputs),
        layer_flat(layer_from_flat(flat, inputs, outputs)) == flat.subrange(
            0,
            layer_parameters(inputs, outputs) as int,
        ),
    decreases outputs,
{
    if outputs == 0 {
        assert(outputs * (inputs + 1) == 0) by (nonlinear_arith)
            requires
                outputs == 0,
        ;
        assert(flat.subrange(0, 0) =~= Seq::<W>::empty());
    } else {
        let m = (outputs - 1) as nat;
        let start = layer_parameters(inputs, m) as int;
        assert(m * (inputs + 1) + (inputs + 1) == outputs * (inputs + 1)) by (nonlinear_arith)
            requires
                outputs == m + 1,
        ;
        lemma_layer_from_flat(flat, inputs, m);
        let prev = layer_from_flat(flat, inputs, m);
        let n = (flat[start], flat.subrange(start + 1, start + 1 + inputs));
        lemma_layer_flat_push(prev, n);
        assert(prev.push(n) == layer_from_flat(flat, inputs, outputs));
        assert(neuron_flat(n) =~= flat.subrange(start, start + 1 + inputs));
        assert(flat.subrange(0, layer_parameters(inputs, outputs) as int) =~= flat.subrange(
            0,
            start,
        ) + flat.subrange(start, start + 1 + inputs));
        let l = prev.push(n);
        assert forall|k: int| 0 <= k < l.len() implies (#[trigger] l[k]).1.len() == inputs by {
            if k < prev.len() {
                assert(l[k] == prev[k]);
            }
        }
    }
}

/// A flat sequence of exactly the length a topology implies determines a
/// network of that topology, and flattening that network gives the sequence
/// back.
pub proof fn lemma_round_trip<W>(topology: Seq<LayerTopology>, flat: Seq<W>)
    requires
        topology.len() >= 2,
        flat.len() == parameter_count(topology),
    ensures
        has_shape(network_from_flat(topology, flat), topology),
        network_flat(network_from_flat(topology, flat)) == flat,
{
    lemma_network_from_flat(topology, flat);
    assert(flat.subrange(0, flat.len() as int) =~= flat);
}

proof fn lemma_network_from_flat<W>(topology: Seq<LayerTopology>, flat: Seq<W>)
    requires
        topology.len() >= 2,
        flat.len() >= parameter_count(topology),
    ensures
        has_shape(network_from_flat(topology, flat), topology),
        network_flat(network_from_flat(topology, flat)) == flat.subrange(
            0,
            parameter_count(topology) as int,
        ),
    decreases topology.len(),
{
    let t = topology.drop_last();
    let lo = parameter_count(t);
    let hi = parameter_count(topology);
    let inputs = t.last().neurons as nat;
    let outputs = topology.last().neurons as nat;
    let sub = flat.subrange(lo as int, hi as int);
    lemma_layer_from_flat(sub, inputs, outputs);
    assert(sub.subrange(0, sub.len() as int) =~= sub);
    let layer = layer_from_flat(sub, inputs, outputs);
    let prev = network_from_flat(t, flat);
    lemma_network_flat_push(prev, layer);
    assert(network_from_flat(topology, flat) == prev.push(layer));
    if t.len() >= 2 {
        lemma_network_from_flat(t, flat);
    } else {
        assert(prev.len() == 0);
        assert(lo == 0);
        assert(network_flat(prev) == Seq::<W>::empty());
    }
    assert(flat.subrange(0, hi as int) =~= flat.subrange(0, lo as int) + sub);
    let net = prev.push(layer);
    assert forall|i: int| 0 <= i < net.len() implies layer_has_shape(
        #[trigger] net[i],
        topology[i].neurons as nat,
        topology[i + 1].neurons as nat,
    ) by {
        if i < prev.len() {
            assert(net[i] == prev[i]);
            assert(topology[i] == t[i]);
            assert(topology[i + 1] == t[i + 1]);
        } else {
            assert(net[i] == layer);
        }
    }
}

/// A network of the given topology has exactly as many parameters as the
/// topology implies.
pub proof fn lemma_flat_len<W>(net: NetworkModel<W>, topology: Seq<LayerTopology>)
    requires
        has_shape(net, topology),
    ensures
        network_flat(net).len() == parameter_count(topology),
    decreases net.len(),
{
    let i = net.len() - 1;
    lemma_layer_flat_len(net[i], topology[i].neurons as nat, topology[i + 1].neurons as nat);
    if net.len() > 1 {
        let t = topology.drop_last();
        assert(has_shape(net.drop_last(), t)) by {
            assert forall|j: int| 0 <= j < net.drop_last().len() implies layer_has_shape(
                #[trigger] net.drop_last()[j],
                t[j].neurons as nat,
                t[j + 1].neurons as nat,
            ) by {
                assert(net.drop_last()[j] == net[j]);
            }
        }
        lemma_flat_len(net.drop_last(), t);
    } else {
        assert(network_flat(net.drop_last()).len() == 0);
        assert(parameter_count(topology.drop_last()) == 0);
    }
}

proof fn lemma_layer_flat_injective<W>(a: LayerModel<W>, b: LayerModel<W>, inputs: nat, outputs: nat)
    requires
        layer_has_shape(a, inputs, outputs),
        layer_has_shape(b, inputs, outputs),
        layer_flat(a) == layer_flat(b),
    ensures
        a == b,
    decreases outputs,
{
    if outputs > 0 {
        let m = (outputs - 1) as nat;
        lemma_layer_flat_len(a.drop_last(), inputs, m);
        lemma_layer_flat_len(b.drop_last(), inputs, m);
        let fa = layer_flat(a.drop_last());
        let fb = layer_flat(b.drop_last());
        assert(layer_flat(a) == fa + neuron_flat(a.last()));
        assert(fa =~= layer_flat(a).subrange(0, fa.len() as int));
        assert(fb =~= layer_flat(b).subrange(0, fb.len() as int));
        lemma_layer_flat_injective(a.drop_last(), b.drop_last(), inputs, m);
        let na = neuron_flat(a.last());
        let nb = neuron_flat(b.last());
        assert(na =~= layer_flat(a).subrange(fa.len() as int, layer_flat(a).len() as int));
        assert(nb =~= layer_flat(b).subrange(fb.len() as int, layer_flat(b).len() as int));
        assert(a.last().0 == na[0]);
        assert(a.last().1 =~= na.subrange(1, na.len() as int));
        assert(b.last().1 =~= nb.subrange(1, nb.len() as int));
        assert(a =~= a.drop_last().push(a.last()));
        assert(b =~= b.drop_last().push(b.last()));
    } else {
        assert(a =~= b);
    }
}

/// Two networks of one topology with the same flat parameters are the same
/// network: the flat sequence together with the topology determines the
/// network, so rebuilding a network from its own parameters gives it back.
pub proof fn lemma_flat_determines_network<W>(
    a: NetworkModel<W>,
    b: NetworkModel<W>,
    topology: Seq<LayerTopology>,
)
    requires
        has_shape(a, topology),
        has_shape(b, topology),
        network_flat(a) == network_flat(b),
    ensures
        a == b,
    decreases a.len(),
{
    let i = a.len() - 1;
    let t = topology.drop_last();
    let (ia, ib) = (a.drop_last(), b.drop_last());
    if a.len() > 1 {
        assert forall|j: int| 0 <= j < ia.len() implies layer_has_shape(
            #[trigger] ia[j],
            t[j].neurons as nat,
            t[j + 1].neurons as nat,
        ) && layer_has_shape(ib[j], t[j].neurons as nat, t[j + 1].neurons as nat) by {
            assert(ia[j] == a[j]);
            assert(ib[j] == b[j]);
        }
        assert(has_shape(ia, t));
        assert(has_shape(ib, t));
        lemma_flat_len(ia, t);
        lemma_flat_len(ib, t);
        let fa = network_flat(ia);
        assert(fa =~= network_flat(a).subrange(0, fa.len() as int));
        assert(network_flat(ib) =~= network_flat(b).subrange(0, fa.len() as int));
        lemma_flat_determines_network(ia, ib, t);
    }
    let fa = network_flat(ia);
    let fb = network_flat(ib);
    assert(fa.len() == fb.len()) by {
        if a.len() <= 1 {
            assert(fa.len() == 0);
            assert(fb.len() == 0);
        }
    }
    assert(layer_flat(a.last()) =~= network_flat(a).subrange(
        fa.len() as int,
        network_flat(a).len() as int,
    ));
    assert(layer_flat(b.last()) =~= network_flat(b).subrange(
        fb.len() as int,
        network_flat(b).len() as int,
    ));
    lemma_layer_flat_injective(
        a[i],
        b[i],
        topology[i].neurons as nat,
        topology[i + 1].neurons as nat,
    );
    if a.len() <= 1 {
        assert(ia =~= ib);
    }
    assert(a =~= ia.push(a.last()));
    assert(b =~= ib.push(b.last()));
}

/// The sum of the first `n` products of an input and its weight, added in
/// input order to zero.
pub open spec fn weighted_sum<W: Weight>(inputs: Seq<W>, weights: Seq<W>, n: nat) -> W
    decreases n,
{
    if n == 0 {
        W::spec_zero()
    } else {
        weighted_sum(inputs, weights, (n - 1) as nat).spec_plus(
            inputs[n - 1].spec_times(weights[n - 1]),
        )
    }
}

/// What a neuron outputs for `inputs`: the rectified sum of its bias and of
/// each input times its weight, over as many inputs as both sequences hold.
pub open spec fn neuron_output<W: Weight>(n: NeuronModel<W>, inputs: Seq<W>) -> W {
    let k = if inputs.len() < n.1.len() {
        inputs.len()
    } else {
        n.1.len()
    };
    n.0.spec_plus(weighted_sum(inputs, n.1, k)).spec_relu()
}

/// What a layer outputs for `inputs`: one value per neuron, in order.
pub open spec fn layer_output<W: Weight>(l: LayerModel<W>, inputs: Seq<W>) -> Seq<W> {
    l.map_values(|n: NeuronModel<W>| neuron_output(n, inputs))
}

/// What a network outputs for `inputs`: the inputs fed through each layer in
/// order.
pub open spec fn network_output<W: Weight>(net: NetworkModel<W>, inputs: Seq<W>) -> Seq<W>
    decreases net.len(),
{
    if net.len() == 0 {
        inputs
    } else {
        layer_output(net.last(), network_output(net.drop_last(), inputs))
    }
}

/// Rebuilding a network of the given topology from its own flat parameters
/// gives the same network, so it also propagates every input alike.
pub proof fn lemma_rebuilt_network<W: Weight>(net: NetworkModel<W>, topology: Seq<LayerTopology>, inputs: Seq<W>)
    requires
        has_shape(net, topology),
    ensures
        network_from_flat(topology, network_flat(net)) == net,
        network_output(network_from_flat(topology, network_flat(net)), inputs) == network_output(
            net,
            inputs,
        ),
{
    lemma_flat_len(net, topology);
    lemma_round_trip(topology, network_flat(net));
    lemma_flat_determines_network(network_from_flat(topology, network_flat(net)), net, topology);
}

impl<W: Copy> Neuron<W> {
    pub fn new(bias: W, weights: Vec<W>) -> (r: Self)
        ensures
            r@ == (bias, weights@),
    {
        Neuron { bias, weights }
    }

    pub fn bias(&self) -> (r: W)
        ensures
            r == self@.0,
    {
        self.bias
    }

    /// One weight per input, in input order.
    pub fn weights(&self) -> (r: &Vec<W>)
        ensures
            r@ == self@.1,
    {
        &self.weights
    }

    /// Reads a neuron with `inputs` weights from `weights`, starting at
    /// `start`: the bias, then the weights.
    pub fn from_weights(inputs: usize, weights: &Vec<W>, start: usize) -> (r: Self)
        requires
            start + 1 + inputs <= weights@.len(),
        ensures
            neuron_flat(r@) == weights@.subrange(start as int, start + 1 + inputs),
            r@.1.len() == inputs,
    {
        let total = weights.len();
        let bias = weights[start];
        let mut own: Vec<W> = Vec::new();
        let mut j: usize = 0;
        while j < inputs
            invariant
                j <= inputs,
                start + 1 + inputs <= weights@.len(),
                total == weights@.len(),
                own@ == weights@.subrange(start + 1, start + 1 + j),
            decreases inputs - j,
        {
            own.push(weights[start + 1 + j]);
            j = j + 1;
            assert(own@ =~= weights@.subrange(start + 1, start + 1 + j));
        }
        let r = Neuron { bias, weights: own };
        assert(neuron_flat(r@) =~= weights@.subrange(start as int, start + 1 + inputs));
        r
    }

    /// Appends the bias, then the weights.
    fn append_flat(&self, out: &mut Vec<W>)
        ensures
            final(out)@ == old(out)@ + neuron_flat(self@),
    {
        let ghost start = out@;
        out.push(self.bias);
        let mut j: usize = 0;
        while j < self.weights.len()
            invariant
                j <= self.weights@.len(),
                out@ == start + seq![self.bias] + self.weights@.subrange(0, j as int),
            decreases self.weights@.len() - j,
        {
            out.push(self.weights[j]);
            j = j + 1;
            assert(out@ =~= start + seq![self.bias] + self.weights@.subrange(0, j as int));
        }
        assert(self.weights@.subrange(0, j as int) =~= self.weights@);
        assert(out@ =~= start + neuron_flat(self@));
    }
}

impl<W: Copy> Layer<W> {
    pub fn new(neurons: Vec<Neuron<W>>) -> (r: Self)
        ensures
            r@ == neurons@.map_values(|n: Neuron<W>| n@),
    {
        Layer { neurons }
    }

    /// The neurons, in order.
    pub fn neurons(&self) -> (r: &Vec<Neuron<W>>)
        ensures
            r@.map_values(|n: Neuron<W>| n@) == self@,
    {
        &self.neurons
    }

    /// Reads `outputs` neurons of `inputs` weights each from `weights`,
    /// starting at `start`.
    pub fn from_weights(inputs: usize, outputs: usize, weights: &Vec<W>, start: usize) -> (r: Self)
        requires
            start + layer_parameters(inputs as nat, outputs as nat) <= weights@.len(),
        ensures
            layer_has_shape(r@, inputs as nat, outputs as nat),
            layer_flat(r@) == weights@.subrange(
                start as int,
                start + layer_parameters(inputs as nat, outputs as nat),
            ),
    {
        let total = weights.len();
        let mut neurons: Vec<Neuron<W>> = Vec::new();
        let mut pos: usize = start;
        let mut k: usize = 0;
        while k < outputs
            invariant
                k <= outputs,
                start + layer_parameters(inputs as nat, outputs as nat) <= weights@.len(),
                total == weights@.len(),
                pos == start + k * (inputs + 1),
                layer_has_shape(
                    neurons@.map_values(|n: Neuron<W>| n@),
                    inputs as nat,
                    k as nat,
                ),
                layer_flat(neurons@.map_values(|n: Neuron<W>| n@)) == weights@.subrange(
                    start as int,
                    pos as int,
                ),
            decreases outputs - k,
        {
            assert(k * (inputs + 1) + (inputs + 1) <= outputs * (inputs + 1)) by (nonlinear_arith)
                requires
                    k < outputs,
            ;
            assert(k * (inputs + 1) + (inputs + 1) == (k + 1) * (inputs + 1)) by (nonlinear_arith);
            let n = Neuron::from_weights(inputs, weights, pos);
            let ghost before = neurons@.map_values(|n: Neuron<W>| n@);
            neurons.push(n);
            assert(neurons@.map_values(|n: Neuron<W>| n@) =~= before.push(n@));
            proof {
                lemma_layer_flat_push(before, n@);
            }
            pos = pos + 1 + inputs;
            k = k + 1;
            assert(weights@.subrange(start as int, pos as int) =~= weights@.subrange(
                start as int,
                pos - 1 - inputs,
            ) + weights@.subrange(pos - 1 - inputs, pos as int));
        }
        Layer { neurons }
    }

    /// Appends the parameters of every neuron, in order.
    fn append_flat(&self, out: &mut Vec<W>)
        ensures
            final(out)@ == old(out)@ + layer_flat(self@),
    {
        let ghost start = out@;
        let mut k: usize = 0;
        while k < self.neurons.len()
            invariant
                k <= self.neurons@.len(),
                out@ == start + layer_flat(self@.subrange(0, k as int)),
            decreases self.neurons@.len() - k,
        {
            self.neurons[k].append_flat(out);
            proof {
                lemma_layer_flat_push(self@.subrange(0, k as int), self@[k as int]);
                assert(self@.subrange(0, k as int).push(self@[k as int]) =~= self@.subrange(
                    0,
                    k + 1,
                ));
            }
            k = k + 1;
        }
        assert(self@.subrange(0, k as int) =~= self@);
    }
}

impl<W: Copy> Network<W> {
    /// A network made of the given layers.
    pub fn new(layers: Vec<Layer<W>>) -> (r: Self)
        requires
            layers@.len() > 1,
        ensures
            r@ == layers@.map_values(|l: Layer<W>| l@),
    {
        Network { layers }
    }

    /// The layers, in order.
    pub fn layers(&self) -> (r: &Vec<Layer<W>>)
        ensures
            r@.map_values(|l: Layer<W>| l@) == self@,
    {
        &self.layers
    }

    /// Every parameter of the network, in the flat order: layer by layer,
    /// and within a neuron the bias before the weights.
    pub fn weights(&self) -> (r: Vec<W>)
        ensures
            r@ == network_flat(self@),
    {
        let mut out: Vec<W> = Vec::new();
        let mut i: usize = 0;
        while i < self.layers.len()
            invariant
                i <= self.layers@.len(),
                out@ == network_flat(self@.subrange(0, i as int)),
            decreases self.layers@.len() - i,
        {
            self.layers[i].append_flat(&mut out);
            proof {
                lemma_network_flat_push(self@.subrange(0, i as int), self@[i as int]);
                assert(self@.subrange(0, i as int).push(self@[i as int]) =~= self@.subrange(
                    0,
                    i + 1,
                ));
            }
            i = i + 1;
        }
        assert(self@.subrange(0, i as int) =~= self@);
        out
    }

    /// Rebuilds a network of the given topology from its flat parameters,
    /// read in the order that [`Network::weights`] writes them.
    pub fn from_weights(layers: &[LayerTopology], weights: Vec<W>) -> (r: Result<Self, ShapeError>)
        requires
            layers@.len() >= 2,
        ensures
            r is Ok <==> weights@.len() == parameter_count(layers@),
            r == Err::<Self, ShapeError>(ShapeError::NotEnoughWeights) <==> weights@.len()
                < parameter_count(layers@),
            r == Err::<Self, ShapeError>(ShapeError::TooManyWeights) <==> weights@.len()
                > parameter_count(layers@),
            r matches Ok(net) ==> net@ == network_from_flat(layers@, weights@),
            r matches Ok(net) ==> has_shape(net@, layers@) && network_flat(net@) == weights@,
    {
        let len = weights.len();
        let count = layers.len();
        let total = match parameter_total(layers) {
            None => return Err(ShapeError::NotEnoughWeights),
            Some(n) => n,
        };
        if weights.len() < total {
            return Err(ShapeError::NotEnoughWeights);
        }
        if weights.len() > total {
            return Err(ShapeError::TooManyWeights);
        }
        let mut built: Vec<Layer<W>> = Vec::new();
        let mut pos: usize = 0;
        let mut i: usize = 0;
        assert(layers@.subrange(0, 1).len() < 2);
        while i + 1 < layers.len()
            invariant
                i + 1 <= layers@.len(),
                layers@.len() >= 2,
                weights@.len() == parameter_count(layers@),
                len == weights@.len(),
                count == layers@.len(),
                pos == parameter_count(layers@.subrange(0, i + 1)),
                built@.len() == i,
                forall|j: int|
                    0 <= j < i ==> layer_has_shape(
                        (#[trigger] built@[j])@,
                        layers@[j].neurons as nat,
                        layers@[j + 1].neurons as nat,
                    ),
                network_flat(built@.map_values(|l: Layer<W>| l@)) == weights@.subrange(
                    0,
                    pos as int,
                ),
            decreases layers@.len() - i,
        {
            let inputs = layers[i].neurons;
            let outputs = layers[i + 1].neurons;
            proof {
                lemma_parameter_count_step(layers@, i as int);
                lemma_parameter_count_prefix(layers@, i + 2);
            }
            let layer = Layer::from_weights(inputs, outputs, &weights, pos);
            let ghost before = built@.map_values(|l: Layer<W>| l@);
            built.push(layer);
            assert(built@.map_values(|l: Layer<W>| l@) =~= before.push(layer@));
            proof {
                lemma_network_flat_push(before, layer@);
            }
            let step: usize = if outputs == 0 {
                0
            } else {
                assert(inputs + 1 <= outputs * (inputs + 1)) by (nonlinear_arith)
                    requires
                        outputs >= 1,
                ;
                outputs * (inputs + 1)
            };
            assert(weights@.subrange(0, pos + step) =~= weights@.subrange(0, pos as int)
                + weights@.subrange(pos as int, pos + step));
            pos = pos + step;
            i = i + 1;
        }
        assert(layers@.subrange(0, i + 1) =~= layers@);
        assert(weights@.subrange(0, pos as int) =~= weights@);
        let net = Network { layers: built };
        assert(has_shape(net@, layers@)) by {
            assert forall|j: int| 0 <= j < net@.len() implies layer_has_shape(
                #[trigger] net@[j],
                layers@[j].neurons as nat,
                layers@[j + 1].neurons as nat,
            ) by {
                assert(net@[j] == net.layers@[j]@);
            }
        }
        proof {
            lemma_round_trip(layers@, weights@);
            lemma_flat_determines_network(net@, network_from_flat(layers@, weights@), layers@);
        }
        Ok(net)
    }
}

/// How many parameters a network of the given topology holds, or `None` where
/// that number does not fit in a `usize`.
pub fn parameter_total(layers: &[LayerTopology]) -> (r: Option<usize>)
    ensures
        match r {
            Some(n) => n == parameter_count(layers@),
            None => parameter_count(layers@) > usize::MAX,
        },
{
    if layers.len() < 2 {
        return Some(0);
    }
    let count = layers.len();
    let mut total: usize = 0;
    let mut i: usize = 0;
    assert(layers@.subrange(0, 1).len() < 2);
    while i + 1 < count
        invariant
            i + 1 <= layers@.len(),
            count == layers@.len(),
            total == parameter_count(layers@.subrange(0, i + 1)),
        decreases layers@.len() - i,
    {
        let inputs = layers[i].neurons;
        let outputs = layers[i + 1].neurons;
        proof {
            lemma_parameter_count_step(layers@, i as int);
            lemma_parameter_count_prefix(layers@, i + 2);
        }
        if outputs != 0 {
            let width = match inputs.checked_add(1) {
                None => {
                    assert(outputs * (inputs + 1) >= inputs + 1) by (nonlinear_arith)
                        requires
                            outputs >= 1,
                    ;
                    return None;
                },
                Some(w) => w,
            };
            let step = match outputs.checked_mul(width) {
                None => return None,
                Some(s) => s,
            };
            total = match total.checked_add(step) {
                None => return None,
                Some(t) => t,
            };
        } else {
            assert(outputs * (inputs + 1) == 0) by (nonlinear_arith)
                requires
                    outputs == 0,
            ;
        }
        i = i + 1;
    }
    assert(layers@.subrange(0, i + 1) =~= layers@);
    Some(total)
}

impl<W: Weight> Neuron<W> {
    /// A neuron with `inputs` weights; the bias is drawn first, then the
    /// weights in input order.
    pub fn random(inputs: usize, rng: &mut ChaCha8Rng) -> (r: Self)
        ensures
            r@.1.len() == inputs,
    {
        let bias = W::draw(rng);
        let mut weights: Vec<W> = Vec::new();
        let mut j: usize = 0;
        while j < inputs
            invariant
                j <= inputs,
                weights@.len() == j,
            decreases inputs - j,
        {
            weights.push(W::draw(rng));
            j = j + 1;
        }
        Neuron { bias, weights }
    }

    /// The rectified sum of the bias and of each input times its weight,
    /// accumulated in input order from zero; inputs beyond the weights are
    /// ignored.
    pub fn propagate(&self, inputs: &[W]) -> (r: W)
        ensures
            r == neuron_output(self@, inputs@),
    {
        let n = if inputs.len() < self.weights.len() {
            inputs.len()
        } else {
            self.weights.len()
        };
        let mut output = W::zero();
        let mut j: usize = 0;
        while j < n
            invariant
                j <= n,
                n <= inputs@.len(),
                n <= self.weights@.len(),
                output == weighted_sum(inputs@, self.weights@, j as nat),
            decreases n - j,
        {
            output = output.plus(inputs[j].times(self.weights[j]));
            j = j + 1;
        }
        self.bias.plus(output).relu()
    }
}

impl<W: Weight> Layer<W> {
    /// `outputs` random neurons with `inputs` weights each, drawn one neuron
    /// after another.
    pub fn random(inputs: usize, outputs: usize, rng: &mut ChaCha8Rng) -> (r: Self)
        ensures
            layer_has_shape(r@, inputs as nat, outputs as nat),
    {
        let mut neurons: Vec<Neuron<W>> = Vec::new();
        let mut k: usize = 0;
        while k < outputs
            invariant
                k <= outputs,
                neurons@.len() == k,
                forall|m: int| 0 <= m < k ==> (#[trigger] neurons@[m])@.1.len() == inputs,
            decreases outputs - k,
        {
            neurons.push(Neuron::random(inputs, rng));
            k = k + 1;
        }
        let r = Layer { neurons };
        assert forall|m: int| 0 <= m < r@.len() implies (#[trigger] r@[m]).1.len() == inputs by {
            assert(r@[m] == r.neurons@[m]@);
        }
        r
    }

    /// One output per neuron, in neuron order, each neuron fed all of
    /// `inputs`.
    pub fn propagate(&self, inputs: Vec<W>) -> (r: Vec<W>)
        ensures
            r@ == layer_output(self@, inputs@),
    {
        let mut outputs: Vec<W> = Vec::new();
        let mut k: usize = 0;
        while k < self.neurons.len()
            invariant
                k <= self.neurons@.len(),
                outputs@.len() == k,
                forall|m: int|
                    0 <= m < k ==> #[trigger] outputs@[m] == neuron_output(self.neurons@[m]@, inputs@),
            decreases self.neurons@.len() - k,
        {
            outputs.push(self.neurons[k].propagate(inputs.as_slice()));
            k = k + 1;
        }
        assert(outputs@ =~= layer_output(self@, inputs@));
        outputs
    }
}

impl<W: Weight> Network<W> {
    /// A network of the given topology with every bias and weight drawn at
    /// random, in the flat order: layer by layer, and within a neuron the
    /// bias before the weights. The draws are read back by
    /// [`Network::from_weights`].
    pub fn random(layers: &[LayerTopology], rng: &mut ChaCha8Rng) -> (r: Self)
        requires
            layers@.len() >= 2,
            parameter_count(layers@) <= usize::MAX,
        ensures
            has_shape(r@, layers@),
            exists|draws: Seq<W>|
                draws.len() == parameter_count(layers@) && #[trigger] network_from_flat(
                    layers@,
                    draws,
                ) == r@,
    {
        let count = match parameter_total(layers) {
            Some(n) => n,
            None => 0,
        };
        let mut draws: Vec<W> = Vec::new();
        let mut i: usize = 0;
        while i < count
            invariant
                i <= count,
                draws@.len() == i,
            decreases count - i,
        {
            draws.push(W::draw(rng));
            i = i + 1;
        }
        let ghost drawn = draws@;
        match Network::from_weights(layers, draws) {
            Ok(net) => {
                assert(network_from_flat(layers@, drawn) == net@);
                net
            },
            Err(_) => vstd::pervasive::unreached(),
        }
    }

    /// Feeds `inputs` through every layer in order: one output per neuron of
    /// the last layer.
    pub fn propagate(&self, inputs: Vec<W>) -> (r: Vec<W>)
        ensures
            r@ == network_output(self@, inputs@),
            self@.len() > 0 ==> r@.len() == self@.last().len(),
    {
        let ghost start = inputs@;
        let mut values = inputs;
        let mut i: usize = 0;
        assert(self@.subrange(0, 0).len() == 0);
        while i < self.layers.len()
            invariant
                i <= self.layers@.len(),
                values@ == network_output(self@.subrange(0, i as int), start),
            decreases self.layers@.len() - i,
        {
            values = self.layers[i].propagate(values);
            proof {
                let prefix = self@.subrange(0, i + 1);
                assert(prefix.drop_last() =~= self@.subrange(0, i as int));
                assert(prefix.last() == self.layers@[i as int]@);
            }
            i = i + 1;
        }
        assert(self@.subrange(0, i as int) =~= self@);
        values
    }
}

} // verus!
