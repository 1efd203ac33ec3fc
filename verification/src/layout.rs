//! The geometry of the encoder's inputs, outputs and caches.

use crate::error::{Error, ErrorView};
use crate::tensor::{addressable, can_address, nonempty_size};
use crate::text::{decimal, show_decimal, show_signed, signed_decimal};
use vstd::prelude::*;

verus! {

/// How the encoder passes its attention cache from one run to the next.
#[derive(Clone, Copy, Debug, PartialEq, Eq, Structural)]
pub enum EncoderCacheAbi {
    /// The cache holds raw channel activations.
    RawChannel,
    /// The cache holds projected keys and values of all layers in one tensor each.
    ProjectedKvStacked,
    /// The cache holds projected keys and values in one tensor per layer.
    ProjectedKvLayered,
}

/// The lengths that fix the shapes of all tensors of the encoder.
#[derive(Clone, Copy, Debug, PartialEq, Eq, Structural)]
pub struct EncoderLayout {
    pub batch: usize,
    pub n_mels: usize,
    pub input_frames: usize,
    pub output_frames: usize,
    pub num_layers: usize,
    pub cache_len: usize,
    pub hidden_size: usize,
    pub time_cache_len: usize,
}

/// The layout as a LiteRT encoder reports it.
#[derive(Clone, Copy, Debug, PartialEq, Eq, Structural)]
pub struct LiteRtEncoderLayout {
    pub batch: i64,
    pub n_mels: i64,
    pub input_frames: i64,
    pub output_frames: i64,
    pub num_layers: i64,
    pub cache_len: i64,
    pub hidden_size: i64,
    pub time_cache_len: i64,
    pub cache_abi: i64,
}

impl LiteRtEncoderLayout {
    /// The lengths with their names, in the order in which they are checked.
    pub open spec fn lengths(self) -> Seq<(Seq<char>, int)> {
        seq![
            ("batch"@, self.batch as int),
            ("n_mels"@, self.n_mels as int),
            ("input_frames"@, self.input_frames as int),
            ("output_frames"@, self.output_frames as int),
            ("num_layers"@, self.num_layers as int),
            ("cache_len"@, self.cache_len as int),
            ("hidden_size"@, self.hidden_size as int),
            ("time_cache_len"@, self.time_cache_len as int),
        ]
    }

    /// Every length is positive.
    pub open spec fn is_positive(self) -> bool {
        forall|i: int| 0 <= i < self.lengths().len() ==> (#[trigger] self.lengths()[i]).1 > 0
    }

    /// The position of the first length that is not positive.
    pub open spec fn is_first_invalid(self, i: int) -> bool {
        &&& 0 <= i < self.lengths().len()
        &&& self.lengths()[i].1 <= 0
        &&& forall|j: int| 0 <= j < i ==> (#[trigger] self.lengths()[j]).1 > 0
    }

    /// The same lengths as unsigned numbers.
    pub open spec fn unsigned(self) -> EncoderLayout {
        EncoderLayout {
            batch: self.batch as usize,
            n_mels: self.n_mels as usize,
            input_frames: self.input_frames as usize,
            output_frames: self.output_frames as usize,
            num_layers: self.num_layers as usize,
            cache_len: self.cache_len as usize,
            hidden_size: self.hidden_size as usize,
            time_cache_len: self.time_cache_len as usize,
        }
    }
}

/// The message about the length `name` that is not positive.
pub open spec fn invalid_length_message(name: Seq<char>, value: int) -> Seq<char> {
    "LiteRT encoder layout has invalid "@ + name + "="@ + signed_decimal(value)
}

/// The message about an attention cache of an unknown kind.
pub open spec fn unsupported_abi_message(value: int) -> Seq<char> {
    "LiteRT encoder reported unsupported cache ABI "@ + signed_decimal(value)
}

fn positive_length(name: &str, value: i64) -> (r: Result<(), Error>)
    ensures
        r is Ok <==> value > 0,
        r matches Err(e) ==> e@ == ErrorView::Model(
            invalid_length_message(name@, value as int),
        ),
{
    if value > 0 {
        Ok(())
    } else {
        let mut m = "LiteRT encoder layout has invalid ".to_owned();
        m.append(name);
        m.append("=");
        m.append(show_signed(value).as_str());
        Err(Error::Model(m))
    }
}

/// The kind of attention cache that `value` stands for.
pub fn litert_cache_abi_from_i64(value: i64) -> (r: Result<EncoderCacheAbi, Error>)
    ensures
        value == 0 ==> r == Ok::<EncoderCacheAbi, Error>(EncoderCacheAbi::RawChannel),
        value == 2 ==> r == Ok::<EncoderCacheAbi, Error>(EncoderCacheAbi::ProjectedKvLayered),
        r is Ok <==> value == 0 || value == 2,
        r matches Err(e) ==> e@ == ErrorView::Model(unsupported_abi_message(value as int)),
{
    if value == 0 {
        Ok(EncoderCacheAbi::RawChannel)
    } else if value == 2 {
        Ok(EncoderCacheAbi::ProjectedKvLayered)
    } else {
        let mut m = "LiteRT encoder reported unsupported cache ABI ".to_owned();
        m.append(show_signed(value).as_str());
        Err(Error::Model(m))
    }
}

proof fn lemma_nonempty_product(shape: Seq<usize>, a: nat, b: nat, c: nat, d: nat)
    requires
        shape.len() == 4,
        a == shape[0],
        b == shape[1],
        c == shape[2],
        d == shape[3],
    ensures
        b * c <= nonempty_size(shape),
        b * c * d <= nonempty_size(shape),
        a * (b * c * d) <= nonempty_size(shape),
        c <= nonempty_size(shape),
{
    reveal_with_fuel(nonempty_size, 5);
    let first = |x: nat| if x == 0 {
        1nat
    } else {
        x
    };
    let (p, q, r, s) = (first(a), first(b), first(c), first(d));
    assert(shape.drop_last().drop_last().drop_last().drop_last().len() == 0);
    assert(nonempty_size(shape) == 1 * p * q * r * s) by (nonlinear_arith)
        requires
            nonempty_size(shape) == (if d == 0 {
                nonempty_size(shape.drop_last())
            } else {
                nonempty_size(shape.drop_last()) * d
            }),
            nonempty_size(shape.drop_last()) == (if c == 0 {
                nonempty_size(shape.drop_last().drop_last())
            } else {
                nonempty_size(shape.drop_last().drop_last()) * c
            }),
            nonempty_size(shape.drop_last().drop_last()) == (if b == 0 {
                nonempty_size(shape.drop_last().drop_last().drop_last())
            } else {
                nonempty_size(shape.drop_last().drop_last().drop_last()) * b
            }),
            nonempty_size(shape.drop_last().drop_last().drop_last()) == (if a == 0 {
                1
            } else {
                1 * a
            }),
            p == (if a == 0 {
                1
            } else {
                a
            }),
            q == (if b == 0 {
                1
            } else {
                b
            }),
            r == (if c == 0 {
                1
            } else {
                c
            }),
            s == (if d == 0 {
                1
            } else {
                d
            }),
    ;
    lemma_product_bounds(a, b, c, d, p, q, r, s);
}

proof fn lemma_product_bounds(
    a: nat,
    b: nat,
    c: nat,
    d: nat,
    p: nat,
    q: nat,
    r: nat,
    s: nat,
)
    requires
        a <= p,
        b <= q,
        c <= r,
        d <= s,
        1 <= p,
        1 <= q,
        1 <= r,
        1 <= s,
    ensures
        b * c <= p * q * r * s,
        b * c * d <= p * q * r * s,
        a * (b * c * d) <= p * q * r * s,
        c <= p * q * r * s,
{
    let whole = p * q * r * s;
    assert(whole == p * (q * r * s)) by (nonlinear_arith)
        requires
            whole == p * q * r * s,
    ;
    assert(b * c <= q * r) by (nonlinear_arith)
        requires
            b <= q,
            c <= r,
    ;
    assert(b * c * d <= q * r * s) by (nonlinear_arith)
        requires
            b * c <= q * r,
            d <= s,
    ;
    assert(a * (b * c * d) <= p * (q * r * s)) by (nonlinear_arith)
        requires
            a <= p,
            b * c * d <= q * r * s,
    ;
    assert(q * r <= q * r * s) by (nonlinear_arith)
        requires
            1 <= s,
    ;
    assert(q * r * s <= p * (q * r * s)) by (nonlinear_arith)
        requires
            1 <= p,
    ;
    assert(r <= q * r) by (nonlinear_arith)
        requires
            1 <= q,
    ;
}

/// Where the attention caches and what one run projects can be addressed, their sizes
/// and those of their layers are machine numbers.
pub proof fn addressable_layouts_have_bounded_layers(layout: EncoderLayout)
    requires
        addressable(layout.cache_shape()),
        addressable(layout.current_shape()),
    ensures
        layout.batch * layout.cache_len <= isize::MAX,
        layout.cache_layer_size() <= isize::MAX,
        layout.num_layers * layout.cache_layer_size() <= isize::MAX,
        layout.batch * layout.output_frames <= isize::MAX,
        layout.current_layer_size() <= isize::MAX,
        layout.num_layers * layout.current_layer_size() <= isize::MAX,
        layout.output_frames <= isize::MAX,
{
    lemma_nonempty_product(
        layout.cache_shape(),
        layout.num_layers as nat,
        layout.batch as nat,
        layout.cache_len as nat,
        layout.hidden_size as nat,
    );
    lemma_nonempty_product(
        layout.current_shape(),
        layout.num_layers as nat,
        layout.batch as nat,
        layout.output_frames as nat,
        layout.hidden_size as nat,
    );
}

impl EncoderLayout {
    /// The shape of the channel cache and of the projected key and value caches.
    pub open spec fn cache_shape(self) -> Seq<usize> {
        seq![self.num_layers, self.batch, self.cache_len, self.hidden_size]
    }

    /// The shape of the time cache.
    pub open spec fn time_shape(self) -> Seq<usize> {
        seq![self.num_layers, self.batch, self.hidden_size, self.time_cache_len]
    }

    /// The shape of the keys and values that one run projects.
    pub open spec fn current_shape(self) -> Seq<usize> {
        seq![self.num_layers, self.batch, self.output_frames, self.hidden_size]
    }

    /// The shape of the encoder's input.
    pub open spec fn features_shape(self) -> Seq<usize> {
        seq![self.batch, self.n_mels, self.input_frames]
    }

    /// The shape of the encoder's output.
    pub open spec fn output_shape(self) -> Seq<usize> {
        seq![self.batch, self.hidden_size, self.output_frames]
    }

    /// The shape of one frame of the encoder's output.
    pub open spec fn frame_shape(self) -> Seq<usize> {
        seq![self.batch, self.hidden_size, 1usize]
    }

    /// All tensors of this layout can be addressed.
    pub open spec fn is_addressable(self) -> bool {
        &&& addressable(self.cache_shape())
        &&& addressable(self.time_shape())
        &&& addressable(self.current_shape())
        &&& addressable(self.features_shape())
        &&& addressable(self.output_shape())
        &&& addressable(self.frame_shape())
        &&& self.batch * 8 <= isize::MAX
    }

    /// The buffers that a model keeps for its runs can be addressed.
    pub open spec fn model_is_addressable(self) -> bool {
        &&& addressable(self.current_shape())
        &&& self.batch * 8 <= isize::MAX
    }

    /// The number of words that one layer of a projected cache holds.
    pub open spec fn cache_layer_size(self) -> nat {
        self.batch as nat * self.cache_len as nat * self.hidden_size as nat
    }

    /// The number of words that one run projects for one layer.
    pub open spec fn current_layer_size(self) -> nat {
        self.batch as nat * self.output_frames as nat * self.hidden_size as nat
    }

    /// Whether all tensors of this layout can be addressed.
    pub fn can_be_addressed(&self) -> (r: bool)
        ensures
            r == self.is_addressable(),
    {
        let caches = [self.num_layers, self.batch, self.cache_len, self.hidden_size];
        let times = [self.num_layers, self.batch, self.hidden_size, self.time_cache_len];
        let currents = [self.num_layers, self.batch, self.output_frames, self.hidden_size];
        let features = [self.batch, self.n_mels, self.input_frames];
        let outputs = [self.batch, self.hidden_size, self.output_frames];
        let frames = [self.batch, self.hidden_size, 1usize];
        assert(caches@ =~= self.cache_shape());
        assert(times@ =~= self.time_shape());
        assert(currents@ =~= self.current_shape());
        assert(features@ =~= self.features_shape());
        assert(outputs@ =~= self.output_shape());
        assert(frames@ =~= self.frame_shape());
        can_address(&caches) && can_address(&times) && can_address(&currents) && can_address(
            &features,
        ) && can_address(&outputs) && can_address(&frames) && self.batch <= isize::MAX as usize / 8
    }

    /// Whether the buffers that a model keeps for its runs can be addressed.
    pub fn model_can_be_addressed(&self) -> (r: bool)
        ensures
            r == self.model_is_addressable(),
    {
        let currents = [self.num_layers, self.batch, self.output_frames, self.hidden_size];
        assert(currents@ =~= self.current_shape());
        can_address(&currents) && self.batch <= isize::MAX as usize / 8
    }

    /// The number of words that one layer of a projected cache holds.
    pub fn projected_cache_layer_values(&self) -> (r: usize)
        requires
            self.batch * self.cache_len <= usize::MAX,
            self.cache_layer_size() <= usize::MAX,
        ensures
            r == self.cache_layer_size(),
    {
        self.batch * self.cache_len * self.hidden_size
    }

    /// The number of words that one run projects for one layer.
    pub fn projected_current_layer_values(&self) -> (r: usize)
        requires
            self.batch * self.output_frames <= usize::MAX,
            self.current_layer_size() <= usize::MAX,
        ensures
            r == self.current_layer_size(),
    {
        self.batch * self.output_frames * self.hidden_size
    }

    /// Checks the lengths that a LiteRT encoder reports, in their order.
    pub fn try_from(value: LiteRtEncoderLayout) -> (r: Result<EncoderLayout, Error>)
        ensures
            r is Ok <==> value.is_positive(),
            r matches Ok(layout) ==> layout == value.unsigned(),
            r matches Err(e) ==> exists|i: int| #[trigger]
                value.is_first_invalid(i) && e@ == ErrorView::Model(
                    invalid_length_message(value.lengths()[i].0, value.lengths()[i].1),
                ),
    {
        if let Err(e) = positive_length("batch", value.batch) {
            assert(value.is_first_invalid(0));
            return Err(e);
        }
        if let Err(e) = positive_length("n_mels", value.n_mels) {
            assert(value.is_first_invalid(1));
            return Err(e);
        }
        if let Err(e) = positive_length("input_frames", value.input_frames) {
            assert(value.is_first_invalid(2));
            return Err(e);
        }
        if let Err(e) = positive_length("output_frames", value.output_frames) {
            assert(value.is_first_invalid(3));
            return Err(e);
        }
        if let Err(e) = positive_length("num_layers", value.num_layers) {
            assert(value.is_first_invalid(4));
            return Err(e);
        }
        if let Err(e) = positive_length("cache_len", value.cache_len) {
            assert(value.is_first_invalid(5));
            return Err(e);
        }
        if let Err(e) = positive_length("hidden_size", value.hidden_size) {
            assert(value.is_first_invalid(6));
            return Err(e);
        }
        if let Err(e) = positive_length("time_cache_len", value.time_cache_len) {
            assert(value.is_first_invalid(7));
            return Err(e);
        }
        Ok(
            EncoderLayout {
                batch: value.batch as usize,
                n_mels: value.n_mels as usize,
                input_frames: value.input_frames as usize,
                output_frames: value.output_frames as usize,
                num_layers: value.num_layers as usize,
                cache_len: value.cache_len as usize,
                hidden_size: value.hidden_size as usize,
                time_cache_len: value.time_cache_len as usize,
            },
        )
    }
}

/// The layout as it is shown in messages.
pub open spec fn layout_text(layout: EncoderLayout) -> Seq<char> {
    "EncoderLayout { batch: "@ + decimal(layout.batch as nat) + ", n_mels: "@ + decimal(
        layout.n_mels as nat,
    ) + ", input_frames: "@ + decimal(layout.input_frames as nat) + ", output_frames: "@ + decimal(
        layout.output_frames as nat,
    ) + ", num_layers: "@ + decimal(layout.num_layers as nat) + ", cache_len: "@ + decimal(
        layout.cache_len as nat,
    ) + ", hidden_size: "@ + decimal(layout.hidden_size as nat) + ", time_cache_len: "@ + decimal(
        layout.time_cache_len as nat,
    ) + " }"@
}

/// The layout as it is shown in messages.
pub fn show_layout(layout: EncoderLayout) -> (r: String)
    ensures
        r@ == layout_text(layout),
{
    let mut m = "EncoderLayout { batch: ".to_owned();
    m.append(show_decimal(layout.batch as u128).as_str());
    m.append(", n_mels: ");
    m.append(show_decimal(layout.n_mels as u128).as_str());
    m.append(", input_frames: ");
    m.append(show_decimal(layout.input_frames as u128).as_str());
    m.append(", output_frames: ");
    m.append(show_decimal(layout.output_frames as u128).as_str());
    m.append(", num_layers: ");
    m.append(show_decimal(layout.num_layers as u128).as_str());
    m.append(", cache_len: ");
    m.append(show_decimal(layout.cache_len as u128).as_str());
    m.append(", hidden_size: ");
    m.append(show_decimal(layout.hidden_size as u128).as_str());
    m.append(", time_cache_len: ");
    m.append(show_decimal(layout.time_cache_len as u128).as_str());
    m.append(" }");
    m
}

/// A layout fixes the axes of every tensor, and the sizes of the layers of the caches.
pub proof fn layouts_fix_the_axes(
    layout: EncoderLayout,
    cache_layer: usize,
    current_layer: usize,
)
    requires
        call_ensures(EncoderLayout::projected_cache_layer_values, (&layout,), cache_layer),
        call_ensures(EncoderLayout::projected_current_layer_values, (&layout,), current_layer),
    ensures
        layout.cache_shape() == seq![
            layout.num_layers,
            layout.batch,
            layout.cache_len,
            layout.hidden_size,
        ],
        layout.time_shape() == seq![
            layout.num_layers,
            layout.batch,
            layout.hidden_size,
            layout.time_cache_len,
        ],
        layout.current_shape() == seq![
            layout.num_layers,
            layout.batch,
            layout.output_frames,
            layout.hidden_size,
        ],
        layout.features_shape() == seq![layout.batch, layout.n_mels, layout.input_frames],
        layout.output_shape() == seq![layout.batch, layout.hidden_size, layout.output_frames],
        layout.frame_shape() == seq![layout.batch, layout.hidden_size, 1usize],
        cache_layer == layout.batch * layout.cache_len * layout.hidden_size,
        current_layer == layout.batch * layout.output_frames * layout.hidden_size,
{
}

/// A reported layout is taken over length by length where all eight are positive. Else
/// the first that is not is named, in the order in which they are reported.
pub proof fn reported_lengths_are_taken_over(
    value: LiteRtEncoderLayout,
    r: Result<EncoderLayout, Error>,
)
    requires
        call_ensures(EncoderLayout::try_from, (value,), r),
    ensures
        r is Ok <==> value.batch > 0 && value.n_mels > 0 && value.input_frames > 0
            && value.output_frames > 0 && value.num_layers > 0 && value.cache_len > 0
            && value.hidden_size > 0 && value.time_cache_len > 0,
        r matches Ok(layout) ==> {
            &&& layout.batch == value.batch as usize
            &&& layout.n_mels == value.n_mels as usize
            &&& layout.input_frames == value.input_frames as usize
            &&& layout.output_frames == value.output_frames as usize
            &&& layout.num_layers == value.num_layers as usize
            &&& layout.cache_len == value.cache_len as usize
            &&& layout.hidden_size == value.hidden_size as usize
            &&& layout.time_cache_len == value.time_cache_len as usize
        },
        r matches Err(e) ==> ({
            let (name, length) = if value.batch <= 0 {
                ("batch"@, value.batch)
            } else if value.n_mels <= 0 {
                ("n_mels"@, value.n_mels)
            } else if value.input_frames <= 0 {
                ("input_frames"@, value.input_frames)
            } else if value.output_frames <= 0 {
                ("output_frames"@, value.output_frames)
            } else if value.num_layers <= 0 {
                ("num_layers"@, value.num_layers)
            } else if value.cache_len <= 0 {
                ("cache_len"@, value.cache_len)
            } else if value.hidden_size <= 0 {
                ("hidden_size"@, value.hidden_size)
            } else {
                ("time_cache_len"@, value.time_cache_len)
            };
            e@ == ErrorView::Model(
                "LiteRT encoder layout has invalid "@ + name + "="@ + signed_decimal(length as int),
            )
        }),
{
    let all = value.lengths();
    assert(all.len() == 8);
    if value.batch > 0 && value.n_mels > 0 && value.input_frames > 0 && value.output_frames > 0
        && value.num_layers > 0 && value.cache_len > 0 && value.hidden_size > 0
        && value.time_cache_len > 0 {
        assert forall|i: int| 0 <= i < 8 implies (#[trigger] all[i]).1 > 0 by {}
        assert(value.is_positive());
    } else {
        assert(all[0].1 == value.batch && all[1].1 == value.n_mels && all[2].1
            == value.input_frames && all[3].1 == value.output_frames && all[4].1
            == value.num_layers && all[5].1 == value.cache_len && all[6].1 == value.hidden_size
            && all[7].1 == value.time_cache_len);
        assert(!value.is_positive());
    }
}

/// Number 0 stands for raw channel caches and 2 for projected ones per layer; no other
/// number is known.
pub proof fn two_cache_kinds_have_a_number(value: i64, r: Result<EncoderCacheAbi, Error>)
    requires
        call_ensures(litert_cache_abi_from_i64, (value,), r),
    ensures
        r is Ok <==> value == 0 || value == 2,
        value == 0 ==> r->Ok_0 == EncoderCacheAbi::RawChannel,
        value == 2 ==> r->Ok_0 == EncoderCacheAbi::ProjectedKvLayered,
        r matches Err(e) ==> e@ == ErrorView::Model(
            "LiteRT encoder reported unsupported cache ABI "@ + signed_decimal(value as int),
        ),
{
}

/// The layout is shown with every length under its name.
pub proof fn layouts_are_shown_in_full(layout: EncoderLayout, r: String)
    requires
        call_ensures(show_layout, (layout,), r),
    ensures
        r@ == "EncoderLayout { batch: "@ + decimal(layout.batch as nat) + ", n_mels: "@ + decimal(
            layout.n_mels as nat,
        ) + ", input_frames: "@ + decimal(layout.input_frames as nat) + ", output_frames: "@
            + decimal(layout.output_frames as nat) + ", num_layers: "@ + decimal(
            layout.num_layers as nat,
        ) + ", cache_len: "@ + decimal(layout.cache_len as nat) + ", hidden_size: "@ + decimal(
            layout.hidden_size as nat,
        ) + ", time_cache_len: "@ + decimal(layout.time_cache_len as nat) + " }"@,
{
}

/// A layout can be addressed exactly where each of its six tensors can, and the lengths of
/// the cache of every batch item.
pub proof fn layouts_are_addressed_tensor_by_tensor(
    layout: &EncoderLayout,
    cache: &[usize],
    time: &[usize],
    current: &[usize],
    features: &[usize],
    output: &[usize],
    frame: &[usize],
    each: (bool, bool, bool, bool, bool, bool),
    r: bool,
    model: bool,
)
    requires
        call_ensures(EncoderLayout::can_be_addressed, (layout,), r),
        call_ensures(EncoderLayout::model_can_be_addressed, (layout,), model),
        cache@ == seq![layout.num_layers, layout.batch, layout.cache_len, layout.hidden_size],
        time@ == seq![layout.num_layers, layout.batch, layout.hidden_size, layout.time_cache_len],
        current@ == seq![
            layout.num_layers,
            layout.batch,
            layout.output_frames,
            layout.hidden_size,
        ],
        features@ == seq![layout.batch, layout.n_mels, layout.input_frames],
        output@ == seq![layout.batch, layout.hidden_size, layout.output_frames],
        frame@ == seq![layout.batch, layout.hidden_size, 1usize],
        call_ensures(can_address, (cache,), each.0),
        call_ensures(can_address, (time,), each.1),
        call_ensures(can_address, (current,), each.2),
        call_ensures(can_address, (features,), each.3),
        call_ensures(can_address, (output,), each.4),
        call_ensures(can_address, (frame,), each.5),
    ensures
        r <==> each.0 && each.1 && each.2 && each.3 && each.4 && each.5 && layout.batch * 8
            <= isize::MAX,
        model <==> each.2 && layout.batch * 8 <= isize::MAX,
{
}

} // verus!
