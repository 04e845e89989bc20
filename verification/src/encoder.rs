//! The command encoder: the three streams of a command list, the relocation list and
//! the cached fixed-function state, built up call by call over one pass.

use crate::card::{drm_vc4_submit_rcl_surface, SubmitClArgs};
use crate::cl::{
    le_bytes_u32, spec_div_round_up, write_u32_le, AttributeRecord, BinClStructure, ClipWindow,
    ClipperXYScaling, ClipperZScaleAndOffset, CompareFunction, ConfigurationBits, DepthOffset,
    FlatShadeFlags, Flush, GemRelocations, GlShaderRecord, GlShaderState, IncrementSemaphore,
    IndexType, IndexedPrimitiveList, LineWidth, PointSize, PrimitiveMode, StartTileBinning,
    TextureConfigUniform, TileBinningModeConfiguration, TileBlockSize, V3D21_FLUSH,
    V3D21_INCREMENT_SEMAPHORE, V3D21_START_TILE_BINNING, V3D21_TILE_BINNING_MODE_CONFIGURATION,
    VertexArrayPrimitives, ViewportOffset,
};
use crate::relocation::{
    lemma_relocated_all_bound, lemma_relocated_all_grows, lemma_relocated_push, relocated,
    relocated_all, relocation_index, relocation_indices, RelocationTable,
};
use vstd::arithmetic::power2::*;
use vstd::bits::*;
use vstd::prelude::*;

verus! {

/// A buffer of GPU memory: the kernel's handle of the allocation, which is its
/// identity, and its size in bytes.
#[derive(Clone, Copy, Debug, PartialEq, Eq, Structural)]
pub struct Buffer {
    pub handle: u32,
    pub size: u32,
}

impl Buffer {
    /// The buffer with the given handle and size.
    pub fn new(handle: u32, size: u32) -> (buffer: Buffer)
        ensures
            buffer == (Buffer { handle, size }),
    {
        Buffer { handle, size }
    }

    /// The kernel's handle of the allocation.
    pub fn handle(&self) -> (handle: u32)
        ensures
            handle == self.handle,
    {
        self.handle
    }

    /// The size of the allocation in bytes.
    pub fn size(&self) -> (size: u32)
        ensures
            size == self.size,
    {
        self.size
    }
}

/// One attribute array of a shader: the buffer it reads, its layout, and the stages
/// that read it.
#[derive(Clone, Copy, Debug, PartialEq, Eq, Structural)]
pub struct ShaderAttribute {
    pub buffer: Buffer,
    pub record: AttributeRecord,
    pub vs: bool,
    pub cs: bool,
}

/// A texture that a shader samples: the buffer that holds it and its configuration.
#[derive(Clone, Copy, Debug, PartialEq, Eq, Structural)]
pub struct TextureUniform {
    pub buffer: Buffer,
    pub config: TextureConfigUniform,
}

/// One uniform of a shader: a texture or a constant word.
#[derive(Clone, Copy, Debug, PartialEq, Eq, Structural)]
pub enum ShaderUniform {
    Texture(TextureUniform),
    Constant(u32),
}

/// The greatest `e` with `2^e <= v`, for a positive `v`.
pub open spec fn floor_log2(v: int) -> nat
    decreases v,
{
    if v <= 1 {
        0
    } else {
        1 + floor_log2(v / 2)
    }
}

/// The bits of the IEEE 754 single-precision number that equals the integer `v`, for
/// `0 <= v < 2^24`: zero for zero; else the exponent of the leading bit, biased by
/// 127, above the 23 bits that follow the leading bit.
pub open spec fn single_precision_bits(v: int) -> int {
    if v <= 0 {
        0
    } else {
        let e = floor_log2(v);
        (127 + e) * 0x80_0000 + (v - pow2(e)) * pow2((23 - e) as nat)
    }
}

/// A number between two consecutive powers of two has the lower exponent as its
/// logarithm.
pub proof fn lemma_floor_log2(v: int, e: nat)
    requires
        pow2(e) <= v < pow2(e + 1),
    ensures
        floor_log2(v) == e,
    decreases e,
{
    lemma2_to64();
    if e == 0 {
    } else {
        lemma_pow2_unfold(e);
        lemma_pow2_unfold(e + 1);
        lemma_pow2_pos((e - 1) as nat);
        lemma_floor_log2(v / 2, (e - 1) as nat);
    }
}

/// The bits of the single-precision number that equals `v`.
pub fn single_precision_bits_of(v: u16) -> (bits: u32)
    ensures
        bits == single_precision_bits(v as int),
{
    if v == 0 {
        return 0;
    }
    let mut e: u32 = 0;
    proof {
        lemma2_to64();
    }
    while e < 15 && (v >> ((e + 1) as u16)) != 0
        invariant
            e <= 15,
            pow2(e as nat) <= v,
        decreases 15 - e,
    {
        proof {
            lemma_u16_shr_is_div(v, (e + 1) as u16);
            lemma_pow2_pos((e + 1) as nat);
            let p = pow2((e + 1) as nat) as int;
            if v < p {
                vstd::arithmetic::div_mod::lemma_basic_div(v as int, p);
            }
        }
        e += 1;
    }
    proof {
        if e < 15 {
            lemma_u16_shr_is_div(v, (e + 1) as u16);
            lemma_pow2_pos((e + 1) as nat);
            let p = pow2((e + 1) as nat) as int;
            if v >= p {
                vstd::arithmetic::div_mod::lemma_div_is_ordered(p, v as int, p);
                vstd::arithmetic::div_mod::lemma_div_basics(p);
            }
        }
        lemma_floor_log2(v as int, e as nat);
        lemma_u32_shl_is_mul(1, e);
        lemma_pow2_adds(e as nat, (23 - e) as nat);
        lemma_pow2_pos((23 - e) as nat);
        assert((v - pow2(e as nat)) * pow2((23 - e) as nat) < pow2(e as nat) * pow2(
            (23 - e) as nat,
        )) by (nonlinear_arith)
            requires
                v - pow2(e as nat) < pow2(e as nat),
                0 < pow2((23 - e) as nat),
        ;
        assert(0 <= (v - pow2(e as nat)) * pow2((23 - e) as nat)) by (nonlinear_arith)
            requires
                0 <= v - pow2(e as nat),
                0 < pow2((23 - e) as nat),
        ;
        lemma_u32_shl_is_mul((v as u32 - (1u32 << e)) as u32, (23 - e) as u32);
    }
    let mantissa = (v as u32 - (1u32 << e)) << (23 - e);
    (127 + e) * 0x80_0000 + mantissa
}

/// The bit of the dirty mask that belongs to a state slot.
pub open spec fn slot_mask(slot: u16) -> u16 {
    1u16 << slot
}

/// Setting the bit of one slot sets that bit and leaves the bits of the others.
pub proof fn lemma_slot_bits(bits: u16, slot: u16, other: u16)
    by (bit_vector)
    requires
        slot < 16,
        other < 16,
    ensures
        (bits | (1u16 << slot)) & (1u16 << slot) == 1u16 << slot,
        (1u16 << slot) != 0,
        slot != other ==> (bits | (1u16 << slot)) & (1u16 << other) == bits & (1u16 << other),
        0u16 & (1u16 << other) == 0,
{
}

/// The holder of one fixed-function state record, whose slot in the dirty mask is `N`.
pub struct StateTracker<T: BinClStructure + Copy, const N: u16>(pub Option<T>);

impl<T: BinClStructure + Copy, const N: u16> StateTracker<T, N> {
    /// The packet that a flush writes for the slot: that of the held record where the
    /// slot is dirty, nothing where it is not.
    pub open spec fn pending(&self, dirty_bits: u16) -> Seq<u8> {
        match self.0 {
            Some(record) if dirty_bits & slot_mask(N) != 0 => record.packet(),
            _ => Seq::empty(),
        }
    }

    /// A dirty slot holds a record that can be encoded.
    pub open spec fn flushable(&self, dirty_bits: u16) -> bool {
        dirty_bits & slot_mask(N) != 0 ==> self.0 is Some && self.0->0.encodable()
    }

    /// Forgets the record.
    pub fn clear(&mut self)
        ensures
            final(self).0 is None,
    {
        self.0 = None;
    }

    /// Holds `val` and marks the slot dirty.
    pub fn set(&mut self, dirty_bits: &mut u16, val: T)
        requires
            N < 16,
        ensures
            final(self).0 == Some(val),
            *final(dirty_bits) == *old(dirty_bits) | slot_mask(N),
    {
        self.0 = Some(val);
        *dirty_bits = *dirty_bits | (1u16 << N);
    }

    /// Writes the held record to `writer` where the slot is dirty.
    pub fn flush(&mut self, dirty_bits: u16, writer: &mut Vec<u8>)
        requires
            N < 16,
            old(self).flushable(dirty_bits),
        ensures
            final(self).0 == old(self).0,
            final(writer)@ == old(writer)@ + old(self).pending(dirty_bits),
    {
        if (dirty_bits & (1u16 << N)) != 0 {
            match &self.0 {
                Some(record) => {
                    record.encode(writer);
                },
                None => {},
            }
        } else {
            assert(writer@ =~= old(writer)@ + Seq::<u8>::empty());
        }
    }
}

/// The handles of the buffers that the attribute arrays read, in order.
pub open spec fn attribute_handles(attributes: Seq<ShaderAttribute>) -> Seq<u32> {
    Seq::new(attributes.len(), |i: int| attributes[i].buffer.handle)
}

/// Whether the vertex stage (or, for `coordinate`, the coordinate stage) reads the
/// attribute array.
pub open spec fn attribute_selected(attribute: ShaderAttribute, coordinate: bool) -> bool {
    if coordinate {
        attribute.cs
    } else {
        attribute.vs
    }
}

/// Bytes per vertex of the attribute arrays that a stage reads.
pub open spec fn attributes_size(attributes: Seq<ShaderAttribute>, coordinate: bool) -> int
    decreases attributes.len(),
{
    if attributes.len() == 0 {
        0
    } else {
        attributes_size(attributes.drop_last(), coordinate) + if attribute_selected(
            attributes.last(),
            coordinate,
        ) {
            attributes.last().record.number_of_bytes_minus_1 + 1
        } else {
            0
        }
    }
}

/// The mask of the attribute arrays that a stage reads: bit `i` for array `i`.
pub open spec fn attributes_select_bits(attributes: Seq<ShaderAttribute>, coordinate: bool) -> int
    decreases attributes.len(),
{
    if attributes.len() == 0 {
        0
    } else {
        attributes_select_bits(attributes.drop_last(), coordinate) + if attribute_selected(
            attributes.last(),
            coordinate,
        ) {
            pow2((attributes.len() - 1) as nat) as int
        } else {
            0
        }
    }
}

/// The attribute records of the arrays, one after the other.
pub open spec fn attribute_records(attributes: Seq<ShaderAttribute>) -> Seq<u8>
    decreases attributes.len(),
{
    if attributes.len() == 0 {
        Seq::empty()
    } else {
        attribute_records(attributes.drop_last()) + attributes.last().record.packet()
    }
}

/// The bytes of the words, each least significant byte first.
pub open spec fn le_words(words: Seq<u32>) -> Seq<u8>
    decreases words.len(),
{
    if words.len() == 0 {
        Seq::empty()
    } else {
        le_words(words.drop_last()) + le_bytes_u32(words.last())
    }
}

/// The handles of the buffers of the texture uniforms, in order.
pub open spec fn texture_handles(uniforms: Seq<ShaderUniform>) -> Seq<u32>
    decreases uniforms.len(),
{
    if uniforms.len() == 0 {
        Seq::empty()
    } else {
        match uniforms.last() {
            ShaderUniform::Texture(texture) => texture_handles(uniforms.drop_last()).push(
                texture.buffer.handle,
            ),
            ShaderUniform::Constant(_) => texture_handles(uniforms.drop_last()),
        }
    }
}

/// The words of one uniform: a constant is its word; a texture is its first
/// configuration word, followed by the second where it is more than one texel high.
pub open spec fn uniform_word_seq(uniform: ShaderUniform) -> Seq<u32> {
    match uniform {
        ShaderUniform::Texture(texture) => if texture.config.height > 1 {
            seq![texture.config.word_1d() as u32, texture.config.word_2d() as u32]
        } else {
            seq![texture.config.word_1d() as u32]
        },
        ShaderUniform::Constant(constant) => seq![constant],
    }
}

/// The words of the uniforms, in order.
pub open spec fn uniform_words(uniforms: Seq<ShaderUniform>) -> Seq<u32>
    decreases uniforms.len(),
{
    if uniforms.len() == 0 {
        Seq::empty()
    } else {
        uniform_words(uniforms.drop_last()) + uniform_word_seq(uniforms.last())
    }
}

/// Every texture among the uniforms has at least one mip level.
pub open spec fn uniforms_encodable(uniforms: Seq<ShaderUniform>) -> bool {
    forall|i: int|
        0 <= i < uniforms.len() ==> (#[trigger] uniforms[i] matches ShaderUniform::Texture(texture)
            ==> texture.config.num_mips >= 1)
}

/// The rasteriser configuration with which a pass starts: both faces drawn, no depth
/// test, early depth updates on.
pub open spec fn pass_configuration_bits() -> ConfigurationBits {
    ConfigurationBits {
        enable_forward_facing_primitive: true,
        enable_reverse_facing_primitive: true,
        clockwise_primitives: false,
        enable_depth_offset: false,
        antialiased_points_and_lines: false,
        coverage_read_type: false,
        rasteriser_oversample_mode: 0,
        coverage_pipe_select: false,
        coverage_update_mode: 0,
        coverage_read_mode: false,
        depth_test_function: CompareFunction::Always,
        z_updates_enable: false,
        early_z_enable: false,
        early_z_updates_enable: true,
    }
}

/// The bits of the single-precision number one.
pub const SINGLE_PRECISION_ONE: u32 = 0x3f80_0000;

/// The texture handles of the first `part + 1` uniforms are those of the first `part`,
/// and the handle of the uniform that follows where it is a texture; its words are
/// those of the first `part` and its own.
pub proof fn lemma_uniforms_step(uniforms: Seq<ShaderUniform>, part: int)
    requires
        0 <= part < uniforms.len(),
    ensures
        texture_handles(uniforms.take(part + 1)) == match uniforms[part] {
            ShaderUniform::Texture(texture) => texture_handles(uniforms.take(part)).push(
                texture.buffer.handle,
            ),
            ShaderUniform::Constant(_) => texture_handles(uniforms.take(part)),
        },
        uniform_words(uniforms.take(part + 1)) == uniform_words(uniforms.take(part))
            + uniform_word_seq(uniforms[part]),
{
    assert(uniforms.take(part + 1).drop_last() =~= uniforms.take(part));
}

/// The texture handles of the first uniforms start the texture handles of all of them.
pub proof fn lemma_texture_handles_prefix(uniforms: Seq<ShaderUniform>, part: int)
    requires
        0 <= part <= uniforms.len(),
    ensures
        texture_handles(uniforms.take(part)).len() <= texture_handles(uniforms).len(),
        texture_handles(uniforms.take(part)) == texture_handles(uniforms).take(
            texture_handles(uniforms.take(part)).len() as int,
        ),
    decreases uniforms.len(),
{
    let all = texture_handles(uniforms);
    if part == uniforms.len() {
        assert(uniforms.take(part) =~= uniforms);
        assert(all.take(all.len() as int) =~= all);
    } else {
        let front = uniforms.drop_last();
        assert(front.take(part) =~= uniforms.take(part));
        lemma_texture_handles_prefix(front, part);
        let some = texture_handles(uniforms.take(part));
        assert(some =~= all.take(some.len() as int));
    }
}

/// The attributes of the first `part + 1` arrays, from those of the first `part`.
pub proof fn lemma_attributes_step(attributes: Seq<ShaderAttribute>, part: int, coordinate: bool)
    requires
        0 <= part < attributes.len(),
    ensures
        attributes_size(attributes.take(part + 1), coordinate) == attributes_size(
            attributes.take(part),
            coordinate,
        ) + if attribute_selected(attributes[part], coordinate) {
            attributes[part].record.number_of_bytes_minus_1 + 1
        } else {
            0
        },
        attributes_select_bits(attributes.take(part + 1), coordinate) == attributes_select_bits(
            attributes.take(part),
            coordinate,
        ) + if attribute_selected(attributes[part], coordinate) {
            pow2(part as nat) as int
        } else {
            0
        },
        attribute_records(attributes.take(part + 1)) == attribute_records(attributes.take(part))
            + attributes[part].record.packet(),
        attribute_handles(attributes).take(part + 1) == attribute_handles(attributes).take(
            part,
        ).push(attributes[part].buffer.handle),
{
    assert(attributes.take(part + 1).drop_last() =~= attributes.take(part));
    assert(attribute_handles(attributes).take(part + 1) =~= attribute_handles(attributes).take(
        part,
    ).push(attributes[part].buffer.handle));
}

/// The bytes per vertex of the first arrays are within those of all of them.
pub proof fn lemma_attributes_bounds(
    attributes: Seq<ShaderAttribute>,
    part: int,
    coordinate: bool,
)
    requires
        0 <= part <= attributes.len(),
    ensures
        0 <= attributes_size(attributes.take(part), coordinate) <= attributes_size(
            attributes,
            coordinate,
        ),
    decreases attributes.len() - part,
{
    lemma_attributes_mask(attributes, part, coordinate);
    if part < attributes.len() {
        lemma_attributes_step(attributes, part, coordinate);
        lemma_attributes_bounds(attributes, part + 1, coordinate);
    } else {
        assert(attributes.take(part) =~= attributes);
    }
}

/// The mask of the first `part` arrays is below `2^part`.
pub proof fn lemma_attributes_mask(attributes: Seq<ShaderAttribute>, part: int, coordinate: bool)
    requires
        0 <= part <= attributes.len(),
    ensures
        0 <= attributes_select_bits(attributes.take(part), coordinate) < pow2(part as nat),
        0 <= attributes_size(attributes.take(part), coordinate),
    decreases part,
{
    lemma2_to64();
    if part > 0 {
        lemma_attributes_step(attributes, part - 1, coordinate);
        lemma_attributes_mask(attributes, part - 1, coordinate);
        lemma_pow2_unfold(part as nat);
    }
}

/// Adding a bit above every bit of a mask adds the bit's weight.
pub proof fn lemma_or_high_bit(bits: u8, place: u8)
    by (bit_vector)
    requires
        place < 8,
        bits < (1u8 << place),
    ensures
        bits | (1u8 << place) == bits + (1u8 << place),
{
}

/// The bytes of a run of words that grew by one word.
pub proof fn lemma_le_words_push(words: Seq<u32>, word: u32)
    ensures
        le_words(words.push(word)) == le_words(words) + le_bytes_u32(word),
{
    assert(words.push(word).drop_last() =~= words);
}

/// There are no more texture handles than uniforms.
pub proof fn lemma_texture_handles_count(uniforms: Seq<ShaderUniform>)
    ensures
        texture_handles(uniforms).len() <= uniforms.len(),
    decreases uniforms.len(),
{
    if uniforms.len() > 0 {
        lemma_texture_handles_count(uniforms.drop_last());
    }
}

/// Appending two sequences one after the other appends their concatenation.
pub proof fn lemma_append_twice<A>(a: Seq<A>, b: Seq<A>, c: Seq<A>)
    ensures
        (a + b) + c == a + (b + c),
{
    assert((a + b) + c =~= a + (b + c));
}

/// No slot is dirty in an empty mask.
pub proof fn lemma_clean_mask()
    ensures
        forall|slot: u16| slot < 16 ==> 0u16 & #[trigger] slot_mask(slot) == 0,
{
    assert forall|slot: u16| slot < 16 implies 0u16 & #[trigger] slot_mask(slot) == 0 by {
        lemma_slot_bits(0, slot, slot);
    }
}

/// In a mask to which the bit of a slot was added that slot is dirty, and every other
/// slot is as it was.
pub proof fn lemma_slot_masks(bits: u16, slot: u16)
    requires
        slot < 16,
    ensures
        forall|other: u16|
            other < 16 ==> (bits | slot_mask(slot)) & #[trigger] slot_mask(other) == if other
                == slot {
                slot_mask(slot)
            } else {
                bits & slot_mask(other)
            },
        slot_mask(slot) != 0,
{
    assert forall|other: u16| other < 16 implies (bits | slot_mask(slot)) & #[trigger] slot_mask(
        other,
    ) == if other == slot {
        slot_mask(slot)
    } else {
        bits & slot_mask(other)
    } by {
        lemma_slot_bits(bits, slot, other);
    }
    lemma_slot_bits(bits, slot, slot);
}

/// A record of fixed-function state, of any of the nine kinds.
pub ghost enum StateRecord {
    LineWidth(LineWidth),
    ClipWindow(ClipWindow),
    ClipperXYScaling(ClipperXYScaling),
    ViewportOffset(ViewportOffset),
    ConfigurationBits(ConfigurationBits),
    DepthOffset(DepthOffset),
    ClipperZScaleAndOffset(ClipperZScaleAndOffset),
    PointSize(PointSize),
    FlatShadeFlags(FlatShadeFlags),
}

impl StateRecord {
    /// The slot that holds records of this kind.
    pub open spec fn slot(self) -> u16 {
        match self {
            StateRecord::LineWidth(_) => 0,
            StateRecord::ClipWindow(_) => 1,
            StateRecord::ClipperXYScaling(_) => 2,
            StateRecord::ViewportOffset(_) => 3,
            StateRecord::ConfigurationBits(_) => 4,
            StateRecord::DepthOffset(_) => 5,
            StateRecord::ClipperZScaleAndOffset(_) => 6,
            StateRecord::PointSize(_) => 7,
            StateRecord::FlatShadeFlags(_) => 8,
        }
    }

    /// The packet of the record.
    pub open spec fn packet(self) -> Seq<u8> {
        match self {
            StateRecord::LineWidth(record) => record.packet(),
            StateRecord::ClipWindow(record) => record.packet(),
            StateRecord::ClipperXYScaling(record) => record.packet(),
            StateRecord::ViewportOffset(record) => record.packet(),
            StateRecord::ConfigurationBits(record) => record.packet(),
            StateRecord::DepthOffset(record) => record.packet(),
            StateRecord::ClipperZScaleAndOffset(record) => record.packet(),
            StateRecord::PointSize(record) => record.packet(),
            StateRecord::FlatShadeFlags(record) => record.packet(),
        }
    }

    /// Every field of the record fits the width that its packet gives it.
    pub open spec fn encodable(self) -> bool {
        match self {
            StateRecord::LineWidth(record) => record.encodable(),
            StateRecord::ClipWindow(record) => record.encodable(),
            StateRecord::ClipperXYScaling(record) => record.encodable(),
            StateRecord::ViewportOffset(record) => record.encodable(),
            StateRecord::ConfigurationBits(record) => record.encodable(),
            StateRecord::DepthOffset(record) => record.encodable(),
            StateRecord::ClipperZScaleAndOffset(record) => record.encodable(),
            StateRecord::PointSize(record) => record.encodable(),
            StateRecord::FlatShadeFlags(record) => record.encodable(),
        }
    }
}

/// The nine slots of fixed-function state with their dirty mask. A slot is dirty from
/// the moment its record is set until the record is flushed to the binning stream;
/// a flush leaves the record in place.
pub struct FixedFunctionState {
    pub line_width: StateTracker<LineWidth, 0>,
    pub clip_window: StateTracker<ClipWindow, 1>,
    pub clipper_xy_scaling: StateTracker<ClipperXYScaling, 2>,
    pub viewport_offset: StateTracker<ViewportOffset, 3>,
    pub configuration_bits: StateTracker<ConfigurationBits, 4>,
    pub depth_offset: StateTracker<DepthOffset, 5>,
    pub clipper_z_scale_and_offset: StateTracker<ClipperZScaleAndOffset, 6>,
    pub point_size: StateTracker<PointSize, 7>,
    pub flat_shade_flags: StateTracker<FlatShadeFlags, 8>,
    pub dirty_bits: u16,
}

impl FixedFunctionState {
    /// Every slot absent and clean.
    pub open spec fn cleared() -> FixedFunctionState {
        FixedFunctionState {
            line_width: StateTracker(None),
            clip_window: StateTracker(None),
            clipper_xy_scaling: StateTracker(None),
            viewport_offset: StateTracker(None),
            configuration_bits: StateTracker(None),
            depth_offset: StateTracker(None),
            clipper_z_scale_and_offset: StateTracker(None),
            point_size: StateTracker(None),
            flat_shade_flags: StateTracker(None),
            dirty_bits: 0,
        }
    }

    /// Every held record can be encoded, and every dirty slot holds a record.
    pub open spec fn wf(self) -> bool {
        &&& self.line_width.0 is Some ==> self.line_width.0->0.encodable()
        &&& self.clip_window.0 is Some ==> self.clip_window.0->0.encodable()
        &&& self.clipper_xy_scaling.0 is Some ==> self.clipper_xy_scaling.0->0.encodable()
        &&& self.viewport_offset.0 is Some ==> self.viewport_offset.0->0.encodable()
        &&& self.configuration_bits.0 is Some ==> self.configuration_bits.0->0.encodable()
        &&& self.depth_offset.0 is Some ==> self.depth_offset.0->0.encodable()
        &&& self.clipper_z_scale_and_offset.0 is Some
            ==> self.clipper_z_scale_and_offset.0->0.encodable()
        &&& self.point_size.0 is Some ==> self.point_size.0->0.encodable()
        &&& self.flat_shade_flags.0 is Some ==> self.flat_shade_flags.0->0.encodable()
        &&& self.line_width.flushable(self.dirty_bits)
        &&& self.clip_window.flushable(self.dirty_bits)
        &&& self.clipper_xy_scaling.flushable(self.dirty_bits)
        &&& self.viewport_offset.flushable(self.dirty_bits)
        &&& self.configuration_bits.flushable(self.dirty_bits)
        &&& self.depth_offset.flushable(self.dirty_bits)
        &&& self.clipper_z_scale_and_offset.flushable(self.dirty_bits)
        &&& self.point_size.flushable(self.dirty_bits)
        &&& self.flat_shade_flags.flushable(self.dirty_bits)
    }

    /// The packets that the next flush writes: one for each dirty slot, in the order
    /// of the slots.
    pub open spec fn pending_packets(self) -> Seq<u8> {
        self.line_width.pending(self.dirty_bits)
            + self.clip_window.pending(self.dirty_bits)
            + self.clipper_xy_scaling.pending(self.dirty_bits)
            + self.viewport_offset.pending(self.dirty_bits)
            + self.configuration_bits.pending(self.dirty_bits)
            + self.depth_offset.pending(self.dirty_bits)
            + self.clipper_z_scale_and_offset.pending(self.dirty_bits)
            + self.point_size.pending(self.dirty_bits)
            + self.flat_shade_flags.pending(self.dirty_bits)
    }

    /// The slots after a flush: the records stay and no slot is dirty.
    pub open spec fn flushed(self) -> FixedFunctionState {
        FixedFunctionState { dirty_bits: 0, ..self }
    }

    /// The slots after `set_line_width`: the slot holds the record and is dirty.
    pub open spec fn with_line_width(self, line_width: LineWidth) -> FixedFunctionState {
        FixedFunctionState {
            line_width: StateTracker(Some(line_width)),
            dirty_bits: self.dirty_bits | slot_mask(0),
            ..self
        }
    }

    /// The slots after `set_clip_window`: the slot holds the record and is dirty.
    pub open spec fn with_clip_window(self, clip_window: ClipWindow) -> FixedFunctionState {
        FixedFunctionState {
            clip_window: StateTracker(Some(clip_window)),
            dirty_bits: self.dirty_bits | slot_mask(1),
            ..self
        }
    }

    /// The slots after `set_clipper_xy_scaling`: the slot holds the record and is dirty.
    pub open spec fn with_clipper_xy_scaling(
        self,
        clipper_xy_scaling: ClipperXYScaling,
    ) -> FixedFunctionState {
        FixedFunctionState {
            clipper_xy_scaling: StateTracker(Some(clipper_xy_scaling)),
            dirty_bits: self.dirty_bits | slot_mask(2),
            ..self
        }
    }

    /// The slots after `set_viewport_offset`: the slot holds the record and is dirty.
    pub open spec fn with_viewport_offset(
        self,
        viewport_offset: ViewportOffset,
    ) -> FixedFunctionState {
        FixedFunctionState {
            viewport_offset: StateTracker(Some(viewport_offset)),
            dirty_bits: self.dirty_bits | slot_mask(3),
            ..self
        }
    }

    /// The slots after `set_configuration_bits`: the slot holds the record and is dirty.
    pub open spec fn with_configuration_bits(
        self,
        configuration_bits: ConfigurationBits,
    ) -> FixedFunctionState {
        FixedFunctionState {
            configuration_bits: StateTracker(Some(configuration_bits)),
            dirty_bits: self.dirty_bits | slot_mask(4),
            ..self
        }
    }

    /// The slots after `set_depth_offset`: the slot holds the record and is dirty.
    pub open spec fn with_depth_offset(self, depth_offset: DepthOffset) -> FixedFunctionState {
        FixedFunctionState {
            depth_offset: StateTracker(Some(depth_offset)),
            dirty_bits: self.dirty_bits | slot_mask(5),
            ..self
        }
    }

    /// The slots after `set_clipper_z_scale_and_offset`: the slot holds the record and is dirty.
    pub open spec fn with_clipper_z_scale_and_offset(
        self,
        clipper_z_scale_and_offset: ClipperZScaleAndOffset,
    ) -> FixedFunctionState {
        FixedFunctionState {
            clipper_z_scale_and_offset: StateTracker(Some(clipper_z_scale_and_offset)),
            dirty_bits: self.dirty_bits | slot_mask(6),
            ..self
        }
    }

    /// The slots after `set_point_size`: the slot holds the record and is dirty.
    pub open spec fn with_point_size(self, point_size: PointSize) -> FixedFunctionState {
        FixedFunctionState {
            point_size: StateTracker(Some(point_size)),
            dirty_bits: self.dirty_bits | slot_mask(7),
            ..self
        }
    }

    /// The slots after `set_flat_shade_flags`: the slot holds the record and is dirty.
    pub open spec fn with_flat_shade_flags(
        self,
        flat_shade_flags: FlatShadeFlags,
    ) -> FixedFunctionState {
        FixedFunctionState {
            flat_shade_flags: StateTracker(Some(flat_shade_flags)),
            dirty_bits: self.dirty_bits | slot_mask(8),
            ..self
        }
    }

    /// The slots after a record was set: the slot of its kind holds it and is dirty.
    pub open spec fn with_record(self, record: StateRecord) -> FixedFunctionState {
        match record {
            StateRecord::LineWidth(record) => self.with_line_width(record),
            StateRecord::ClipWindow(record) => self.with_clip_window(record),
            StateRecord::ClipperXYScaling(record) => self.with_clipper_xy_scaling(record),
            StateRecord::ViewportOffset(record) => self.with_viewport_offset(record),
            StateRecord::ConfigurationBits(record) => self.with_configuration_bits(record),
            StateRecord::DepthOffset(record) => self.with_depth_offset(record),
            StateRecord::ClipperZScaleAndOffset(record) => {
                self.with_clipper_z_scale_and_offset(record)
            },
            StateRecord::PointSize(record) => self.with_point_size(record),
            StateRecord::FlatShadeFlags(record) => self.with_flat_shade_flags(record),
        }
    }

    /// The record that a slot holds.
    pub open spec fn held(self, slot: u16) -> Option<StateRecord> {
        if slot == 0 {
            match self.line_width.0 {
                Some(record) => Some(StateRecord::LineWidth(record)),
                None => None,
            }
        } else if slot == 1 {
            match self.clip_window.0 {
                Some(record) => Some(StateRecord::ClipWindow(record)),
                None => None,
            }
        } else if slot == 2 {
            match self.clipper_xy_scaling.0 {
                Some(record) => Some(StateRecord::ClipperXYScaling(record)),
                None => None,
            }
        } else if slot == 3 {
            match self.viewport_offset.0 {
                Some(record) => Some(StateRecord::ViewportOffset(record)),
                None => None,
            }
        } else if slot == 4 {
            match self.configuration_bits.0 {
                Some(record) => Some(StateRecord::ConfigurationBits(record)),
                None => None,
            }
        } else if slot == 5 {
            match self.depth_offset.0 {
                Some(record) => Some(StateRecord::DepthOffset(record)),
                None => None,
            }
        } else if slot == 6 {
            match self.clipper_z_scale_and_offset.0 {
                Some(record) => Some(StateRecord::ClipperZScaleAndOffset(record)),
                None => None,
            }
        } else if slot == 7 {
            match self.point_size.0 {
                Some(record) => Some(StateRecord::PointSize(record)),
                None => None,
            }
        } else if slot == 8 {
            match self.flat_shade_flags.0 {
                Some(record) => Some(StateRecord::FlatShadeFlags(record)),
                None => None,
            }
        } else {
            None
        }
    }

    /// Whether a slot is dirty.
    pub open spec fn is_dirty(self, slot: u16) -> bool {
        self.dirty_bits & slot_mask(slot) != 0
    }

    /// The packet that the next flush writes for a slot: that of the held record where
    /// the slot is dirty, nothing where it is clean.
    pub open spec fn slot_pending(self, slot: u16) -> Seq<u8> {
        match self.held(slot) {
            Some(record) if self.is_dirty(slot) => record.packet(),
            _ => Seq::empty(),
        }
    }

    /// A flush writes the pending packet of each slot, in the order of the slots.
    pub proof fn lemma_pending_by_slot(self)
        ensures
            self.pending_packets() == self.slot_pending(0)
                + self.slot_pending(1)
                + self.slot_pending(2)
                + self.slot_pending(3)
                + self.slot_pending(4)
                + self.slot_pending(5)
                + self.slot_pending(6)
                + self.slot_pending(7)
                + self.slot_pending(8),
    {
    }

    /// Setting a record leaves it held in its slot and the slot dirty, so that the next
    /// flush writes its packet, and leaves every other slot as it was. A record that
    /// differs from the one written last is therefore never missing from the stream.
    pub proof fn lemma_set_marks_dirty(self, record: StateRecord, other: u16)
        requires
            other < 9,
        ensures
            self.with_record(record).held(record.slot()) == Some(record),
            self.with_record(record).is_dirty(record.slot()),
            self.with_record(record).slot_pending(record.slot()) == record.packet(),
            other != record.slot() ==> self.with_record(record).held(other) == self.held(other),
            other != record.slot() ==> self.with_record(record).is_dirty(other) == self.is_dirty(
                other,
            ),
            other != record.slot() ==> self.with_record(record).slot_pending(other)
                == self.slot_pending(other),
    {
        lemma_slot_masks(self.dirty_bits, record.slot());
    }

    /// Setting the same record twice in a row is setting it once: the second call
    /// changes nothing, and the next flush writes one packet for the slot.
    pub proof fn lemma_set_twice(self, record: StateRecord)
        ensures
            self.with_record(record).with_record(record) == self.with_record(record),
            self.with_record(record).with_record(record).slot_pending(record.slot())
                == record.packet(),
    {
        let bits = self.dirty_bits;
        let mask = slot_mask(record.slot());
        assert((bits | mask) | mask == bits | mask) by (bit_vector);
        self.lemma_set_marks_dirty(record, 0);
    }

    /// A flush leaves nothing to write: until a record is set again, a further flush
    /// writes no packet, and the records stay held.
    pub proof fn lemma_flushed_is_clean(self, slot: u16)
        requires
            slot < 9,
        ensures
            self.flushed().pending_packets() == Seq::<u8>::empty(),
            self.flushed().slot_pending(slot) == Seq::<u8>::empty(),
            self.flushed().held(slot) == self.held(slot),
            !self.flushed().is_dirty(slot),
    {
        lemma_clean_mask();
        assert(self.flushed().pending_packets() =~= Seq::<u8>::empty());
    }

    /// A record that is set after a flush is the one packet that the next flush
    /// writes. So a record that is changed, flushed, and set back to what it was
    /// reaches the stream twice: once at each flush.
    pub proof fn lemma_set_after_flush(self, record: StateRecord)
        ensures
            self.flushed().with_record(record).pending_packets() == record.packet(),
    {
        let after = self.flushed().with_record(record);
        after.lemma_pending_by_slot();
        assert forall|slot: u16| slot < 9 implies #[trigger] after.slot_pending(slot) == if slot
            == record.slot() {
            record.packet()
        } else {
            Seq::<u8>::empty()
        } by {
            self.flushed().lemma_set_marks_dirty(record, slot);
            self.lemma_flushed_is_clean(slot);
        }
        assert(after.pending_packets() =~= record.packet());
    }

    /// Every slot absent and clean.
    pub fn new() -> (state: Self)
        ensures
            state.wf(),
            state == Self::cleared(),
    {
        proof {
            lemma_clean_mask();
        }
        FixedFunctionState {
            line_width: StateTracker(None),
            clip_window: StateTracker(None),
            clipper_xy_scaling: StateTracker(None),
            viewport_offset: StateTracker(None),
            configuration_bits: StateTracker(None),
            depth_offset: StateTracker(None),
            clipper_z_scale_and_offset: StateTracker(None),
            point_size: StateTracker(None),
            flat_shade_flags: StateTracker(None),
            dirty_bits: 0,
        }
    }

    /// Forgets every record and leaves every slot clean.
    pub fn clear(&mut self)
        ensures
            final(self).wf(),
            *final(self) == Self::cleared(),
    {
        self.line_width.clear();
        self.clip_window.clear();
        self.clipper_xy_scaling.clear();
        self.viewport_offset.clear();
        self.configuration_bits.clear();
        self.depth_offset.clear();
        self.clipper_z_scale_and_offset.clear();
        self.point_size.clear();
        self.flat_shade_flags.clear();
        self.dirty_bits = 0;
        proof {
            lemma_clean_mask();
        }
    }

    /// Holds a new `LineWidth` record and marks its slot dirty.
    pub fn set_line_width(&mut self, line_width: LineWidth)
        requires
            old(self).wf(),
        ensures
            final(self).wf(),
            *final(self) == old(self).with_line_width(line_width),
    {
        proof {
            lemma_slot_masks(self.dirty_bits, 0);
        }
        self.line_width.set(&mut self.dirty_bits, line_width);
    }

    /// Holds a new `ClipWindow` record and marks its slot dirty.
    pub fn set_clip_window(&mut self, clip_window: ClipWindow)
        requires
            old(self).wf(),
        ensures
            final(self).wf(),
            *final(self) == old(self).with_clip_window(clip_window),
    {
        proof {
            lemma_slot_masks(self.dirty_bits, 1);
        }
        self.clip_window.set(&mut self.dirty_bits, clip_window);
    }

    /// Holds a new `ClipperXYScaling` record and marks its slot dirty.
    pub fn set_clipper_xy_scaling(&mut self, clipper_xy_scaling: ClipperXYScaling)
        requires
            old(self).wf(),
        ensures
            final(self).wf(),
            *final(self) == old(self).with_clipper_xy_scaling(clipper_xy_scaling),
    {
        proof {
            lemma_slot_masks(self.dirty_bits, 2);
        }
        self.clipper_xy_scaling.set(&mut self.dirty_bits, clipper_xy_scaling);
    }

    /// Holds a new `ViewportOffset` record and marks its slot dirty.
    pub fn set_viewport_offset(&mut self, viewport_offset: ViewportOffset)
        requires
            old(self).wf(),
        ensures
            final(self).wf(),
            *final(self) == old(self).with_viewport_offset(viewport_offset),
    {
        proof {
            lemma_slot_masks(self.dirty_bits, 3);
        }
        self.viewport_offset.set(&mut self.dirty_bits, viewport_offset);
    }

    /// Holds a new `ConfigurationBits` record and marks its slot dirty.
    pub fn set_configuration_bits(&mut self, configuration_bits: ConfigurationBits)
        requires
            old(self).wf(),
            configuration_bits.encodable(),
        ensures
            final(self).wf(),
            *final(self) == old(self).with_configuration_bits(configuration_bits),
    {
        proof {
            lemma_slot_masks(self.dirty_bits, 4);
        }
        self.configuration_bits.set(&mut self.dirty_bits, configuration_bits);
    }

    /// Holds a new `DepthOffset` record and marks its slot dirty.
    pub fn set_depth_offset(&mut self, depth_offset: DepthOffset)
        requires
            old(self).wf(),
        ensures
            final(self).wf(),
            *final(self) == old(self).with_depth_offset(depth_offset),
    {
        proof {
            lemma_slot_masks(self.dirty_bits, 5);
        }
        self.depth_offset.set(&mut self.dirty_bits, depth_offset);
    }

    /// Holds a new `ClipperZScaleAndOffset` record and marks its slot dirty.
    pub fn set_clipper_z_scale_and_offset(
        &mut self,
        clipper_z_scale_and_offset: ClipperZScaleAndOffset,
    )
        requires
            old(self).wf(),
        ensures
            final(self).wf(),
            *final(self) == old(self).with_clipper_z_scale_and_offset(clipper_z_scale_and_offset),
    {
        proof {
            lemma_slot_masks(self.dirty_bits, 6);
        }
        self.clipper_z_scale_and_offset.set(&mut self.dirty_bits, clipper_z_scale_and_offset);
    }

    /// Holds a new `PointSize` record and marks its slot dirty.
    pub fn set_point_size(&mut self, point_size: PointSize)
        requires
            old(self).wf(),
        ensures
            final(self).wf(),
            *final(self) == old(self).with_point_size(point_size),
    {
        proof {
            lemma_slot_masks(self.dirty_bits, 7);
        }
        self.point_size.set(&mut self.dirty_bits, point_size);
    }

    /// Holds a new `FlatShadeFlags` record and marks its slot dirty.
    pub fn set_flat_shade_flags(&mut self, flat_shade_flags: FlatShadeFlags)
        requires
            old(self).wf(),
        ensures
            final(self).wf(),
            *final(self) == old(self).with_flat_shade_flags(flat_shade_flags),
    {
        proof {
            lemma_slot_masks(self.dirty_bits, 8);
        }
        self.flat_shade_flags.set(&mut self.dirty_bits, flat_shade_flags);
    }

    /// Writes the record of every dirty slot to `writer`, in the order of the slots,
    /// and leaves every slot clean.
    pub fn flush(&mut self, writer: &mut Vec<u8>)
        requires
            old(self).wf(),
        ensures
            final(self).wf(),
            *final(self) == old(self).flushed(),
            final(writer)@ == old(writer)@ + old(self).pending_packets(),
    {
        let ghost before = *self;
        let ghost start = writer@;
        let ghost mut acc = Seq::<u8>::empty();
        proof {
            lemma_clean_mask();
        }
        if self.dirty_bits != 0 {
            assert(writer@ =~= start + acc);
            self.line_width.flush(self.dirty_bits, writer);
            proof {
                let packet = before.line_width.pending(before.dirty_bits);
                lemma_append_twice(start, acc, packet);
                acc = acc + packet;
            }
            self.clip_window.flush(self.dirty_bits, writer);
            proof {
                let packet = before.clip_window.pending(before.dirty_bits);
                lemma_append_twice(start, acc, packet);
                acc = acc + packet;
            }
            self.clipper_xy_scaling.flush(self.dirty_bits, writer);
            proof {
                let packet = before.clipper_xy_scaling.pending(before.dirty_bits);
                lemma_append_twice(start, acc, packet);
                acc = acc + packet;
            }
            self.viewport_offset.flush(self.dirty_bits, writer);
            proof {
                let packet = before.viewport_offset.pending(before.dirty_bits);
                lemma_append_twice(start, acc, packet);
                acc = acc + packet;
            }
            self.configuration_bits.flush(self.dirty_bits, writer);
            proof {
                let packet = before.configuration_bits.pending(before.dirty_bits);
                lemma_append_twice(start, acc, packet);
                acc = acc + packet;
            }
            self.depth_offset.flush(self.dirty_bits, writer);
            proof {
                let packet = before.depth_offset.pending(before.dirty_bits);
                lemma_append_twice(start, acc, packet);
                acc = acc + packet;
            }
            self.clipper_z_scale_and_offset.flush(self.dirty_bits, writer);
            proof {
                let packet = before.clipper_z_scale_and_offset.pending(before.dirty_bits);
                lemma_append_twice(start, acc, packet);
                acc = acc + packet;
            }
            self.point_size.flush(self.dirty_bits, writer);
            proof {
                let packet = before.point_size.pending(before.dirty_bits);
                lemma_append_twice(start, acc, packet);
                acc = acc + packet;
            }
            self.flat_shade_flags.flush(self.dirty_bits, writer);
            proof {
                let packet = before.flat_shade_flags.pending(before.dirty_bits);
                lemma_append_twice(start, acc, packet);
                acc = acc + packet;
            }
            assert(acc =~= before.pending_packets());
            self.dirty_bits = 0;
        } else {
            assert(before.pending_packets() =~= Seq::<u8>::empty());
            assert(writer@ =~= start + before.pending_packets());
        }
    }
}

/// A stream that begins with `head` still begins with it, and ends with `tail`, once
/// `tail` is added to it.
pub proof fn lemma_framed(head: Seq<u8>, stream: Seq<u8>, tail: Seq<u8>)
    requires
        head.is_prefix_of(stream),
    ensures
        (stream + tail).len() == stream.len() + tail.len(),
        (stream + tail).subrange(0, head.len() as int) == head,
        (stream + tail).subrange(stream.len() as int, (stream + tail).len() as int) == tail,
        forall|i: int| 0 <= i < head.len() ==> (stream + tail)[i] == head[i],
{
    let all = stream + tail;
    assert(all.subrange(0, head.len() as int) =~= head);
    assert(all.subrange(stream.len() as int, all.len() as int) =~= tail);
}

/// One call on an encoder between the start and the end of a pass.
pub ghost enum EncoderCall {
    SetState(StateRecord),
    SetDepthTest { depth_test: bool, compare_function: CompareFunction, depth_write: bool },
    SetCullTest { enable_forward_facing_primitive: bool, enable_reverse_facing_primitive: bool },
    Relocate(u32),
    BindShader {
        fs_single_threaded: bool,
        fs_number_of_varyings: u8,
        fs: u32,
        vs: u32,
        cs: u32,
        attributes: Seq<ShaderAttribute>,
        fs_uniforms: Seq<ShaderUniform>,
        vs_uniforms: Seq<ShaderUniform>,
        cs_uniforms: Seq<ShaderUniform>,
    },
    DrawArrayPrimitives { primitive_mode: PrimitiveMode, start: u32, length: u32 },
    DrawIndexedPrimitives {
        index_buffer: Buffer,
        index_type: IndexType,
        primitive_mode: PrimitiveMode,
        start: u32,
        length: u32,
        maximum_index: u32,
    },
}

/// What an encoder holds: the three output streams, the relocation list, the size of
/// the target, and the fixed-function state.
pub ghost struct EncoderState {
    pub bin_cl: Seq<u8>,
    pub shader_rec: Seq<u8>,
    pub shader_rec_count: u32,
    pub uniforms: Seq<u32>,
    pub bo_handles: Seq<u32>,
    pub window_size: (u16, u16),
    pub width_in_tiles: u8,
    pub height_in_tiles: u8,
    pub state: FixedFunctionState,
}

impl EncoderState {
    /// The state of a new or cleared encoder: empty streams, an empty relocation list,
    /// every slot absent and clean.
    pub open spec fn cleared(window_size: (u16, u16), size_in_tiles: (u8, u8)) -> EncoderState {
        EncoderState {
            bin_cl: Seq::empty(),
            shader_rec: Seq::empty(),
            shader_rec_count: 0,
            uniforms: Seq::empty(),
            bo_handles: Seq::empty(),
            window_size,
            width_in_tiles: size_in_tiles.0,
            height_in_tiles: size_in_tiles.1,
            state: FixedFunctionState::cleared(),
        }
    }

    /// No handle is relocated twice, every relocation index fits 32 bits, and the
    /// fixed-function state is consistent.
    pub open spec fn wf(self) -> bool {
        &&& self.bo_handles.no_duplicates()
        &&& self.bo_handles.len() <= u32::MAX
        &&& self.state.wf()
    }

    /// The state after a flush: the pending packets are in the binning stream and no
    /// slot is dirty.
    pub open spec fn flush_state(self) -> EncoderState {
        EncoderState {
            bin_cl: self.bin_cl + self.state.pending_packets(),
            state: self.state.flushed(),
            ..self
        }
    }

    /// The state after `set_line_width`: the slot holds the record and is dirty.
    pub open spec fn set_line_width(self, line_width: LineWidth) -> EncoderState {
        EncoderState { state: self.state.with_line_width(line_width), ..self }
    }

    /// The state after `set_clip_window`: the slot holds the record and is dirty.
    pub open spec fn set_clip_window(self, clip_window: ClipWindow) -> EncoderState {
        EncoderState { state: self.state.with_clip_window(clip_window), ..self }
    }

    /// The state after `set_clipper_xy_scaling`: the slot holds the record and is dirty.
    pub open spec fn set_clipper_xy_scaling(
        self,
        clipper_xy_scaling: ClipperXYScaling,
    ) -> EncoderState {
        EncoderState { state: self.state.with_clipper_xy_scaling(clipper_xy_scaling), ..self }
    }

    /// The state after `set_viewport_offset`: the slot holds the record and is dirty.
    pub open spec fn set_viewport_offset(self, viewport_offset: ViewportOffset) -> EncoderState {
        EncoderState { state: self.state.with_viewport_offset(viewport_offset), ..self }
    }

    /// The state after `set_configuration_bits`: the slot holds the record and is dirty.
    pub open spec fn set_configuration_bits(
        self,
        configuration_bits: ConfigurationBits,
    ) -> EncoderState {
        EncoderState { state: self.state.with_configuration_bits(configuration_bits), ..self }
    }

    /// The state after `set_depth_offset`: the slot holds the record and is dirty.
    pub open spec fn set_depth_offset(self, depth_offset: DepthOffset) -> EncoderState {
        EncoderState { state: self.state.with_depth_offset(depth_offset), ..self }
    }

    /// The state after `set_clipper_z_scale_and_offset`: the slot holds the record and is dirty.
    pub open spec fn set_clipper_z_scale_and_offset(
        self,
        clipper_z_scale_and_offset: ClipperZScaleAndOffset,
    ) -> EncoderState {
        EncoderState {
            state: self.state.with_clipper_z_scale_and_offset(clipper_z_scale_and_offset),
            ..self
        }
    }

    /// The state after `set_point_size`: the slot holds the record and is dirty.
    pub open spec fn set_point_size(self, point_size: PointSize) -> EncoderState {
        EncoderState { state: self.state.with_point_size(point_size), ..self }
    }

    /// The state after `set_flat_shade_flags`: the slot holds the record and is dirty.
    pub open spec fn set_flat_shade_flags(self, flat_shade_flags: FlatShadeFlags) -> EncoderState {
        EncoderState { state: self.state.with_flat_shade_flags(flat_shade_flags), ..self }
    }

    /// The state after `handle` has been relocated.
    pub open spec fn relocate(self, handle: u32) -> EncoderState {
        EncoderState { bo_handles: relocated(self.bo_handles, handle), ..self }
    }

    /// The state after `end_pass`: the binning stream ends with the packet that
    /// increments the semaphore and the flush packet.
    pub open spec fn end_pass(self) -> EncoderState {
        EncoderState {
            bin_cl: self.bin_cl + IncrementSemaphore.packet() + Flush.packet(),
            ..self
        }
    }

    /// The state after a draw of consecutive vertices: a flush, then the draw packet.
    pub open spec fn draw_array_primitives(
        self,
        primitive_mode: PrimitiveMode,
        start: u32,
        length: u32,
    ) -> EncoderState {
        let flushed = self.flush_state();
        EncoderState {
            bin_cl: flushed.bin_cl + (VertexArrayPrimitives {
                primitive_mode,
                length,
                index_of_first_vertex: start,
            }).packet(),
            ..flushed
        }
    }

    /// The state after an indexed draw: a flush, the relocation of the index buffer,
    /// the packet that names its relocation index, then the draw packet, whose index
    /// data starts `start` indices into the buffer.
    pub open spec fn draw_indexed_primitives(
        self,
        index_buffer: Buffer,
        index_type: IndexType,
        primitive_mode: PrimitiveMode,
        start: u32,
        length: u32,
        maximum_index: u32,
    ) -> EncoderState {
        let flushed = self.flush_state();
        EncoderState {
            bin_cl: flushed.bin_cl + (GemRelocations {
                buffer0: relocation_index(self.bo_handles, index_buffer.handle) as u32,
                buffer1: 0,
            }).packet() + (IndexedPrimitiveList {
                index_type,
                primitive_mode,
                length,
                address_of_indices_list: ((index_type.spec_code() + 1) * start) as u32,
                maximum_index,
            }).packet(),
            bo_handles: relocated(self.bo_handles, index_buffer.handle),
            ..flushed
        }
    }

    /// The packet that configures binning for the target: no multisampling, 32-bit
    /// colour, so tiles of 64 by 64 pixels.
    pub open spec fn tile_binning_configuration(self) -> TileBinningModeConfiguration {
        TileBinningModeConfiguration {
            width_in_tiles: spec_div_round_up(self.window_size.0 as int, 64) as u8,
            height_in_tiles: spec_div_round_up(self.window_size.1 as int, 64) as u8,
            ..TileBinningModeConfiguration::spec_default()
        }
    }

    /// The target is small enough for half its size in sixteenths of a pixel to fit
    /// 16 bits.
    pub open spec fn can_begin_pass(self) -> bool {
        self.window_size.0 < 4096 && self.window_size.1 < 4096
    }

    /// The state after `begin_pass`: the binning stream gains the configuration packet
    /// of the target and the packet that starts binning, and every slot holds its
    /// default for the pass and is dirty. The defaults are: lines of width zero; a clip
    /// window that is the whole target; a viewport scaled to half the target, in
    /// sixteenths of a pixel, and centred on it; the rasteriser's pass configuration;
    /// no depth offset; a depth range of scale one and offset zero; points of size one;
    /// no flat shading.
    #[verifier::opaque]
    pub open spec fn begin_pass(self) -> EncoderState {
        let w = self.window_size.0;
        let h = self.window_size.1;
        let half_w = (w * 8) as u16;
        let half_h = (h * 8) as u16;
        let config = self.tile_binning_configuration();
        EncoderState {
            bin_cl: self.bin_cl + config.packet() + StartTileBinning.packet(),
            width_in_tiles: config.width_in_tiles,
            height_in_tiles: config.height_in_tiles,
            state: self.state.with_line_width(LineWidth { line_width: 0 }).with_clip_window(
                ClipWindow {
                    clip_window_left_pixel_coordinate: 0,
                    clip_window_bottom_pixel_coordinate: 0,
                    clip_window_width_in_pixels: w,
                    clip_window_height_in_pixels: h,
                },
            ).with_clipper_xy_scaling(
                ClipperXYScaling {
                    viewport_half_width_in_1_16th_of_pixel: single_precision_bits(
                        half_w as int,
                    ) as u32,
                    viewport_half_height_in_1_16th_of_pixel: single_precision_bits(
                        half_h as int,
                    ) as u32,
                },
            ).with_viewport_offset(
                ViewportOffset {
                    viewport_centre_x_coordinate_12_4: half_w,
                    viewport_centre_y_coordinate_12_4: half_h,
                },
            ).with_configuration_bits(pass_configuration_bits()).with_depth_offset(
                DepthOffset { depth_offset_factor: 0, depth_offset_units: 0 },
            ).with_clipper_z_scale_and_offset(
                ClipperZScaleAndOffset {
                    viewport_z_scale_zc_to_zs: SINGLE_PRECISION_ONE,
                    viewport_z_offset_zc_to_zs: 0,
                },
            ).with_point_size(PointSize { point_size: SINGLE_PRECISION_ONE }).with_flat_shade_flags(
                FlatShadeFlags { flat_shading_flags: 0 },
            ),
            ..self
        }
    }

    /// The rasteriser configuration that is held, or the default one where none is.
    pub open spec fn current_configuration_bits(self) -> ConfigurationBits {
        match self.state.configuration_bits.0 {
            Some(bits) => bits,
            None => ConfigurationBits::spec_default(),
        }
    }

    /// The state after `set_depth_test`: the rasteriser configuration with the depth
    /// test switched as asked. A test that is off compares with `Always` and writes
    /// no depth.
    pub open spec fn set_depth_test(
        self,
        depth_test: bool,
        compare_function: CompareFunction,
        depth_write: bool,
    ) -> EncoderState {
        self.set_configuration_bits(
            ConfigurationBits {
                early_z_enable: depth_test,
                z_updates_enable: depth_test && depth_write,
                depth_test_function: if depth_test {
                    compare_function
                } else {
                    CompareFunction::Always
                },
                ..self.current_configuration_bits()
            },
        )
    }

    /// The state after `set_cull_test`: the rasteriser configuration with the two
    /// facings enabled as asked.
    pub open spec fn set_cull_test(
        self,
        enable_forward_facing_primitive: bool,
        enable_reverse_facing_primitive: bool,
    ) -> EncoderState {
        self.set_configuration_bits(
            ConfigurationBits {
                enable_forward_facing_primitive,
                enable_reverse_facing_primitive,
                ..self.current_configuration_bits()
            },
        )
    }

    /// The state after the buffers of the texture uniforms have been relocated: each
    /// texture's relocation index is in the uniform stream.
    pub open spec fn add_uniform_relocs(self, uniforms: Seq<ShaderUniform>) -> EncoderState {
        EncoderState {
            uniforms: self.uniforms + relocation_indices(
                self.bo_handles,
                texture_handles(uniforms),
            ),
            bo_handles: relocated_all(self.bo_handles, texture_handles(uniforms)),
            ..self
        }
    }

    /// The state after the words of the uniforms have been added to the uniform
    /// stream.
    pub open spec fn add_uniforms(self, uniforms: Seq<ShaderUniform>) -> EncoderState {
        EncoderState { uniforms: self.uniforms + uniform_words(uniforms), ..self }
    }

    /// The shader record that a binding writes: clipping on, every address and count
    /// of uniforms zero, and for the vertex and the coordinate stage the mask and the
    /// bytes per vertex of the attribute arrays that the stage reads.
    pub open spec fn shader_record(
        fs_single_threaded: bool,
        fs_number_of_varyings: u8,
        attributes: Seq<ShaderAttribute>,
    ) -> GlShaderRecord {
        GlShaderRecord {
            fragment_shader_is_single_threaded: fs_single_threaded,
            point_size_included_in_shaded_vertex_data: false,
            enable_clipping: true,
            fragment_shader_number_of_uniforms_not_used_currently: 0,
            fragment_shader_number_of_varyings: fs_number_of_varyings,
            fragment_shader_code_address_offset: 0,
            fragment_shader_uniforms_address: 0,
            vertex_shader_number_of_uniforms_not_used_currently: 0,
            vertex_shader_attribute_array_select_bits: attributes_select_bits(
                attributes,
                false,
            ) as u8,
            vertex_shader_total_attributes_size: attributes_size(attributes, false) as u8,
            vertex_shader_code_address_offset: 0,
            vertex_shader_uniforms_address: 0,
            coordinate_shader_number_of_uniforms_not_used_currently: 0,
            coordinate_shader_attribute_array_select_bits: attributes_select_bits(
                attributes,
                true,
            ) as u8,
            coordinate_shader_total_attributes_size: attributes_size(attributes, true) as u8,
            coordinate_shader_code_address_offset: 0,
            coordinate_shader_uniforms_address: 0,
        }
    }

    /// The state after the shader state packet, the relocation of the three shaders and
    /// of the buffers of the attribute arrays, and the shader record: the binning
    /// stream gains the packet; the record stream gains the relocation indices of the
    /// three shaders and of each attribute's buffer, the shader record, and the
    /// attribute records.
    pub open spec fn bind_shader_record(
        self,
        fs_single_threaded: bool,
        fs_number_of_varyings: u8,
        fs: u32,
        vs: u32,
        cs: u32,
        attributes: Seq<ShaderAttribute>,
    ) -> EncoderState {
        let shaders = seq![fs, vs, cs];
        let with_shaders = relocated_all(self.bo_handles, shaders);
        EncoderState {
            bin_cl: self.bin_cl + (GlShaderState {
                address: 0,
                extended_shader_record: false,
                number_of_attribute_arrays: attributes.len() as u8,
            }).packet(),
            shader_rec: self.shader_rec + le_words(relocation_indices(self.bo_handles, shaders))
                + le_words(relocation_indices(with_shaders, attribute_handles(attributes)))
                + Self::shader_record(fs_single_threaded, fs_number_of_varyings, attributes).packet()
                + attribute_records(attributes),
            shader_rec_count: (self.shader_rec_count + 1) as u32,
            bo_handles: relocated_all(with_shaders, attribute_handles(attributes)),
            ..self
        }
    }

    /// The state after `bind_shader`: the shader record is written, then the uniform
    /// stream gains the relocation indices of the textures of the fragment, the vertex
    /// and the coordinate shader, and after all of them the uniform words of the three
    /// shaders in the same order.
    pub open spec fn bind_shader(
        self,
        fs_single_threaded: bool,
        fs_number_of_varyings: u8,
        fs: u32,
        vs: u32,
        cs: u32,
        attributes: Seq<ShaderAttribute>,
        fs_uniforms: Seq<ShaderUniform>,
        vs_uniforms: Seq<ShaderUniform>,
        cs_uniforms: Seq<ShaderUniform>,
    ) -> EncoderState {
        self.bind_shader_record(
            fs_single_threaded,
            fs_number_of_varyings,
            fs,
            vs,
            cs,
            attributes,
        ).add_uniform_relocs(fs_uniforms).add_uniform_relocs(vs_uniforms).add_uniform_relocs(
            cs_uniforms,
        ).add_uniforms(fs_uniforms).add_uniforms(vs_uniforms).add_uniforms(cs_uniforms)
    }

    /// What `bind_shader` asks of its arguments: at most eight attribute arrays; for
    /// each stage at most 255 bytes of attributes per vertex; a count of shader records
    /// and relocation indices that fit 32 bits; and textures with at least one mip
    /// level.
    pub open spec fn can_bind_shader(
        self,
        fs: u32,
        vs: u32,
        cs: u32,
        attributes: Seq<ShaderAttribute>,
        fs_uniforms: Seq<ShaderUniform>,
        vs_uniforms: Seq<ShaderUniform>,
        cs_uniforms: Seq<ShaderUniform>,
    ) -> bool {
        &&& attributes.len() <= 8
        &&& attributes_size(attributes, false) <= u8::MAX
        &&& attributes_size(attributes, true) <= u8::MAX
        &&& self.shader_rec_count < u32::MAX
        &&& self.bind_shader(
            false,
            0,
            fs,
            vs,
            cs,
            attributes,
            fs_uniforms,
            vs_uniforms,
            cs_uniforms,
        ).bo_handles.len() <= u32::MAX
        &&& uniforms_encodable(fs_uniforms)
        &&& uniforms_encodable(vs_uniforms)
        &&& uniforms_encodable(cs_uniforms)
    }

    /// The state after a record of fixed-function state was set, whatever its kind.
    pub open spec fn set_state(self, record: StateRecord) -> EncoderState {
        EncoderState { state: self.state.with_record(record), ..self }
    }

    /// The state after one call.
    #[verifier::opaque]
    pub open spec fn call(self, call: EncoderCall) -> EncoderState {
        match call {
            EncoderCall::SetState(record) => self.set_state(record),
            EncoderCall::SetDepthTest { depth_test, compare_function, depth_write } => {
                self.set_depth_test(depth_test, compare_function, depth_write)
            },
            EncoderCall::SetCullTest {
                enable_forward_facing_primitive,
                enable_reverse_facing_primitive,
            } => self.set_cull_test(
                enable_forward_facing_primitive,
                enable_reverse_facing_primitive,
            ),
            EncoderCall::Relocate(handle) => self.relocate(handle),
            EncoderCall::BindShader {
                fs_single_threaded,
                fs_number_of_varyings,
                fs,
                vs,
                cs,
                attributes,
                fs_uniforms,
                vs_uniforms,
                cs_uniforms,
            } => self.bind_shader(
                fs_single_threaded,
                fs_number_of_varyings,
                fs,
                vs,
                cs,
                attributes,
                fs_uniforms,
                vs_uniforms,
                cs_uniforms,
            ),
            EncoderCall::DrawArrayPrimitives { primitive_mode, start, length } => {
                self.draw_array_primitives(primitive_mode, start, length)
            },
            EncoderCall::DrawIndexedPrimitives {
                index_buffer,
                index_type,
                primitive_mode,
                start,
                length,
                maximum_index,
            } => self.draw_indexed_primitives(
                index_buffer,
                index_type,
                primitive_mode,
                start,
                length,
                maximum_index,
            ),
        }
    }

    /// The state after a run of calls.
    pub open spec fn calls(self, calls: Seq<EncoderCall>) -> EncoderState
        decreases calls.len(),
    {
        if calls.len() == 0 {
            self
        } else {
            self.calls(calls.drop_last()).call(calls.last())
        }
    }

    /// The state at the end of a session: a cleared encoder on which a pass was begun,
    /// a run of calls was made, and the pass was ended.
    pub open spec fn session(
        window_size: (u16, u16),
        size_in_tiles: (u8, u8),
        calls: Seq<EncoderCall>,
    ) -> EncoderState {
        Self::cleared(window_size, size_in_tiles).begin_pass().calls(calls).end_pass()
    }

    /// Each of the nine setters sets a record of its kind.
    pub proof fn lemma_setters_set_state(self)
        ensures
            forall|record: LineWidth|
                #[trigger] self.set_line_width(record)
                    == self.set_state(StateRecord::LineWidth(record)),
            forall|record: ClipWindow|
                #[trigger] self.set_clip_window(record)
                    == self.set_state(StateRecord::ClipWindow(record)),
            forall|record: ClipperXYScaling|
                #[trigger] self.set_clipper_xy_scaling(record)
                    == self.set_state(StateRecord::ClipperXYScaling(record)),
            forall|record: ViewportOffset|
                #[trigger] self.set_viewport_offset(record)
                    == self.set_state(StateRecord::ViewportOffset(record)),
            forall|record: ConfigurationBits|
                #[trigger] self.set_configuration_bits(record)
                    == self.set_state(StateRecord::ConfigurationBits(record)),
            forall|record: DepthOffset|
                #[trigger] self.set_depth_offset(record)
                    == self.set_state(StateRecord::DepthOffset(record)),
            forall|record: ClipperZScaleAndOffset|
                #[trigger] self.set_clipper_z_scale_and_offset(record)
                    == self.set_state(StateRecord::ClipperZScaleAndOffset(record)),
            forall|record: PointSize|
                #[trigger] self.set_point_size(record)
                    == self.set_state(StateRecord::PointSize(record)),
            forall|record: FlatShadeFlags|
                #[trigger] self.set_flat_shade_flags(record)
                    == self.set_state(StateRecord::FlatShadeFlags(record)),
    {
    }

    /// Between two draws, setting the same record twice puts its packet in the binning
    /// stream once: after a flush, the draw that follows the two calls adds that one
    /// packet and its own.
    pub proof fn lemma_same_record_twice(
        self,
        record: StateRecord,
        primitive_mode: PrimitiveMode,
        start: u32,
        length: u32,
    )
        ensures
            ({
                let flushed = self.flush_state();
                let drawn = flushed.set_state(record).set_state(record).draw_array_primitives(
                    primitive_mode,
                    start,
                    length,
                );
                drawn.bin_cl == flushed.bin_cl + record.packet() + (VertexArrayPrimitives {
                    primitive_mode,
                    length,
                    index_of_first_vertex: start,
                }).packet()
            }),
    {
        let flushed = self.flush_state();
        self.state.lemma_set_after_flush(record);
        self.state.flushed().lemma_set_twice(record);
    }

    /// A record that is changed and, after a draw, set back reaches the binning stream
    /// both times: each draw adds the packet of the record that was set before it.
    pub proof fn lemma_changed_record_is_written(
        self,
        changed: StateRecord,
        back: StateRecord,
        primitive_mode: PrimitiveMode,
        start: u32,
        length: u32,
    )
        ensures
            ({
                let flushed = self.flush_state();
                let draw = (VertexArrayPrimitives {
                    primitive_mode,
                    length,
                    index_of_first_vertex: start,
                }).packet();
                let drawn = flushed.set_state(changed).draw_array_primitives(
                    primitive_mode,
                    start,
                    length,
                ).set_state(back).draw_array_primitives(primitive_mode, start, length);
                drawn.bin_cl == flushed.bin_cl + changed.packet() + draw + back.packet() + draw
            }),
    {
        let flushed = self.flush_state();
        let once = flushed.set_state(changed).draw_array_primitives(primitive_mode, start, length);
        self.state.lemma_set_after_flush(changed);
        flushed.set_state(changed).state.lemma_set_after_flush(back);
        assert(once.state == flushed.set_state(changed).state.flushed());
    }

    /// No call removes or changes what the binning stream holds: it only adds to it.
    pub proof fn lemma_call_appends(self, call: EncoderCall)
        ensures
            self.bin_cl.is_prefix_of(self.call(call).bin_cl),
    {
        reveal(EncoderState::call);
        let after = self.call(call).bin_cl;
        assert(self.bin_cl =~= after.subrange(0, self.bin_cl.len() as int));
    }

    /// No run of calls removes or changes what the binning stream holds.
    pub proof fn lemma_calls_append(self, calls: Seq<EncoderCall>)
        ensures
            self.bin_cl.is_prefix_of(self.calls(calls).bin_cl),
        decreases calls.len(),
    {
        if calls.len() == 0 {
            assert(self.bin_cl =~= self.bin_cl.subrange(0, self.bin_cl.len() as int));
        } else {
            let front = self.calls(calls.drop_last());
            self.lemma_calls_append(calls.drop_last());
            front.lemma_call_appends(calls.last());
            let after = front.call(calls.last()).bin_cl;
            assert(self.bin_cl =~= after.subrange(0, self.bin_cl.len() as int));
        }
    }

    /// Beginning a pass adds the 16 bytes of the packet that configures tile binning
    /// and the byte of the packet that starts binning.
    pub proof fn lemma_begin_pass_stream(self)
        ensures
            self.begin_pass().bin_cl == self.bin_cl + (
            self.tile_binning_configuration().packet() + StartTileBinning.packet()),
            (self.tile_binning_configuration().packet() + StartTileBinning.packet()).len() == 17,
            self.tile_binning_configuration().packet()[0] == V3D21_TILE_BINNING_MODE_CONFIGURATION,
            StartTileBinning.packet() == seq![V3D21_START_TILE_BINNING],
    {
        reveal(EncoderState::begin_pass);
        lemma_append_twice(
            self.bin_cl,
            self.tile_binning_configuration().packet(),
            StartTileBinning.packet(),
        );
    }

    /// Ending a pass adds the byte of the packet that increments the semaphore and the
    /// byte of the flush packet.
    pub proof fn lemma_end_pass_stream(self)
        ensures
            self.end_pass().bin_cl == self.bin_cl + seq![V3D21_INCREMENT_SEMAPHORE, V3D21_FLUSH],
    {
        assert(self.end_pass().bin_cl =~= self.bin_cl + seq![
            V3D21_INCREMENT_SEMAPHORE,
            V3D21_FLUSH,
        ]);
    }

    /// The binning stream of every session begins with the packet that configures tile
    /// binning for the target and the packet that starts binning, and ends with the
    /// packet that increments the semaphore and the flush packet.
    pub proof fn lemma_pass_framing(
        window_size: (u16, u16),
        size_in_tiles: (u8, u8),
        calls: Seq<EncoderCall>,
    )
        ensures
            ({
                let cleared = Self::cleared(window_size, size_in_tiles);
                let stream = Self::session(window_size, size_in_tiles, calls).bin_cl;
                let head = cleared.tile_binning_configuration().packet()
                    + StartTileBinning.packet();
                &&& head.len() == 17
                &&& stream.len() >= 19
                &&& stream.subrange(0, 17) == head
                &&& stream[0] == V3D21_TILE_BINNING_MODE_CONFIGURATION
                &&& stream[16] == V3D21_START_TILE_BINNING
                &&& stream.subrange(stream.len() - 2, stream.len() as int) == seq![
                    V3D21_INCREMENT_SEMAPHORE,
                    V3D21_FLUSH,
                ]
            }),
    {
        let cleared = Self::cleared(window_size, size_in_tiles);
        let begun = cleared.begin_pass();
        let run = begun.calls(calls);
        let stream = run.end_pass().bin_cl;
        let head = cleared.tile_binning_configuration().packet() + StartTileBinning.packet();
        let tail = seq![V3D21_INCREMENT_SEMAPHORE, V3D21_FLUSH];
        cleared.lemma_begin_pass_stream();
        assert(cleared.bin_cl + head =~= head);
        assert(begun.bin_cl == head);
        begun.lemma_calls_append(calls);
        run.lemma_end_pass_stream();
        assert(head.is_prefix_of(run.bin_cl));
        assert(stream == run.bin_cl + tail);
        lemma_framed(head, run.bin_cl, tail);
        assert(run.bin_cl.len() >= 17);
        assert(stream.len() == run.bin_cl.len() + 2);
        assert(stream[0] == head[0]);
        assert(stream[16] == head[16]);
        assert(head[0] == cleared.tile_binning_configuration().packet()[0]);
        assert(head[16] == StartTileBinning.packet()[0]);
        assert(stream.subrange(stream.len() - 2, stream.len() as int) == tail);
        assert(stream.subrange(0, 17) == head);
    }

    /// A cleared encoder holds nothing of the session before: its streams and its
    /// relocation list are empty, no slot holds a record or is dirty, a flush writes
    /// nothing, and the first buffer that is relocated gets index zero, whether or not
    /// it was relocated before.
    pub proof fn lemma_session_isolation(
        window_size: (u16, u16),
        size_in_tiles: (u8, u8),
        handle: u32,
        slot: u16,
    )
        requires
            slot < 9,
        ensures
            ({
                let cleared = Self::cleared(window_size, size_in_tiles);
                &&& cleared.wf()
                &&& cleared.bin_cl.len() == 0
                &&& cleared.shader_rec.len() == 0
                &&& cleared.uniforms.len() == 0
                &&& cleared.bo_handles.len() == 0
                &&& cleared.state.held(slot) is None
                &&& !cleared.state.is_dirty(slot)
                &&& cleared.state.pending_packets() == Seq::<u8>::empty()
                &&& relocation_index(cleared.bo_handles, handle) == 0
                &&& cleared.relocate(handle).bo_handles == seq![handle]
            }),
    {
        let cleared = Self::cleared(window_size, size_in_tiles);
        lemma_clean_mask();
        assert(cleared.state.pending_packets() =~= Seq::<u8>::empty());
        assert(cleared.relocate(handle).bo_handles =~= seq![handle]);
    }

    /// What a caller can test before `bind_shader`: at most eight attribute arrays; for
    /// each stage at most 255 bytes of attributes per vertex; room for one more shader
    /// record; textures with at least one mip level; and room in the relocation list
    /// for every buffer that the binding names, were each of them new.
    pub open spec fn fits_bind_shader(
        self,
        attributes: Seq<ShaderAttribute>,
        fs_uniforms: Seq<ShaderUniform>,
        vs_uniforms: Seq<ShaderUniform>,
        cs_uniforms: Seq<ShaderUniform>,
    ) -> bool {
        &&& attributes.len() <= 8
        &&& attributes_size(attributes, false) <= u8::MAX
        &&& attributes_size(attributes, true) <= u8::MAX
        &&& self.shader_rec_count < u32::MAX
        &&& uniforms_encodable(fs_uniforms)
        &&& uniforms_encodable(vs_uniforms)
        &&& uniforms_encodable(cs_uniforms)
        &&& self.bo_handles.len() + 3 + attributes.len() + fs_uniforms.len() + vs_uniforms.len()
            + cs_uniforms.len() <= u32::MAX
    }

    /// A binding that passes the caller's test can be made, whatever the shaders.
    pub proof fn lemma_fits_bind_shader(
        self,
        fs: u32,
        vs: u32,
        cs: u32,
        attributes: Seq<ShaderAttribute>,
        fs_uniforms: Seq<ShaderUniform>,
        vs_uniforms: Seq<ShaderUniform>,
        cs_uniforms: Seq<ShaderUniform>,
    )
        requires
            self.fits_bind_shader(attributes, fs_uniforms, vs_uniforms, cs_uniforms),
        ensures
            self.can_bind_shader(
                fs,
                vs,
                cs,
                attributes,
                fs_uniforms,
                vs_uniforms,
                cs_uniforms,
            ),
    {
        let t0 = self.bo_handles;
        let t1 = relocated_all(t0, seq![fs, vs, cs]);
        let t2 = relocated_all(t1, attribute_handles(attributes));
        let t3 = relocated_all(t2, texture_handles(fs_uniforms));
        let t4 = relocated_all(t3, texture_handles(vs_uniforms));
        let t5 = relocated_all(t4, texture_handles(cs_uniforms));
        lemma_relocated_all_bound(t0, seq![fs, vs, cs]);
        lemma_relocated_all_bound(t1, attribute_handles(attributes));
        lemma_relocated_all_bound(t2, texture_handles(fs_uniforms));
        lemma_relocated_all_bound(t3, texture_handles(vs_uniforms));
        lemma_relocated_all_bound(t4, texture_handles(cs_uniforms));
        lemma_texture_handles_prefix(fs_uniforms, fs_uniforms.len() as int);
        lemma_texture_handles_count(fs_uniforms);
        lemma_texture_handles_count(vs_uniforms);
        lemma_texture_handles_count(cs_uniforms);
        assert(self.bind_shader(
            false,
            0,
            fs,
            vs,
            cs,
            attributes,
            fs_uniforms,
            vs_uniforms,
            cs_uniforms,
        ).bo_handles == t5);
    }

    /// The target was given a size in tiles that is not zero along either axis.
    pub open spec fn can_submit(self) -> bool {
        self.width_in_tiles >= 1 && self.height_in_tiles >= 1
    }
}

/// The encoder of one command list: three output streams, a relocation table and
/// the cached fixed-function state.
pub struct CommandEncoder {
    bin_cl_buf: Vec<u8>,
    shader_rec_buf: Vec<u8>,
    shader_rec_count: u32,
    uniforms: Vec<u32>,
    relocations: RelocationTable,
    window_size: (u16, u16),
    width_in_tiles: u8,
    height_in_tiles: u8,
    state: FixedFunctionState,
}

impl View for CommandEncoder {
    type V = EncoderState;

    closed spec fn view(&self) -> EncoderState {
        EncoderState {
            bin_cl: self.bin_cl_buf@,
            shader_rec: self.shader_rec_buf@,
            shader_rec_count: self.shader_rec_count,
            uniforms: self.uniforms@,
            bo_handles: self.relocations@,
            window_size: self.window_size,
            width_in_tiles: self.width_in_tiles,
            height_in_tiles: self.height_in_tiles,
            state: self.state,
        }
    }
}

impl CommandEncoder {
    /// The encoder's own consistency, and that of the state it holds.
    pub closed spec fn wf(&self) -> bool {
        self.relocations.wf() && self@.wf()
    }

    /// A consistent encoder holds a consistent state.
    pub proof fn lemma_wf(&self)
        requires
            self.wf(),
        ensures
            self@.wf(),
    {
    }

    /// An encoder for a target of the given size, with nothing encoded.
    pub fn new(window_size: (u16, u16)) -> (encoder: Self)
        ensures
            encoder.wf(),
            encoder@ == EncoderState::cleared(window_size, (0, 0)),
    {
        CommandEncoder {
            bin_cl_buf: Vec::new(),
            shader_rec_buf: Vec::new(),
            shader_rec_count: 0,
            uniforms: Vec::new(),
            relocations: RelocationTable::new(),
            window_size,
            width_in_tiles: 0,
            height_in_tiles: 0,
            state: FixedFunctionState::new(),
        }
    }

    /// The size in pixels of the target.
    pub fn window_size(&self) -> (size: (u16, u16))
        ensures
            size == self@.window_size,
    {
        self.window_size
    }

    /// The binning control list encoded so far.
    pub fn bin_cl(&self) -> (stream: &Vec<u8>)
        ensures
            stream@ == self@.bin_cl,
    {
        &self.bin_cl_buf
    }

    /// The shader records encoded so far.
    pub fn shader_rec(&self) -> (stream: &Vec<u8>)
        ensures
            stream@ == self@.shader_rec,
    {
        &self.shader_rec_buf
    }

    /// The number of shader records encoded so far.
    pub fn shader_rec_count(&self) -> (count: u32)
        ensures
            count == self@.shader_rec_count,
    {
        self.shader_rec_count
    }

    /// The uniform words encoded so far.
    pub fn uniforms(&self) -> (stream: &Vec<u32>)
        ensures
            stream@ == self@.uniforms,
    {
        &self.uniforms
    }

    /// The handles of the relocated buffers, each at its relocation index.
    pub fn bo_handles(&self) -> (handles: &Vec<u32>)
        ensures
            handles@ == self@.bo_handles,
    {
        self.relocations.handles()
    }

    /// The relocation index of a buffer, which joins the relocation list where it is
    /// new to the session.
    pub fn relocate_buffer(&mut self, buffer: Buffer) -> (index: u32)
        requires
            old(self).wf(),
            old(self)@.bo_handles.contains(buffer.handle) || old(self)@.bo_handles.len()
                < u32::MAX,
        ensures
            final(self).wf(),
            final(self)@ == old(self)@.relocate(buffer.handle),
            index == relocation_index(old(self)@.bo_handles, buffer.handle),
    {
        self.relocate_handle(buffer.handle())
    }

    /// The relocation index of the buffer with the given handle, which joins the
    /// relocation list where it is new to the session.
    pub fn relocate_handle(&mut self, handle: u32) -> (index: u32)
        requires
            old(self).wf(),
            old(self)@.bo_handles.contains(handle) || old(self)@.bo_handles.len() < u32::MAX,
        ensures
            final(self).wf(),
            final(self)@ == old(self)@.relocate(handle),
            index == relocation_index(old(self)@.bo_handles, handle),
    {
        let index = self.relocations.relocate(handle);
        proof {
            self.relocations.lemma_wf();
        }
        index
    }

    /// Starts a new session: empties the three streams and the relocation list, and
    /// leaves every state slot absent and clean.
    pub fn clear(&mut self)
        ensures
            final(self).wf(),
            final(self)@ == EncoderState::cleared(
                old(self)@.window_size,
                (old(self)@.width_in_tiles, old(self)@.height_in_tiles),
            ),
    {
        self.bin_cl_buf.clear();
        self.shader_rec_buf.clear();
        self.shader_rec_count = 0;
        self.uniforms.clear();
        self.relocations.clear();
        self.state.clear();
    }

    /// Ends the pass: the packet that increments the semaphore, then the flush packet.
    pub fn end_pass(&mut self)
        requires
            old(self).wf(),
        ensures
            final(self).wf(),
            final(self)@ == old(self)@.end_pass(),
    {
        IncrementSemaphore.encode(&mut self.bin_cl_buf);
        Flush.encode(&mut self.bin_cl_buf);
    }

    /// Writes the record of every dirty slot to the binning stream and leaves every
    /// slot clean.
    fn flush_state(&mut self)
        requires
            old(self).wf(),
        ensures
            final(self).wf(),
            final(self)@ == old(self)@.flush_state(),
    {
        self.state.flush(&mut self.bin_cl_buf);
    }

    /// Holds a new `LineWidth` record, to be written before the next draw.
    pub fn set_line_width(&mut self, line_width: LineWidth)
        requires
            old(self).wf(),
        ensures
            final(self).wf(),
            final(self)@ == old(self)@.set_line_width(line_width),
    {
        self.state.set_line_width(line_width);
    }

    /// Holds a new `ClipWindow` record, to be written before the next draw.
    pub fn set_clip_window(&mut self, clip_window: ClipWindow)
        requires
            old(self).wf(),
        ensures
            final(self).wf(),
            final(self)@ == old(self)@.set_clip_window(clip_window),
    {
        self.state.set_clip_window(clip_window);
    }

    /// Holds a new `ClipperXYScaling` record, to be written before the next draw.
    pub fn set_clipper_xy_scaling(&mut self, clipper_xy_scaling: ClipperXYScaling)
        requires
            old(self).wf(),
        ensures
            final(self).wf(),
            final(self)@ == old(self)@.set_clipper_xy_scaling(clipper_xy_scaling),
    {
        self.state.set_clipper_xy_scaling(clipper_xy_scaling);
    }

    /// Holds a new `ViewportOffset` record, to be written before the next draw.
    pub fn set_viewport_offset(&mut self, viewport_offset: ViewportOffset)
        requires
            old(self).wf(),
        ensures
            final(self).wf(),
            final(self)@ == old(self)@.set_viewport_offset(viewport_offset),
    {
        self.state.set_viewport_offset(viewport_offset);
    }

    /// Holds a new `ConfigurationBits` record, to be written before the next draw.
    pub fn set_configuration_bits(&mut self, configuration_bits: ConfigurationBits)
        requires
            old(self).wf(),
            configuration_bits.encodable(),
        ensures
            final(self).wf(),
            final(self)@ == old(self)@.set_configuration_bits(configuration_bits),
    {
        self.state.set_configuration_bits(configuration_bits);
    }

    /// Holds a new `DepthOffset` record, to be written before the next draw.
    pub fn set_depth_offset(&mut self, depth_offset: DepthOffset)
        requires
            old(self).wf(),
        ensures
            final(self).wf(),
            final(self)@ == old(self)@.set_depth_offset(depth_offset),
    {
        self.state.set_depth_offset(depth_offset);
    }

    /// Holds a new `ClipperZScaleAndOffset` record, to be written before the next draw.
    pub fn set_clipper_z_scale_and_offset(
        &mut self,
        clipper_z_scale_and_offset: ClipperZScaleAndOffset,
    )
        requires
            old(self).wf(),
        ensures
            final(self).wf(),
            final(self)@ == old(self)@.set_clipper_z_scale_and_offset(clipper_z_scale_and_offset),
    {
        self.state.set_clipper_z_scale_and_offset(clipper_z_scale_and_offset);
    }

    /// Holds a new `PointSize` record, to be written before the next draw.
    pub fn set_point_size(&mut self, point_size: PointSize)
        requires
            old(self).wf(),
        ensures
            final(self).wf(),
            final(self)@ == old(self)@.set_point_size(point_size),
    {
        self.state.set_point_size(point_size);
    }

    /// Holds a new `FlatShadeFlags` record, to be written before the next draw.
    pub fn set_flat_shade_flags(&mut self, flat_shade_flags: FlatShadeFlags)
        requires
            old(self).wf(),
        ensures
            final(self).wf(),
            final(self)@ == old(self)@.set_flat_shade_flags(flat_shade_flags),
    {
        self.state.set_flat_shade_flags(flat_shade_flags);
    }

    /// Draws `length` consecutive vertices from vertex `start` on, with the state set
    /// so far.
    pub fn draw_array_primitives(&mut self, primitive_mode: PrimitiveMode, start: u32, length: u32)
        requires
            old(self).wf(),
        ensures
            final(self).wf(),
            final(self)@ == old(self)@.draw_array_primitives(primitive_mode, start, length),
    {
        self.flush_state();
        (VertexArrayPrimitives { index_of_first_vertex: start, length, primitive_mode }).encode(
            &mut self.bin_cl_buf,
        );
    }

    /// Draws the vertices that `length` indices name, from index `start` of the index
    /// buffer on, with the state set so far.
    pub fn draw_indexed_primitives(
        &mut self,
        index_buffer: Buffer,
        index_type: IndexType,
        primitive_mode: PrimitiveMode,
        start: u32,
        length: u32,
        maximum_index: u32,
    )
        requires
            old(self).wf(),
            old(self)@.bo_handles.contains(index_buffer.handle) || old(self)@.bo_handles.len()
                < u32::MAX,
            (index_type.spec_code() + 1) * start <= u32::MAX,
        ensures
            final(self).wf(),
            final(self)@ == old(self)@.draw_indexed_primitives(
                index_buffer,
                index_type,
                primitive_mode,
                start,
                length,
                maximum_index,
            ),
    {
        self.flush_state();
        let index_buffer_idx = self.relocate_buffer(index_buffer);
        (GemRelocations { buffer0: index_buffer_idx, buffer1: 0 }).encode(&mut self.bin_cl_buf);
        (IndexedPrimitiveList {
            index_type,
            primitive_mode,
            length,
            address_of_indices_list: (index_type.code() as u32 + 1) * start,
            maximum_index,
        }).encode(&mut self.bin_cl_buf);
    }

    /// Begins a pass on the target: the packet that configures binning, the packet that
    /// starts it, and the defaults of the nine state slots, all of them dirty.
    pub fn begin_pass(&mut self)
        requires
            old(self).wf(),
            old(self)@.can_begin_pass(),
        ensures
            final(self).wf(),
            final(self)@ == old(self)@.begin_pass(),
    {
        proof {
            reveal(EncoderState::begin_pass);
        }
        let w = self.window_size.0;
        let h = self.window_size.1;
        let mut tile_bin_config = TileBinningModeConfiguration::default();
        tile_bin_config.set_size_in_pixels(w, h);
        tile_bin_config.encode(&mut self.bin_cl_buf);
        self.width_in_tiles = tile_bin_config.width_in_tiles;
        self.height_in_tiles = tile_bin_config.height_in_tiles;

        StartTileBinning.encode(&mut self.bin_cl_buf);

        self.set_line_width(LineWidth { line_width: 0 });
        self.set_clip_window(
            ClipWindow {
                clip_window_left_pixel_coordinate: 0,
                clip_window_bottom_pixel_coordinate: 0,
                clip_window_width_in_pixels: w,
                clip_window_height_in_pixels: h,
            },
        );
        self.set_clipper_xy_scaling(
            ClipperXYScaling {
                viewport_half_width_in_1_16th_of_pixel: single_precision_bits_of(w * 16 / 2),
                viewport_half_height_in_1_16th_of_pixel: single_precision_bits_of(h * 16 / 2),
            },
        );
        self.set_viewport_offset(
            ViewportOffset {
                viewport_centre_x_coordinate_12_4: w * 16 / 2,
                viewport_centre_y_coordinate_12_4: h * 16 / 2,
            },
        );
        let depth_test_enable = false;
        let depth_write_enable = false;
        self.set_configuration_bits(
            ConfigurationBits {
                early_z_updates_enable: true,
                early_z_enable: depth_test_enable,
                z_updates_enable: depth_write_enable && depth_test_enable,
                depth_test_function: if depth_test_enable {
                    CompareFunction::LEqual
                } else {
                    CompareFunction::Always
                },
                coverage_read_mode: false,
                coverage_pipe_select: false,
                coverage_update_mode: 0,
                coverage_read_type: false,
                antialiased_points_and_lines: false,
                rasteriser_oversample_mode: 0,
                enable_depth_offset: false,
                clockwise_primitives: false,
                enable_reverse_facing_primitive: true,
                enable_forward_facing_primitive: true,
            },
        );
        self.set_depth_offset(DepthOffset { depth_offset_factor: 0, depth_offset_units: 0 });
        self.set_clipper_z_scale_and_offset(
            ClipperZScaleAndOffset {
                viewport_z_scale_zc_to_zs: SINGLE_PRECISION_ONE,
                viewport_z_offset_zc_to_zs: 0,
            },
        );
        self.set_point_size(PointSize { point_size: SINGLE_PRECISION_ONE });
        self.set_flat_shade_flags(FlatShadeFlags { flat_shading_flags: 0 });
    }

    /// The rasteriser configuration that is held, or the default one where none is.
    fn configuration_bits(&self) -> (bits: ConfigurationBits)
        requires
            self.wf(),
        ensures
            bits == self@.current_configuration_bits(),
            bits.encodable(),
    {
        match self.state.configuration_bits.0 {
            Some(bits) => bits,
            None => ConfigurationBits::default(),
        }
    }

    /// Switches the depth test and the depth writes, and picks the comparison of the
    /// test.
    pub fn set_depth_test(
        &mut self,
        depth_test: bool,
        compare_function: CompareFunction,
        depth_write: bool,
    )
        requires
            old(self).wf(),
        ensures
            final(self).wf(),
            final(self)@ == old(self)@.set_depth_test(depth_test, compare_function, depth_write),
    {
        let mut new_configuration_bits = self.configuration_bits();
        new_configuration_bits.early_z_enable = depth_test;
        new_configuration_bits.z_updates_enable = depth_test && depth_write;
        new_configuration_bits.depth_test_function = if depth_test {
            compare_function
        } else {
            CompareFunction::Always
        };
        self.set_configuration_bits(new_configuration_bits);
    }

    /// Picks the facings of the primitives that are drawn.
    pub fn set_cull_test(
        &mut self,
        enable_forward_facing_primitive: bool,
        enable_reverse_facing_primitive: bool,
    )
        requires
            old(self).wf(),
        ensures
            final(self).wf(),
            final(self)@ == old(self)@.set_cull_test(
                enable_forward_facing_primitive,
                enable_reverse_facing_primitive,
            ),
    {
        let mut new_configuration_bits = self.configuration_bits();
        new_configuration_bits.enable_forward_facing_primitive = enable_forward_facing_primitive;
        new_configuration_bits.enable_reverse_facing_primitive = enable_reverse_facing_primitive;
        self.set_configuration_bits(new_configuration_bits);
    }

    /// Relocates the buffer of each texture among the uniforms and adds its relocation
    /// index to the uniform stream.
    fn add_uniform_relocs(&mut self, uniforms: &[ShaderUniform])
        requires
            old(self).wf(),
            old(self)@.add_uniform_relocs(uniforms@).bo_handles.len() <= u32::MAX,
        ensures
            final(self).wf(),
            final(self)@ == old(self)@.add_uniform_relocs(uniforms@),
    {
        let ghost before = self@;
        let ghost all = texture_handles(uniforms@);
        let mut i: usize = 0;
        assert(uniforms@.take(0) =~= Seq::<ShaderUniform>::empty());
        assert(self.uniforms@ =~= before.uniforms + Seq::<u32>::empty());
        while i < uniforms.len()
            invariant
                i <= uniforms.len(),
                self.wf(),
                before.bo_handles.no_duplicates(),
                all == texture_handles(uniforms@),
                relocated_all(before.bo_handles, all).len() <= u32::MAX,
                self@ == (EncoderState {
                    uniforms: before.uniforms + relocation_indices(
                        before.bo_handles,
                        texture_handles(uniforms@.take(i as int)),
                    ),
                    bo_handles: relocated_all(
                        before.bo_handles,
                        texture_handles(uniforms@.take(i as int)),
                    ),
                    ..before
                }),
            decreases uniforms.len() - i,
        {
            let ghost done = texture_handles(uniforms@.take(i as int));
            proof {
                lemma_uniforms_step(uniforms@, i as int);
                lemma_texture_handles_prefix(uniforms@, i as int + 1);
                lemma_relocated_all_grows(
                    before.bo_handles,
                    all,
                    texture_handles(uniforms@.take(i as int + 1)).len() as int,
                );
            }
            match &uniforms[i] {
                ShaderUniform::Texture(tex) => {
                    proof {
                        lemma_relocated_push(before.bo_handles, done, tex.buffer.handle);
                    }
                    let tex_idx = self.relocate_buffer(tex.buffer);
                    self.uniforms.push(tex_idx);
                    proof {
                        lemma_append_twice(
                            before.uniforms,
                            relocation_indices(before.bo_handles, done),
                            seq![tex_idx],
                        );
                        assert(relocation_indices(before.bo_handles, done) + seq![tex_idx]
                            =~= relocation_indices(before.bo_handles, done).push(tex_idx));
                        assert(self.uniforms@ =~= (before.uniforms + relocation_indices(
                            before.bo_handles,
                            done,
                        )) + seq![tex_idx]);
                    }
                },
                ShaderUniform::Constant(_) => {},
            }
            i += 1;
        }
        assert(uniforms@.take(i as int) =~= uniforms@);
    }

    /// Adds the words of the uniforms to the uniform stream.
    fn add_uniforms(&mut self, uniforms: &[ShaderUniform])
        requires
            old(self).wf(),
            uniforms_encodable(uniforms@),
        ensures
            final(self).wf(),
            final(self)@ == old(self)@.add_uniforms(uniforms@),
    {
        let ghost before = self@;
        let mut i: usize = 0;
        assert(uniforms@.take(0) =~= Seq::<ShaderUniform>::empty());
        assert(self.uniforms@ =~= before.uniforms + Seq::<u32>::empty());
        while i < uniforms.len()
            invariant
                i <= uniforms.len(),
                self.wf(),
                uniforms_encodable(uniforms@),
                self@ == (EncoderState {
                    uniforms: before.uniforms + uniform_words(uniforms@.take(i as int)),
                    ..before
                }),
            decreases uniforms.len() - i,
        {
            let ghost done = uniform_words(uniforms@.take(i as int));
            proof {
                lemma_uniforms_step(uniforms@, i as int);
                lemma_append_twice(before.uniforms, done, uniform_word_seq(uniforms@[i as int]));
            }
            match &uniforms[i] {
                ShaderUniform::Texture(tex) => {
                    self.uniforms.push(tex.config.get_1d_word());
                    if tex.config.height > 1 {
                        self.uniforms.push(tex.config.get_2d_word());
                    }
                },
                ShaderUniform::Constant(constant) => {
                    self.uniforms.push(*constant);
                },
            }
            assert(self.uniforms@ =~= (before.uniforms + done) + uniform_word_seq(
                uniforms@[i as int],
            ));
            i += 1;
        }
        assert(uniforms@.take(i as int) =~= uniforms@);
    }

    /// Relocates the three shaders and writes their relocation indices to the record
    /// stream.
    fn relocate_shaders(&mut self, fs: u32, vs: u32, cs: u32)
        requires
            old(self).wf(),
            relocated_all(old(self)@.bo_handles, seq![fs, vs, cs]).len() <= u32::MAX,
        ensures
            final(self).wf(),
            final(self)@ == (EncoderState {
                shader_rec: old(self)@.shader_rec + le_words(
                    relocation_indices(old(self)@.bo_handles, seq![fs, vs, cs]),
                ),
                bo_handles: relocated_all(old(self)@.bo_handles, seq![fs, vs, cs]),
                ..old(self)@
            }),
    {
        let ghost before = self@;
        let ghost shaders = seq![fs, vs, cs];
        proof {
            assert(seq![fs].push(vs).push(cs) =~= shaders);
            assert(Seq::<u32>::empty().push(fs) =~= seq![fs]);
            lemma_relocated_push(before.bo_handles, Seq::empty(), fs);
            lemma_relocated_push(before.bo_handles, seq![fs], vs);
            lemma_relocated_push(before.bo_handles, seq![fs].push(vs), cs);
            lemma_relocated_all_grows(before.bo_handles, shaders, 1);
            lemma_relocated_all_grows(before.bo_handles, shaders, 2);
            assert(shaders.take(1) =~= seq![fs]);
            assert(shaders.take(2) =~= seq![fs].push(vs));
            assert(relocated_all(before.bo_handles, Seq::empty()) == before.bo_handles);
        }
        let fs_idx = self.relocate_handle(fs);
        let vs_idx = self.relocate_handle(vs);
        let cs_idx = self.relocate_handle(cs);
        write_u32_le(&mut self.shader_rec_buf, fs_idx);
        write_u32_le(&mut self.shader_rec_buf, vs_idx);
        write_u32_le(&mut self.shader_rec_buf, cs_idx);
        proof {
            let indices = relocation_indices(before.bo_handles, shaders);
            assert(indices =~= seq![fs_idx, vs_idx, cs_idx]);
            lemma_le_words_push(Seq::empty(), fs_idx);
            lemma_le_words_push(seq![fs_idx], vs_idx);
            lemma_le_words_push(seq![fs_idx].push(vs_idx), cs_idx);
            assert(Seq::<u32>::empty().push(fs_idx) =~= seq![fs_idx]);
            assert(seq![fs_idx].push(vs_idx).push(cs_idx) =~= indices);
            assert(self.shader_rec_buf@ =~= before.shader_rec + le_words(indices));
        }
    }

    /// Relocates the buffer of each attribute array and writes its relocation index to
    /// the record stream. Gives, for the vertex and then for the coordinate stage, the
    /// bytes per vertex and the mask of the arrays that the stage reads.
    fn relocate_attributes(&mut self, attributes: &[ShaderAttribute]) -> (totals: (u8, u8, u8, u8))
        requires
            old(self).wf(),
            attributes@.len() <= 8,
            attributes_size(attributes@, false) <= u8::MAX,
            attributes_size(attributes@, true) <= u8::MAX,
            relocated_all(old(self)@.bo_handles, attribute_handles(attributes@)).len()
                <= u32::MAX,
        ensures
            final(self).wf(),
            final(self)@ == (EncoderState {
                shader_rec: old(self)@.shader_rec + le_words(
                    relocation_indices(old(self)@.bo_handles, attribute_handles(attributes@)),
                ),
                bo_handles: relocated_all(old(self)@.bo_handles, attribute_handles(attributes@)),
                ..old(self)@
            }),
            totals.0 == attributes_size(attributes@, false),
            totals.1 == attributes_select_bits(attributes@, false),
            totals.2 == attributes_size(attributes@, true),
            totals.3 == attributes_select_bits(attributes@, true),
    {
        let ghost before = self@;
        let ghost handles = attribute_handles(attributes@);
        proof {
            assert(handles.take(0) =~= Seq::<u32>::empty());
            assert(attributes@.take(0) =~= Seq::<ShaderAttribute>::empty());
            assert(self.shader_rec_buf@ =~= before.shader_rec + le_words(
                relocation_indices(before.bo_handles, handles.take(0)),
            ));
        }
        let mut vs_attributes_size: u8 = 0;
        let mut vs_attributes_bits: u8 = 0;
        let mut cs_attributes_size: u8 = 0;
        let mut cs_attributes_bits: u8 = 0;
        let mut i: usize = 0;
        while i < attributes.len()
            invariant
                i <= attributes.len() <= 8,
                self.wf(),
                before.bo_handles.no_duplicates(),
                handles == attribute_handles(attributes@),
                relocated_all(before.bo_handles, handles).len() <= u32::MAX,
                attributes_size(attributes@, false) <= u8::MAX,
                attributes_size(attributes@, true) <= u8::MAX,
                vs_attributes_size == attributes_size(attributes@.take(i as int), false),
                cs_attributes_size == attributes_size(attributes@.take(i as int), true),
                vs_attributes_bits == attributes_select_bits(attributes@.take(i as int), false),
                cs_attributes_bits == attributes_select_bits(attributes@.take(i as int), true),
                self@ == (EncoderState {
                    shader_rec: before.shader_rec + le_words(
                        relocation_indices(before.bo_handles, handles.take(i as int)),
                    ),
                    bo_handles: relocated_all(before.bo_handles, handles.take(i as int)),
                    ..before
                }),
            decreases attributes.len() - i,
        {
            let attribute = &attributes[i];
            let ghost done = handles.take(i as int);
            proof {
                lemma_attributes_step(attributes@, i as int, false);
                lemma_attributes_step(attributes@, i as int, true);
                lemma_attributes_bounds(attributes@, i as int + 1, false);
                lemma_attributes_bounds(attributes@, i as int + 1, true);
                lemma_attributes_mask(attributes@, i as int, false);
                lemma_attributes_mask(attributes@, i as int, true);
                lemma_relocated_all_grows(before.bo_handles, handles, i as int + 1);
                lemma_relocated_push(before.bo_handles, done, attribute.buffer.handle);
                lemma2_to64();
                if i < 7 {
                    lemma_pow2_strictly_increases(i as nat, 7);
                }
                lemma_u8_shl_is_mul(1, i as u8);
            }
            let buf_idx = self.relocate_buffer(attribute.buffer);
            write_u32_le(&mut self.shader_rec_buf, buf_idx);
            proof {
                lemma_le_words_push(relocation_indices(before.bo_handles, done), buf_idx);
                lemma_append_twice(
                    before.shader_rec,
                    le_words(relocation_indices(before.bo_handles, done)),
                    le_bytes_u32(buf_idx),
                );
            }
            if attribute.vs {
                proof {
                    lemma_or_high_bit(vs_attributes_bits, i as u8);
                }
                vs_attributes_size += attribute.record.number_of_bytes_minus_1 + 1;
                vs_attributes_bits = vs_attributes_bits | (1u8 << i);
            }
            if attribute.cs {
                proof {
                    lemma_or_high_bit(cs_attributes_bits, i as u8);
                }
                cs_attributes_size += attribute.record.number_of_bytes_minus_1 + 1;
                cs_attributes_bits = cs_attributes_bits | (1u8 << i);
            }
            i += 1;
        }
        proof {
            assert(attributes@.take(i as int) =~= attributes@);
            assert(handles.take(i as int) =~= handles);
        }
        (vs_attributes_size, vs_attributes_bits, cs_attributes_size, cs_attributes_bits)
    }

    /// Writes the attribute record of each array to the record stream.
    fn write_attribute_records(&mut self, attributes: &[ShaderAttribute])
        requires
            old(self).wf(),
        ensures
            final(self).wf(),
            final(self)@ == (EncoderState {
                shader_rec: old(self)@.shader_rec + attribute_records(attributes@),
                ..old(self)@
            }),
    {
        let ghost before = self@;
        assert(attributes@.take(0) =~= Seq::<ShaderAttribute>::empty());
        assert(self.shader_rec_buf@ =~= before.shader_rec + attribute_records(
            attributes@.take(0),
        ));
        let mut j: usize = 0;
        while j < attributes.len()
            invariant
                j <= attributes.len(),
                self.wf(),
                self@ == (EncoderState {
                    shader_rec: before.shader_rec + attribute_records(attributes@.take(j as int)),
                    ..before
                }),
            decreases attributes.len() - j,
        {
            proof {
                lemma_attributes_step(attributes@, j as int, false);
                lemma_append_twice(
                    before.shader_rec,
                    attribute_records(attributes@.take(j as int)),
                    attributes@[j as int].record.packet(),
                );
            }
            attributes[j].record.encode(&mut self.shader_rec_buf);
            j += 1;
        }
        assert(attributes@.take(j as int) =~= attributes@);
    }

    /// Writes the shader state packet and relocates the three shaders and the buffers
    /// of the attribute arrays; writes their relocation indices, the shader record and
    /// the attribute records to the record stream.
    fn bind_shader_record(
        &mut self,
        fs_single_threaded: bool,
        fs_number_of_varyings: u8,
        fs: u32,
        vs: u32,
        cs: u32,
        attributes: &[ShaderAttribute],
    )
        requires
            old(self).wf(),
            attributes@.len() <= 8,
            attributes_size(attributes@, false) <= u8::MAX,
            attributes_size(attributes@, true) <= u8::MAX,
            old(self)@.shader_rec_count < u32::MAX,
            old(self)@.bind_shader_record(
                fs_single_threaded,
                fs_number_of_varyings,
                fs,
                vs,
                cs,
                attributes@,
            ).bo_handles.len() <= u32::MAX,
        ensures
            final(self).wf(),
            final(self)@ == old(self)@.bind_shader_record(
                fs_single_threaded,
                fs_number_of_varyings,
                fs,
                vs,
                cs,
                attributes@,
            ),
    {
        let ghost before = self@;
        proof {
            lemma_relocated_all_grows(
                relocated_all(before.bo_handles, seq![fs, vs, cs]),
                attribute_handles(attributes@),
                0,
            );
        }
        (GlShaderState {
            address: 0,
            extended_shader_record: false,
            number_of_attribute_arrays: attributes.len() as u8,
        }).encode(&mut self.bin_cl_buf);
        self.relocate_shaders(fs, vs, cs);
        self.shader_rec_count += 1;
        let (vs_attributes_size, vs_attributes_bits, cs_attributes_size, cs_attributes_bits) =
            self.relocate_attributes(attributes);
        (GlShaderRecord {
            fragment_shader_is_single_threaded: fs_single_threaded,
            point_size_included_in_shaded_vertex_data: false,
            enable_clipping: true,
            fragment_shader_number_of_uniforms_not_used_currently: 0,
            fragment_shader_number_of_varyings: fs_number_of_varyings,
            fragment_shader_code_address_offset: 0,
            fragment_shader_uniforms_address: 0,
            vertex_shader_number_of_uniforms_not_used_currently: 0,
            vertex_shader_attribute_array_select_bits: vs_attributes_bits,
            vertex_shader_total_attributes_size: vs_attributes_size,
            vertex_shader_code_address_offset: 0,
            vertex_shader_uniforms_address: 0,
            coordinate_shader_number_of_uniforms_not_used_currently: 0,
            coordinate_shader_attribute_array_select_bits: cs_attributes_bits,
            coordinate_shader_total_attributes_size: cs_attributes_size,
            coordinate_shader_code_address_offset: 0,
            coordinate_shader_uniforms_address: 0,
        }).encode(&mut self.shader_rec_buf);
        self.write_attribute_records(attributes);
    }

    /// Binds a triple of fragment, vertex and coordinate shader with its attribute
    /// arrays and uniforms.
    pub fn bind_shader(
        &mut self,
        fs_single_threaded: bool,
        fs_number_of_varyings: u8,
        fs: u32,
        vs: u32,
        cs: u32,
        attributes: &[ShaderAttribute],
        fs_uniforms: &[ShaderUniform],
        vs_uniforms: &[ShaderUniform],
        cs_uniforms: &[ShaderUniform],
    )
        requires
            old(self).wf(),
            old(self)@.can_bind_shader(
                fs,
                vs,
                cs,
                attributes@,
                fs_uniforms@,
                vs_uniforms@,
                cs_uniforms@,
            ),
        ensures
            final(self).wf(),
            final(self)@ == old(self)@.bind_shader(
                fs_single_threaded,
                fs_number_of_varyings,
                fs,
                vs,
                cs,
                attributes@,
                fs_uniforms@,
                vs_uniforms@,
                cs_uniforms@,
            ),
    {
        proof {
            let s0 = self@;
            let s1 = s0.bind_shader_record(false, 0, fs, vs, cs, attributes@);
            let s2 = s1.add_uniform_relocs(fs_uniforms@);
            let s3 = s2.add_uniform_relocs(vs_uniforms@);
            let s4 = s3.add_uniform_relocs(cs_uniforms@);
            lemma_relocated_all_grows(s3.bo_handles, texture_handles(cs_uniforms@), 0);
            lemma_relocated_all_grows(s2.bo_handles, texture_handles(vs_uniforms@), 0);
            lemma_relocated_all_grows(s1.bo_handles, texture_handles(fs_uniforms@), 0);
            assert(s4.bo_handles.len() <= u32::MAX);
            assert(s1.bo_handles == s0.bind_shader_record(
                fs_single_threaded,
                fs_number_of_varyings,
                fs,
                vs,
                cs,
                attributes@,
            ).bo_handles);
        }
        self.bind_shader_record(
            fs_single_threaded,
            fs_number_of_varyings,
            fs,
            vs,
            cs,
            attributes,
        );
        self.add_uniform_relocs(fs_uniforms);
        self.add_uniform_relocs(vs_uniforms);
        self.add_uniform_relocs(cs_uniforms);

        self.add_uniforms(fs_uniforms);
        self.add_uniforms(vs_uniforms);
        self.add_uniforms(cs_uniforms);
    }

    /// The size in tiles of the target, as the last pass that was begun set it.
    pub fn size_in_tiles(&self) -> (size: (u8, u8))
        ensures
            size == (self@.width_in_tiles, self@.height_in_tiles),
    {
        (self.width_in_tiles, self.height_in_tiles)
    }

    /// Whether every texture among the uniforms has at least one mip level.
    fn check_uniforms(uniforms: &[ShaderUniform]) -> (ok: bool)
        ensures
            ok == uniforms_encodable(uniforms@),
    {
        let mut i: usize = 0;
        while i < uniforms.len()
            invariant
                i <= uniforms.len(),
                forall|k: int|
                    0 <= k < i ==> (#[trigger] uniforms@[k] matches ShaderUniform::Texture(texture)
                        ==> texture.config.num_mips >= 1),
            decreases uniforms.len() - i,
        {
            match &uniforms[i] {
                ShaderUniform::Texture(texture) => {
                    if texture.config.num_mips < 1 {
                        return false;
                    }
                },
                ShaderUniform::Constant(_) => {},
            }
            i += 1;
        }
        true
    }

    /// Whether the bytes per vertex of the attribute arrays that a stage reads fit a
    /// byte.
    fn check_attributes_size(attributes: &[ShaderAttribute], coordinate: bool) -> (ok: bool)
        ensures
            ok == (attributes_size(attributes@, coordinate) <= u8::MAX),
    {
        let mut total: u32 = 0;
        let mut i: usize = 0;
        assert(attributes@.take(0) =~= Seq::<ShaderAttribute>::empty());
        while i < attributes.len()
            invariant
                i <= attributes.len(),
                total == attributes_size(attributes@.take(i as int), coordinate),
                total <= u8::MAX,
            decreases attributes.len() - i,
        {
            proof {
                lemma_attributes_step(attributes@, i as int, coordinate);
                lemma_attributes_bounds(attributes@, i as int + 1, coordinate);
            }
            let selected = if coordinate {
                attributes[i].cs
            } else {
                attributes[i].vs
            };
            if selected {
                total += attributes[i].record.number_of_bytes_minus_1 as u32 + 1;
            }
            if total > 255 {
                return false;
            }
            i += 1;
        }
        assert(attributes@.take(i as int) =~= attributes@);
        true
    }

    /// Whether a binding with these attribute arrays and uniforms passes the test that
    /// callers run before `bind_shader`.
    pub fn fits_bind_shader(
        &self,
        attributes: &[ShaderAttribute],
        fs_uniforms: &[ShaderUniform],
        vs_uniforms: &[ShaderUniform],
        cs_uniforms: &[ShaderUniform],
    ) -> (ok: bool)
        requires
            self.wf(),
        ensures
            ok == self@.fits_bind_shader(
                attributes@,
                fs_uniforms@,
                vs_uniforms@,
                cs_uniforms@,
            ),
    {
        let handles = self.relocations.handles().len() as u128;
        let named = 3 + attributes.len() as u128 + fs_uniforms.len() as u128
            + vs_uniforms.len() as u128 + cs_uniforms.len() as u128;
        attributes.len() <= 8 && Self::check_attributes_size(attributes, false)
            && Self::check_attributes_size(attributes, true) && self.shader_rec_count < u32::MAX
            && Self::check_uniforms(fs_uniforms) && Self::check_uniforms(vs_uniforms)
            && Self::check_uniforms(cs_uniforms) && handles + named <= u32::MAX as u128
    }

    /// Relocates the buffer that the frame is written to, and gives what is handed to
    /// the kernel with the command list: the streams, the handles of the relocated
    /// buffers, the whole target as the range of tiles, the buffer as a tiled 32-bit
    /// colour surface to write, no other surface, and the colour to clear to.
    pub fn submit_args(&mut self, clear_color: u32, color_write: Buffer) -> (args: SubmitClArgs<'_>)
        requires
            old(self).wf(),
            old(self)@.can_submit(),
            old(self)@.bo_handles.contains(color_write.handle) || old(self)@.bo_handles.len()
                < u32::MAX,
        ensures
            final(self).wf(),
            final(self)@ == old(self)@.relocate(color_write.handle),
            args.bin_cl@ == final(self)@.bin_cl,
            args.shader_rec@ == final(self)@.shader_rec,
            args.uniforms@ == final(self)@.uniforms,
            args.bo_handles@ == final(self)@.bo_handles,
            args.shader_rec_count == final(self)@.shader_rec_count,
            args.width == final(self)@.window_size.0,
            args.height == final(self)@.window_size.1,
            args.min_x_tile == 0,
            args.min_y_tile == 0,
            args.max_x_tile == final(self)@.width_in_tiles - 1,
            args.max_y_tile == final(self)@.height_in_tiles - 1,
            args.color_read == drm_vc4_submit_rcl_surface::spec_default(),
            args.color_write == (drm_vc4_submit_rcl_surface {
                hindex: relocation_index(old(self)@.bo_handles, color_write.handle) as u32,
                offset: 0,
                bits: 68,
                flags: 0,
            }),
            args.zs_read == drm_vc4_submit_rcl_surface::spec_default(),
            args.zs_write == drm_vc4_submit_rcl_surface::spec_default(),
            args.msaa_color_write == drm_vc4_submit_rcl_surface::spec_default(),
            args.msaa_zs_write == drm_vc4_submit_rcl_surface::spec_default(),
            args.clear_color@ == seq![clear_color, clear_color],
            args.clear_z == 0,
            args.clear_s == 0,
            args.use_clear_color,
            !args.fixed_rcl_order,
            !args.rcl_order_increasing_x,
            !args.rcl_order_increasing_y,
    {
        let fb_bo_idx = self.relocate_buffer(color_write);
        let clear = [clear_color, clear_color];
        assert(clear@ =~= seq![clear_color, clear_color]);
        SubmitClArgs {
            bin_cl: self.bin_cl_buf.as_slice(),
            shader_rec: self.shader_rec_buf.as_slice(),
            uniforms: self.uniforms.as_slice(),
            bo_handles: self.relocations.handles().as_slice(),
            shader_rec_count: self.shader_rec_count,
            width: self.window_size.0,
            height: self.window_size.1,
            min_x_tile: 0,
            min_y_tile: 0,
            max_x_tile: self.width_in_tiles - 1,
            max_y_tile: self.height_in_tiles - 1,
            color_read: drm_vc4_submit_rcl_surface::default(),
            color_write: drm_vc4_submit_rcl_surface::new_tiled_rgba8(fb_bo_idx),
            zs_read: drm_vc4_submit_rcl_surface::default(),
            zs_write: drm_vc4_submit_rcl_surface::default(),
            msaa_color_write: drm_vc4_submit_rcl_surface::default(),
            msaa_zs_write: drm_vc4_submit_rcl_surface::default(),
            clear_color: clear,
            clear_z: 0,
            clear_s: 0,
            use_clear_color: true,
            fixed_rcl_order: false,
            rcl_order_increasing_x: false,
            rcl_order_increasing_y: false,
        }
    }
}

} // verus!
