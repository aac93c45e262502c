//! The encoding system: which encoder owns which property, and the instance data of a
//! frame.

use vstd::prelude::*;
use crate::encoding::encode_loop::EncodedRows;
use crate::encoding::encoders::LoopResult;
use crate::encoding::property::Property;
use crate::scalar::{zero_value, zero_vec4, Slot, Vec4};

verus! {

/// Why an encoder was not registered.
#[derive(Clone, Copy, Debug, PartialEq, Eq)]
pub enum RegistrationError {
    /// The property is declared twice, or an encoder registered before owns it.
    DuplicateProperty(Property),
}

/// Why the rows of an encoder were not merged into the instance data of a frame.
#[derive(Clone, Copy, Debug, PartialEq, Eq)]
pub enum MergeError {
    /// No encoder is registered under this number.
    UnknownEncoder,
    /// The rows have another number of slots than the encoder declared properties.
    ArityMismatch,
    /// The instance data was begun by a system with another number of properties.
    ForeignFrame,
    /// The rows are not those of the entities of the frame, in their order.
    Misaligned,
}

/// What an encoding system knows, as mathematics.
pub struct Registry {
    /// The registered properties. The place of a property in this sequence is its
    /// offset: the number of its buffer in the instance data of every frame.
    pub properties: Seq<Property>,
    /// For each encoder, in the order of registration, one more than the offset of its
    /// last property.
    pub ends: Seq<usize>,
}

impl Registry {
    /// The number of registered encoders.
    pub open spec fn encoders(self) -> nat {
        self.ends.len()
    }

    /// The offset of the first property of an encoder.
    pub open spec fn start(self, encoder: int) -> int {
        if encoder <= 0 {
            0
        } else {
            self.ends[encoder - 1] as int
        }
    }

    /// The number of properties that an encoder declared.
    pub open spec fn arity(self, encoder: int) -> int {
        self.ends[encoder] - self.start(encoder)
    }

    /// Whether the encoder owns the property at the offset.
    pub open spec fn owns(self, encoder: int, offset: int) -> bool {
        0 <= encoder < self.ends.len() && self.start(encoder) <= offset < self.ends[encoder]
    }

    /// Whether the encoder owns the property.
    pub open spec fn owner_of(self, encoder: int, property: Property) -> bool {
        exists|offset: int|
            0 <= offset < self.properties.len() && self.properties[offset] == property && #[trigger] self.owns(
                encoder,
                offset,
            )
    }

    /// Whether the property is registered.
    pub open spec fn registered(self, property: Property) -> bool {
        self.properties.contains(property)
    }

    /// No property is registered twice, and the encoders own consecutive runs of
    /// offsets that together cover the registered properties.
    pub open spec fn wf(self) -> bool {
        &&& forall|i: int, j: int|
            0 <= i < j < self.properties.len() ==> self.properties[i] != self.properties[j]
        &&& forall|e: int, f: int| 0 <= e <= f < self.ends.len() ==> self.ends[e] <= self.ends[f]
        &&& forall|e: int| 0 <= e < self.ends.len() ==> #[trigger] self.ends[e] <= self.properties.len()
        &&& self.ends.len() > 0 ==> self.ends.last() == self.properties.len()
        &&& self.ends.len() == 0 ==> self.properties.len() == 0
    }

    /// Whether the `k`-th declared property is registered already or declared before.
    pub open spec fn clashes<const N: usize>(self, declared: [Property; N], k: int) -> bool {
        (self.properties + declared@.take(k)).contains(declared@[k])
    }

    /// The registry after an encoder with these properties was added.
    pub open spec fn with_encoder<const N: usize>(self, declared: [Property; N]) -> Registry {
        Registry {
            properties: self.properties + declared@,
            ends: self.ends.push((self.properties.len() + N) as usize),
        }
    }
}

/// The static association of encoders and properties. It is built once, by registering
/// each encoder with the properties that it declares, and does not change afterwards.
/// No two encoders can own the same property.
#[derive(Debug, PartialEq, Eq)]
pub struct EncodingSystem {
    properties: Vec<Property>,
    ends: Vec<usize>,
}

impl View for EncodingSystem {
    type V = Registry;

    closed spec fn view(&self) -> Registry {
        Registry { properties: self.properties@, ends: self.ends@ }
    }
}

impl EncodingSystem {
    #[verifier::type_invariant]
    spec fn inv(self) -> bool {
        self@.wf()
    }

    /// A system without encoders.
    pub fn new() -> (r: Self)
        ensures
            r@.wf(),
            r@.properties.len() == 0,
            r@.ends.len() == 0,
    {
        EncodingSystem { properties: Vec::new(), ends: Vec::new() }
    }

    /// The number of registered encoders.
    pub fn encoder_count(&self) -> (n: usize)
        ensures
            n == self@.encoders(),
    {
        self.ends.len()
    }

    /// The number of registered properties, which is the number of buffers of a frame.
    pub fn property_count(&self) -> (n: usize)
        ensures
            n == self@.properties.len(),
    {
        self.properties.len()
    }

    /// The offset of a property: the number of its buffer in the instance data of every
    /// frame. `None` where no encoder has registered the property.
    pub fn offset(&self, property: Property) -> (r: Option<usize>)
        ensures
            match r {
                Some(offset) => offset < self@.properties.len() && self@.properties[offset as int] == property,
                None => !self@.registered(property),
            },
    {
        let mut i: usize = 0;
        while i < self.properties.len()
            invariant
                i <= self.properties@.len(),
                forall|j: int| 0 <= j < i ==> self.properties@[j] != property,
            decreases self.properties@.len() - i,
        {
            if self.properties[i] == property {
                return Some(i);
            }
            i += 1;
        }
        None
    }

    /// The offsets of the properties of an encoder: the first, and one more than the
    /// last. `None` where no encoder is registered under the number.
    pub fn range(&self, encoder: usize) -> (r: Option<(usize, usize)>)
        ensures
            match r {
                Some((start, end)) => {
                    &&& encoder < self@.encoders()
                    &&& start == self@.start(encoder as int)
                    &&& end == self@.ends[encoder as int]
                    &&& start <= end <= self@.properties.len()
                },
                None => encoder >= self@.encoders(),
            },
    {
        proof {
            use_type_invariant(self);
        }
        if encoder >= self.ends.len() {
            return None;
        }
        let start: usize = if encoder == 0 {
            0
        } else {
            self.ends[encoder - 1]
        };
        Some((start, self.ends[encoder]))
    }

    /// The encoder that owns a property, or `None` where the property is not registered.
    pub fn owner(&self, property: Property) -> (r: Option<usize>)
        ensures
            match r {
                Some(encoder) => self@.owner_of(encoder as int, property),
                None => !self@.registered(property),
            },
    {
        proof {
            use_type_invariant(self);
        }
        match self.offset(property) {
            None => {
                assert(!self@.registered(property));
                None
            },
            Some(offset) => {
                let mut encoder: usize = 0;
                while encoder < self.ends.len() && self.ends[encoder] <= offset
                    invariant
                        self@.wf(),
                        offset < self@.properties.len(),
                        encoder <= self.ends@.len(),
                        forall|e: int| 0 <= e < encoder ==> self.ends@[e] <= offset,
                    decreases self.ends@.len() - encoder,
                {
                    encoder += 1;
                }
                assert(encoder < self.ends@.len()) by {
                    if encoder == self.ends@.len() {
                        assert(self.ends@[encoder - 1] <= offset);
                    }
                }
                let ghost at = offset as int;
                assert(0 <= at < self@.properties.len() && self@.properties[at] == property && self@.owns(
                    encoder as int,
                    at,
                ));
                assert(self@.owner_of(encoder as int, property));
                Some(encoder)
            },
        }
    }

    /// Registers an encoder with the properties that it declares, in the order of the
    /// slots of its rows, and returns the number of the encoder.
    ///
    /// The registration is rejected, and changes nothing, where a declared property is
    /// owned by an encoder registered before or is declared twice; the error names the
    /// first declared property of which that holds.
    pub fn register<const N: usize>(&mut self, declared: [Property; N]) -> (r: Result<usize, RegistrationError>)
        ensures
            old(self)@.wf(),
            final(self)@.wf(),
            match r {
                Ok(encoder) => {
                    &&& forall|k: int| 0 <= k < N ==> !old(self)@.clashes(declared, k)
                    &&& encoder == old(self)@.encoders()
                    &&& final(self)@ == old(self)@.with_encoder(declared)
                },
                Err(RegistrationError::DuplicateProperty(property)) => {
                    &&& final(self)@ == old(self)@
                    &&& exists|k: int|
                        0 <= k < N && #[trigger] old(self)@.clashes(declared, k) && property == declared@[k]
                            && forall|j: int| 0 <= j < k ==> !old(self)@.clashes(declared, j)
                },
            },
    {
        proof {
            use_type_invariant(&*self);
        }
        let mut properties: Vec<Property> = Vec::new();
        let mut i: usize = 0;
        while i < self.properties.len()
            invariant
                i <= self.properties@.len(),
                properties@ == self.properties@.take(i as int),
            decreases self.properties@.len() - i,
        {
            properties.push(self.properties[i]);
            assert(self.properties@.take(i + 1) =~= self.properties@.take(i as int).push(self.properties@[i as int]));
            i += 1;
        }
        assert(self.properties@.take(self.properties@.len() as int) =~= self.properties@);
        let mut k: usize = 0;
        while k < N
            invariant
                k <= N,
                self@.wf(),
                self@ == old(self)@,
                properties@ == self.properties@ + declared@.take(k as int),
                forall|j: int| 0 <= j < k ==> !self@.clashes(declared, j),
                forall|a: int, b: int| 0 <= a < b < properties@.len() ==> properties@[a] != properties@[b],
            decreases N - k,
        {
            let property: Property = declared[k];
            let mut j: usize = 0;
            while j < properties.len()
                invariant
                    k < N,
                    j <= properties@.len(),
                    self@.wf(),
                    self@ == old(self)@,
                    property == declared@[k as int],
                    properties@ == self.properties@ + declared@.take(k as int),
                    forall|a: int| 0 <= a < k ==> !self@.clashes(declared, a),
                    forall|a: int| 0 <= a < j ==> properties@[a] != property,
                decreases properties@.len() - j,
            {
                if properties[j] == property {
                    assert(properties@[j as int] == declared@[k as int]);
                    assert(self@.clashes(declared, k as int));
                    return Err(RegistrationError::DuplicateProperty(property));
                }
                j += 1;
            }
            assert(!self@.clashes(declared, k as int));
            properties.push(property);
            assert(declared@.take(k + 1) =~= declared@.take(k as int).push(declared@[k as int]));
            assert(properties@ =~= self.properties@ + declared@.take(k + 1));
            k += 1;
        }
        assert(declared@.take(N as int) =~= declared@);
        let encoder: usize = self.ends.len();
        let mut ends: Vec<usize> = Vec::new();
        let mut e: usize = 0;
        while e < self.ends.len()
            invariant
                e <= self.ends@.len(),
                ends@ == self.ends@.take(e as int),
            decreases self.ends@.len() - e,
        {
            ends.push(self.ends[e]);
            assert(self.ends@.take(e + 1) =~= self.ends@.take(e as int).push(self.ends@[e as int]));
            e += 1;
        }
        assert(self.ends@.take(self.ends@.len() as int) =~= self.ends@);
        ends.push(properties.len());
        let ghost before = self@;
        assert(ends@ =~= before.ends.push((before.properties.len() + N) as usize));
        *self = EncodingSystem { properties, ends };
        Ok(encoder)
    }
}

/// The instance data of a frame, as mathematics.
pub struct FrameView {
    /// The entities of the frame: row `i` of every buffer belongs to `entities[i]`.
    pub entities: Seq<usize>,
    /// One buffer per registered property, found by the offset of the property.
    pub buffers: Seq<Seq<Vec4>>,
}

impl FrameView {
    /// Every buffer has one row for every entity of the frame.
    pub open spec fn wf(self) -> bool {
        forall|b: int| 0 <= b < self.buffers.len() ==> (#[trigger] self.buffers[b]).len() == self.entities.len()
    }

    /// Whether every row of every buffer holds zeros.
    pub open spec fn blank(self) -> bool {
        forall|b: int, i: int|
            0 <= b < self.buffers.len() && 0 <= i < self.buffers[b].len() ==> #[trigger] self.buffers[b][i]
                == zero_vec4()
    }

    /// The buffer at `offset` after slot `k` of the rows was written into it: a value
    /// replaces what the row held, and "no value" leaves the row as it was.
    pub open spec fn written<const N: usize>(self, offset: int, encoded: EncodedRows<N>, k: int) -> Seq<Vec4> {
        Seq::new(
            self.entities.len(),
            |i: int|
                match encoded.rows@[i][k] {
                    Some(value) => value,
                    None => self.buffers[offset][i],
                },
        )
    }

    /// The frame after the rows of an encoder were merged into the buffers from `start`
    /// on: slot `k` of the rows goes to the buffer at `start + k`, and every other
    /// buffer stays as it was.
    pub open spec fn merged<const N: usize>(self, start: int, encoded: EncodedRows<N>) -> FrameView {
        FrameView {
            entities: self.entities,
            buffers: Seq::new(
                self.buffers.len(),
                |b: int|
                    if start <= b < start + N {
                        self.written(b, encoded, b - start)
                    } else {
                        self.buffers[b]
                    },
            ),
        }
    }
}

impl Registry {
    /// Why the rows cannot be merged into the frame as the contribution of the encoder,
    /// or `None` where they can.
    pub open spec fn merge_error<const N: usize>(
        self,
        frame: FrameView,
        encoder: int,
        encoded: EncodedRows<N>,
    ) -> Option<MergeError> {
        if encoder >= self.encoders() {
            Some(MergeError::UnknownEncoder)
        } else if self.arity(encoder) != N {
            Some(MergeError::ArityMismatch)
        } else if frame.buffers.len() != self.properties.len() {
            Some(MergeError::ForeignFrame)
        } else if !(encoded.wf() && encoded.entities@ == frame.entities) {
            Some(MergeError::Misaligned)
        } else {
            None
        }
    }
}

/// The instance data of one frame: for every registered property one buffer of
/// four-scalar values, all of them with one row per entity of the frame and in the same
/// order, so that row `i` of every buffer belongs to the same entity.
///
/// A frame begins with every row at zero. An encoder that answers "no value" for an
/// entity leaves the row of that entity as it is.
#[derive(Debug, PartialEq, Eq)]
pub struct InstanceData {
    entities: Vec<usize>,
    buffers: Vec<Vec<Vec4>>,
}

impl View for InstanceData {
    type V = FrameView;

    closed spec fn view(&self) -> FrameView {
        FrameView { entities: self.entities@, buffers: Seq::new(self.buffers@.len(), |b: int| self.buffers@[b]@) }
    }
}

impl InstanceData {
    #[verifier::type_invariant]
    spec fn inv(self) -> bool {
        self@.wf()
    }

    /// The entities of the frame, in the order of the rows.
    pub fn entities(&self) -> (r: &Vec<usize>)
        ensures
            r@ == self@.entities,
    {
        &self.entities
    }

    /// The number of rows of every buffer.
    pub fn rows(&self) -> (n: usize)
        ensures
            n == self@.entities.len(),
    {
        self.entities.len()
    }

    /// The number of buffers.
    pub fn buffer_count(&self) -> (n: usize)
        ensures
            n == self@.buffers.len(),
    {
        self.buffers.len()
    }

    /// The buffer of the property at `offset`, or `None` where the frame has no such
    /// buffer.
    pub fn buffer(&self, offset: usize) -> (r: Option<&Vec<Vec4>>)
        ensures
            self@.wf(),
            match r {
                Some(buffer) => offset < self@.buffers.len() && buffer@ == self@.buffers[offset as int],
                None => offset >= self@.buffers.len(),
            },
    {
        proof {
            use_type_invariant(self);
        }
        if offset < self.buffers.len() {
            Some(&self.buffers[offset])
        } else {
            None
        }
    }
}

impl EncodingSystem {
    /// Begins the instance data of a frame for the given entities: one buffer per
    /// registered property, one row per entity, every row at zero.
    pub fn begin_frame(&self, entities: Vec<usize>) -> (frame: InstanceData)
        ensures
            frame@.wf(),
            frame@.blank(),
            frame@.entities == entities@,
            frame@.buffers.len() == self@.properties.len(),
    {
        let mut buffers: Vec<Vec<Vec4>> = Vec::new();
        let mut b: usize = 0;
        while b < self.properties.len()
            invariant
                b <= self.properties@.len(),
                buffers@.len() == b,
                forall|c: int| 0 <= c < b ==> (#[trigger] buffers@[c])@.len() == entities@.len(),
                forall|c: int, i: int|
                    0 <= c < b && 0 <= i < entities@.len() ==> #[trigger] buffers@[c]@[i] == zero_vec4(),
            decreases self.properties@.len() - b,
        {
            let mut buffer: Vec<Vec4> = Vec::new();
            let mut i: usize = 0;
            while i < entities.len()
                invariant
                    i <= entities@.len(),
                    buffer@.len() == i,
                    forall|j: int| 0 <= j < i ==> #[trigger] buffer@[j] == zero_vec4(),
                decreases entities@.len() - i,
            {
                buffer.push(zero_value());
                i += 1;
            }
            buffers.push(buffer);
            b += 1;
        }
        InstanceData { entities, buffers }
    }

    /// Merges the rows of an encoder into the instance data of a frame.
    ///
    /// Slot `k` of every row goes to the buffer of the `k`-th property that the encoder
    /// declared. The buffers of other encoders are not touched. Where the rows cannot be
    /// the contribution of this encoder to this frame, nothing is merged and the error
    /// says why.
    #[verifier::loop_isolation(false)]
    pub fn merge<const N: usize>(&self, frame: &mut InstanceData, encoder: usize, encoded: &EncodedRows<N>) -> (r:
        Result<(), MergeError>)
        ensures
            self@.wf(),
            old(frame)@.wf(),
            final(frame)@.wf(),
            match self@.merge_error(old(frame)@, encoder as int, *encoded) {
                Some(error) => r == Err::<(), MergeError>(error) && final(frame)@ == old(frame)@,
                None => r == Ok::<(), MergeError>(()) && final(frame)@ == old(frame)@.merged(
                    self@.start(encoder as int),
                    *encoded,
                ),
            },
    {
        proof {
            use_type_invariant(self);
            use_type_invariant(&*frame);
        }
        let (start, end) = match self.range(encoder) {
            Some(range) => range,
            None => {
                return Err(MergeError::UnknownEncoder);
            },
        };
        if end - start != N {
            return Err(MergeError::ArityMismatch);
        }
        if frame.buffers.len() != self.properties.len() {
            return Err(MergeError::ForeignFrame);
        }
        if encoded.rows.len() != encoded.entities.len() || encoded.entities.len() != frame.entities.len() {
            return Err(MergeError::Misaligned);
        }
        let rows: usize = frame.entities.len();
        let mut i: usize = 0;
        while i < rows
            invariant
                i <= rows,
                rows == frame.entities@.len(),
                rows == encoded.entities@.len(),
                forall|j: int| 0 <= j < i ==> encoded.entities@[j] == frame.entities@[j],
            decreases rows - i,
        {
            if encoded.entities[i] != frame.entities[i] {
                return Err(MergeError::Misaligned);
            }
            i += 1;
        }
        assert(encoded.entities@ =~= frame.entities@);
        let ghost before = frame@;
        let mut buffers: Vec<Vec<Vec4>> = Vec::new();
        std::mem::swap(&mut frame.buffers, &mut buffers);
        let mut k: usize = 0;
        while k < N
            invariant
                k <= N,
                buffers@.len() == before.buffers.len(),
                forall|b: int|
                    0 <= b < before.buffers.len() ==> (#[trigger] buffers@[b])@ == (if start <= b < start + k {
                        before.written(b, *encoded, b - start)
                    } else {
                        before.buffers[b]
                    }),
            decreases N - k,
        {
            let mut column: Vec<Vec4> = Vec::new();
            let mut i: usize = 0;
            while i < rows
                invariant
                    i <= rows,
                    k < N,
                    column@.len() == i,
                    forall|j: int|
                        0 <= j < i ==> #[trigger] column@[j] == (match encoded.rows@[j][k as int] {
                            Some(value) => value,
                            None => before.buffers[start + k][j],
                        }),
                decreases rows - i,
            {
                let row: &[Slot; N] = &encoded.rows[i];
                let value: Vec4 = match row[k] {
                    Some(value) => value,
                    None => buffers[start + k][i],
                };
                column.push(value);
                i += 1;
            }
            assert(column@ =~= before.written(start + k, *encoded, k as int));
            buffers[start + k] = column;
            k += 1;
        }
        frame.buffers = buffers;
        assert(frame@.buffers =~= before.merged(start as int, *encoded).buffers);
        Ok(())
    }

    /// Takes in how the run of an encoder ended. Rows are merged as `merge` does. A
    /// setup failure ends the contribution of that encoder to the frame and nothing
    /// else: the frame stays as it is, and so do the buffers of every other encoder.
    /// Returns whether the encoder contributed.
    pub fn contribute<const N: usize>(&self, frame: &mut InstanceData, encoder: usize, outcome: &LoopResult<N>) -> (r:
        Result<bool, MergeError>)
        ensures
            old(frame)@.wf(),
            final(frame)@.wf(),
            match *outcome {
                Err(_) => r == Ok::<bool, MergeError>(false) && final(frame)@ == old(frame)@,
                Ok(encoded) => match self@.merge_error(old(frame)@, encoder as int, encoded) {
                    Some(error) => r == Err::<bool, MergeError>(error) && final(frame)@ == old(frame)@,
                    None => r == Ok::<bool, MergeError>(true) && final(frame)@ == old(frame)@.merged(
                        self@.start(encoder as int),
                        encoded,
                    ),
                },
            },
    {
        proof {
            use_type_invariant(&*frame);
        }
        match outcome {
            Err(_) => Ok(false),
            Ok(encoded) => match self.merge(frame, encoder, encoded) {
                Ok(()) => Ok(true),
                Err(error) => Err(error),
            },
        }
    }
}

/// No two encoders own the same property: an offset has one owner, and a property one
/// offset.
pub proof fn lemma_one_owner(registry: Registry, first: int, second: int, offset: int, other: int)
    requires
        registry.wf(),
        registry.owns(first, offset),
        registry.owns(second, other),
        registry.properties[offset] == registry.properties[other],
    ensures
        offset == other,
        first == second,
{
    if offset < other {
        assert(registry.properties[offset] != registry.properties[other]);
    }
    if other < offset {
        assert(registry.properties[other] != registry.properties[offset]);
    }
    if first < second {
        assert(registry.ends[first] <= registry.ends[second - 1]);
    }
    if second < first {
        assert(registry.ends[second] <= registry.ends[first - 1]);
    }
}

/// Merging the rows of one encoder leaves the buffers of every other encoder as they
/// were, and the frame aligned: all buffers keep one row per entity.
pub proof fn lemma_merge_spares_other_encoders<const N: usize>(
    registry: Registry,
    frame: FrameView,
    encoder: int,
    encoded: EncodedRows<N>,
    other: int,
    offset: int,
)
    requires
        registry.wf(),
        frame.wf(),
        registry.merge_error(frame, encoder, encoded) is None,
        registry.owns(other, offset),
        other != encoder,
        0 <= encoder,
    ensures
        frame.merged(registry.start(encoder), encoded).buffers[offset] == frame.buffers[offset],
        frame.merged(registry.start(encoder), encoded).wf(),
        frame.merged(registry.start(encoder), encoded).entities == frame.entities,
{
    if other < encoder {
        assert(registry.ends[other] <= registry.ends[encoder - 1]);
    }
    if encoder < other {
        assert(registry.ends[encoder] <= registry.ends[other - 1]);
    }
    assert(offset < registry.ends[other] <= registry.properties.len());
}

} // verus!
