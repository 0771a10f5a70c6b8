//! The packed vertex of a chunk mesh, and the layout of the uniforms that
//! chunks are drawn with.

use crate::game::Dir;
use crate::math::{vec3, Pos, Vec3i32};
use vstd::prelude::*;

verus! {

/// One corner of a face, packed into two words.
///
/// `data0` holds, from the low bits up, the x, y and z coordinates in half
/// blocks as 10-bit two's complement numbers, then the 2-bit index of the
/// corner within its face. `data1` holds the four 2-bit ambient occlusion
/// levels of the face, then the 3-bit index of the face's direction, then
/// the 21-bit texture index.
#[derive(Debug, Copy, Clone, PartialEq, Eq, Structural)]
pub struct BlockVertex {
    pub data0: u32,
    pub data1: u32,
}

/// The sign bit and the low nine bits of `i`, as a 10-bit number.
pub open spec fn spec_i32_to_i10(i: i32) -> u32 {
    (((i as u32) >> 31) << 9) | ((i as u32) & 0x1ff)
}

/// The number that a 10-bit two's complement field stands for.
pub open spec fn spec_i10_to_i32(f: u32) -> int {
    if f >= 512 {
        f - 1024
    } else {
        f as int
    }
}

pub fn i32_to_i10(i: i32) -> (r: u32)
    ensures
        r == spec_i32_to_i10(i),
        r < 1024,
        -512 <= i < 512 ==> spec_i10_to_i32(r) == i,
{
    let u: u32 = i as u32;
    let r: u32 = ((u >> 31) << 9) | (u & 0x1ff);
    proof {
        lemma_i10(i);
    }
    r
}

/// A 10-bit field holds every number of `[-512, 512)` exactly.
pub proof fn lemma_i10(i: i32)
    ensures
        spec_i32_to_i10(i) < 1024,
        -512 <= i < 512 ==> spec_i10_to_i32(spec_i32_to_i10(i)) == i,
{
    let r = spec_i32_to_i10(i);
    assert(r < 1024) by (bit_vector)
        requires
            r == (((i as u32) >> 31) << 9) | ((i as u32) & 0x1ff),
    ;
    if -512 <= i < 512 {
        assert(i >= 0 ==> r == i as u32) by (bit_vector)
            requires
                r == (((i as u32) >> 31) << 9) | ((i as u32) & 0x1ff),
                -512 <= i < 512,
        ;
        assert(i < 0 ==> r >= 512 && r == (i + 1024) as u32) by (bit_vector)
            requires
                r == (((i as u32) >> 31) << 9) | ((i as u32) & 0x1ff),
                -512 <= i < 512,
        ;
    }
}

/// The first word of a vertex at `pos`, in half blocks, that is corner `uv`
/// of its face.
pub open spec fn spec_pack_position(pos: Pos, uv: u8) -> u32 {
    (((uv as u32) & 0b11) << 30) | (spec_i32_to_i10(pos.x as i32) << 0) | (spec_i32_to_i10(
        pos.y as i32,
    ) << 10) | (spec_i32_to_i10(pos.z as i32) << 20)
}

/// The second word of a vertex of a face in direction `dir` with texture
/// `tex` and the occlusion levels `ao`.
pub open spec fn spec_pack_shading(dir: Dir, ao: Seq<u8>, tex: u32) -> u32 {
    (tex << 11) | ((dir.spec_index() as u32) << 8) | (((ao[0] as u32) & 0b11) << 0) | (((
    ao[1] as u32) & 0b11) << 2) | (((ao[2] as u32) & 0b11) << 4) | (((ao[3] as u32) & 0b11) << 6)
}

/// The vertex that [`BlockVertex::new`] packs.
pub open spec fn spec_vertex(pos: Pos, uv: u8, dir: Dir, ao: Seq<u8>, tex: u32) -> BlockVertex {
    BlockVertex { data0: spec_pack_position(pos, uv), data1: spec_pack_shading(dir, ao, tex) }
}

impl BlockVertex {
    /// The position, in half blocks relative to the chunk's origin.
    pub open spec fn spec_position(self) -> Pos {
        Pos {
            x: spec_i10_to_i32(self.data0 & 0x3ff),
            y: spec_i10_to_i32((self.data0 >> 10) & 0x3ff),
            z: spec_i10_to_i32((self.data0 >> 20) & 0x3ff),
        }
    }

    /// Which of the four corners of its face the vertex is.
    pub open spec fn spec_uv(self) -> u32 {
        self.data0 >> 30
    }

    /// The occlusion level in slot `slot` of the face.
    pub open spec fn spec_ao(self, slot: int) -> u32 {
        (self.data1 >> ((2 * slot) as u32)) & 0b11
    }

    /// The index of the direction of the face.
    pub open spec fn spec_direction(self) -> u32 {
        (self.data1 >> 8) & 0b111
    }

    /// The texture index of the face.
    pub open spec fn spec_texture(self) -> u32 {
        self.data1 >> 11
    }

    /// Packs a vertex. `pos` is in half blocks; of `uv` and of each level of
    /// `ao` the low two bits are kept, of `tex` the low 21.
    pub fn new(pos: Vec3i32, uv: u8, dir: Dir, ao: &[u8; 4], tex: u32) -> (v: Self)
        ensures
            v == spec_vertex(pos@, uv, dir, ao@, tex),
    {
        Self {
            data0: ((uv as u32 & 0b11) << 30) | (i32_to_i10(pos.x()) << 0) | (i32_to_i10(pos.y())
                << 10) | (i32_to_i10(pos.z()) << 20),
            data1: (tex << 11) | ((dir.index() as u32) << 8) | ((ao[0] as u32 & 0b11) << 0) | ((
            ao[1] as u32 & 0b11) << 2) | ((ao[2] as u32 & 0b11) << 4) | ((ao[3] as u32 & 0b11) << 6),
        }
    }

    pub fn position(&self) -> (p: Vec3i32)
        ensures
            p@ == self.spec_position(),
    {
        let d: u32 = self.data0;
        let fx: u32 = d & 0x3ff;
        let fy: u32 = (d >> 10) & 0x3ff;
        let fz: u32 = (d >> 20) & 0x3ff;
        assert(fx < 1024 && fy < 1024 && fz < 1024) by (bit_vector)
            requires
                fx == d & 0x3ff,
                fy == (d >> 10) & 0x3ff,
                fz == (d >> 20) & 0x3ff,
        ;
        vec3(i10_to_i32(fx), i10_to_i32(fy), i10_to_i32(fz))
    }

    pub fn uv(&self) -> (r: u8)
        ensures
            r == self.spec_uv(),
            r < 4,
    {
        let d: u32 = self.data0;
        let f: u32 = d >> 30;
        assert(f < 4) by (bit_vector)
            requires
                f == d >> 30,
        ;
        f as u8
    }

    /// The occlusion level in slot `slot`; slots beyond the fourth hold 0.
    pub fn ao(&self, slot: usize) -> (r: u8)
        ensures
            slot < 4 ==> r == self.spec_ao(slot as int),
            slot >= 4 ==> r == 0,
            r < 4,
    {
        if slot >= 4 {
            return 0;
        }
        let shift: u32 = 2 * (slot as u32);
        let d: u32 = self.data1;
        let f: u32 = (d >> shift) & 0b11;
        assert(f < 4) by (bit_vector)
            requires
                f == (d >> shift) & 0b11,
        ;
        f as u8
    }

    /// The direction of the face; `None` where the three bits hold none of
    /// the six indices.
    pub fn direction(&self) -> (r: Option<Dir>)
        ensures
            match r {
                Some(dir) => dir.spec_index() == self.spec_direction(),
                None => self.spec_direction() >= 6,
            },
    {
        let d: u32 = self.data1;
        let f: u32 = (d >> 8) & 0b111;
        assert(f < 8) by (bit_vector)
            requires
                f == (d >> 8) & 0b111,
        ;
        Dir::from_index(f as usize)
    }

    pub fn texture(&self) -> (r: u32)
        ensures
            r == self.spec_texture(),
    {
        self.data1 >> 11
    }
}

fn i10_to_i32(f: u32) -> (r: i32)
    requires
        f < 1024,
    ensures
        r == spec_i10_to_i32(f),
{
    if f >= 512 {
        f as i32 - 1024
    } else {
        f as i32
    }
}

/// Unpacking gives back what was packed: the position where each coordinate
/// lies in `[-512, 512)`, the corner index below 4, the direction, the
/// occlusion levels below 4, and the texture index below `2^21`.
pub proof fn lemma_vertex_round_trip(pos: Pos, uv: u8, dir: Dir, ao: Seq<u8>, tex: u32)
    requires
        -512 <= pos.x < 512,
        -512 <= pos.y < 512,
        -512 <= pos.z < 512,
        ao.len() == 4,
    ensures
        spec_vertex(pos, uv, dir, ao, tex).spec_position() == pos,
        uv < 4 ==> spec_vertex(pos, uv, dir, ao, tex).spec_uv() == uv,
        spec_vertex(pos, uv, dir, ao, tex).spec_direction() == dir.spec_index(),
        forall|k: int|
            0 <= k < 4 && ao[k] < 4 ==> #[trigger] spec_vertex(pos, uv, dir, ao, tex).spec_ao(k)
                == ao[k],
        tex < 0x20_0000 ==> spec_vertex(pos, uv, dir, ao, tex).spec_texture() == tex,
{
    let v = spec_vertex(pos, uv, dir, ao, tex);
    let fx = spec_i32_to_i10(pos.x as i32);
    let fy = spec_i32_to_i10(pos.y as i32);
    let fz = spec_i32_to_i10(pos.z as i32);
    lemma_i10(pos.x as i32);
    lemma_i10(pos.y as i32);
    lemma_i10(pos.z as i32);
    let u = uv as u32;
    let d0 = v.data0;
    assert(d0 & 0x3ff == fx && (d0 >> 10) & 0x3ff == fy && (d0 >> 20) & 0x3ff == fz && (u < 4
        ==> d0 >> 30 == u)) by (bit_vector)
        requires
            d0 == ((u & 0b11) << 30) | (fx << 0) | (fy << 10) | (fz << 20),
            fx < 1024,
            fy < 1024,
            fz < 1024,
    ;
    let a0 = ao[0] as u32;
    let a1 = ao[1] as u32;
    let a2 = ao[2] as u32;
    let a3 = ao[3] as u32;
    let d1 = v.data1;
    let di = dir.spec_index() as u32;
    assert((a0 < 4 ==> (d1 >> 0u32) & 0b11 == a0) && (a1 < 4 ==> (d1 >> 2u32) & 0b11 == a1) && (a2 < 4
        ==> (d1 >> 4u32) & 0b11 == a2) && (a3 < 4 ==> (d1 >> 6u32) & 0b11 == a3) && (d1 >> 8) & 0b111
        == di && (tex < 0x20_0000 ==> d1 >> 11 == tex)) by (bit_vector)
        requires
            d1 == (tex << 11) | (di << 8) | ((a0 & 0b11) << 0) | ((a1 & 0b11) << 2) | ((a2 & 0b11)
                << 4) | ((a3 & 0b11) << 6),
            di < 6,
    ;
    assert forall|k: int| 0 <= k < 4 && ao[k] < 4 implies #[trigger] v.spec_ao(k) == ao[k] by {
        if k == 0 {
            assert(((2 * k) as u32) == 0u32);
        } else if k == 1 {
            assert(((2 * k) as u32) == 2u32);
        } else if k == 2 {
            assert(((2 * k) as u32) == 4u32);
        } else {
            assert(((2 * k) as u32) == 6u32);
        }
    }
}

/// How the chunks are drawn.
#[derive(Debug, Clone, Copy, PartialEq, Eq, Structural)]
pub enum ChunkRenderMode {
    /// Filled faces.
    Normal,
    /// The edges of the triangles only.
    Wireframe,
}

/// `val` if the bits of `val` below `align - 1` are clear, and else the
/// number after `val` with those bits set.
pub open spec fn spec_align_up(val: usize, align: usize) -> usize {
    let mask = (align - 1) as usize;
    if val & mask == 0 {
        val
    } else {
        ((val | mask) + 1) as usize
    }
}

/// The least multiple of `align` that is not below `val`, for an `align`
/// that is a power of two.
pub fn align_up(val: usize, align: usize) -> (r: usize)
    requires
        align > 0,
        (val | (align - 1) as usize) < usize::MAX,
    ensures
        r == spec_align_up(val, align),
{
    let mask: usize = align - 1;
    if val & mask == 0 {
        val
    } else {
        (val | mask) + 1
    }
}

/// For a power of two `align`, [`spec_align_up`] gives the least number
/// that is not below `val` and has the bits below `align` clear, which are
/// the multiples of `align`.
pub proof fn lemma_align_up(val: usize, align: usize)
    requires
        align > 0,
        align & ((align - 1) as usize) == 0,
        (val | (align - 1) as usize) < usize::MAX,
    ensures
        spec_align_up(val, align) >= val,
        spec_align_up(val, align) - val < align,
        spec_align_up(val, align) & ((align - 1) as usize) == 0,
{
    let mask = (align - 1) as usize;
    let r = spec_align_up(val, align);
    let filled = val | mask;
    let next = (filled + 1) as usize;
    assert(r >= val && r - val < align && r & mask == 0) by (bit_vector)
        requires
            align > 0,
            mask == (align - 1) as usize,
            align & mask == 0,
            filled == val | mask,
            next == (filled + 1) as usize,
            next > filled,
            r == if val & mask == 0 {
                val
            } else {
                next
            },
    ;
}

/// Size in bytes of the camera's uniform: a matrix of four by four floats.
pub const CAMERA_UNIFORM_SIZE: usize = 64;

/// Size in bytes of the lighting uniform: a vector of four floats.
pub const LIGHTING_UNIFORM_SIZE: usize = 16;

/// The bytes of the uniforms that chunks are drawn with: the camera's, then
/// at an aligned offset the lighting's.
pub struct WorldUniforms {
    data: Vec<u8>,
    parts: [usize; 2],
}

impl WorldUniforms {
    /// The offset of the lighting uniform.
    pub closed spec fn spec_lighting_uniform_offset(&self) -> usize {
        self.parts@[0]
    }

    /// The bytes.
    pub closed spec fn spec_data(&self) -> Seq<u8> {
        self.data@
    }

    /// The lighting uniform follows the camera's and ends the bytes.
    #[verifier::type_invariant]
    pub closed spec fn well_formed(&self) -> bool {
        &&& self.parts@[0] >= CAMERA_UNIFORM_SIZE
        &&& self.parts@[1] == LIGHTING_UNIFORM_SIZE
        &&& self.data@.len() == self.parts@[0] + self.parts@[1]
    }

    /// What [`WorldUniforms::well_formed`] says.
    pub proof fn lemma_layout(&self)
        requires
            self.well_formed(),
        ensures
            self.spec_lighting_uniform_offset() >= CAMERA_UNIFORM_SIZE,
            self.spec_data().len() == self.spec_lighting_uniform_offset() + LIGHTING_UNIFORM_SIZE,
    {
    }

    /// Zeroed uniforms, the lighting uniform at the offset that
    /// [`align_up`] gives for the alignment `align`.
    pub fn new(align: usize) -> (uniforms: Self)
        requires
            align > 0,
            (CAMERA_UNIFORM_SIZE | (align - 1) as usize) < usize::MAX - LIGHTING_UNIFORM_SIZE,
        ensures
            uniforms.spec_lighting_uniform_offset() == spec_align_up(CAMERA_UNIFORM_SIZE, align),
            uniforms.spec_data().len() == uniforms.spec_lighting_uniform_offset()
                + LIGHTING_UNIFORM_SIZE,
            forall|i: int| 0 <= i < uniforms.spec_data().len() ==> uniforms.spec_data()[i] == 0,
    {
        let offset: usize = align_up(CAMERA_UNIFORM_SIZE, align);
        assert(offset >= CAMERA_UNIFORM_SIZE) by {
            let mask = (align - 1) as usize;
            let c = CAMERA_UNIFORM_SIZE;
            assert((c | mask) >= c) by (bit_vector);
        }
        let parts: [usize; 2] = [offset, LIGHTING_UNIFORM_SIZE];
        let size: usize = parts[0] + parts[1];
        Self { data: vec![0u8; size], parts }
    }

    pub fn camera_uniform_offset(&self) -> (r: usize)
        ensures
            r == 0,
    {
        0
    }

    pub fn camera_uniform_size(&self) -> (r: usize)
        ensures
            r == CAMERA_UNIFORM_SIZE,
    {
        CAMERA_UNIFORM_SIZE
    }

    pub fn lighting_uniform_offset(&self) -> (r: usize)
        ensures
            r == self.spec_lighting_uniform_offset(),
            r >= CAMERA_UNIFORM_SIZE,
            r + LIGHTING_UNIFORM_SIZE == self.spec_data().len(),
            r + LIGHTING_UNIFORM_SIZE <= usize::MAX,
    {
        proof {
            use_type_invariant(self);
        }
        let size: usize = self.data.len();
        self.parts[0]
    }

    pub fn lighting_uniform_size(&self) -> (r: usize)
        ensures
            r == LIGHTING_UNIFORM_SIZE,
    {
        LIGHTING_UNIFORM_SIZE
    }

    pub fn camera_uniform_range(&self) -> (r: core::ops::Range<usize>)
        ensures
            r.start == 0,
            r.end == CAMERA_UNIFORM_SIZE,
    {
        self.camera_uniform_offset()..self.camera_uniform_offset() + self.camera_uniform_size()
    }

    pub fn lighting_uniform_range(&self) -> (r: core::ops::Range<usize>)
        ensures
            r.start == self.spec_lighting_uniform_offset(),
            r.end == self.spec_lighting_uniform_offset() + LIGHTING_UNIFORM_SIZE,
            r.end == self.spec_data().len(),
    {
        let offset: usize = self.lighting_uniform_offset();
        offset..offset + self.lighting_uniform_size()
    }

    /// The bytes of both uniforms.
    pub fn data(&self) -> (data: &Vec<u8>)
        ensures
            data@ == self.spec_data(),
    {
        &self.data
    }

    /// Writes the bytes of the camera's uniform.
    pub fn set_camera_uniform(&mut self, bytes: &[u8; 64])
        ensures
            final(self).spec_lighting_uniform_offset() == old(self).spec_lighting_uniform_offset(),
            final(self).spec_data().len() == old(self).spec_data().len(),
            forall|i: int|
                0 <= i < final(self).spec_data().len() ==> #[trigger] final(self).spec_data()[i]
                    == if i < CAMERA_UNIFORM_SIZE {
                    bytes@[i]
                } else {
                    old(self).spec_data()[i]
                },
    {
        proof {
            use_type_invariant(&*self);
        }
        let mut i: usize = 0;
        while i < 64
            invariant
                i <= 64,
                self.parts == old(self).parts,
                self.well_formed(),
                self.data@.len() == old(self).data@.len(),
                forall|k: int|
                    0 <= k < self.data@.len() ==> #[trigger] self.data@[k] == if k < i {
                        bytes@[k]
                    } else {
                        old(self).data@[k]
                    },
            decreases 64 - i,
        {
            self.data[i] = bytes[i];
            i += 1;
        }
    }

    /// Writes the bytes of the lighting uniform.
    pub fn set_lighting_uniform(&mut self, bytes: &[u8; 16])
        ensures
            final(self).spec_lighting_uniform_offset() == old(self).spec_lighting_uniform_offset(),
            final(self).spec_data().len() == old(self).spec_data().len(),
            forall|i: int|
                0 <= i < final(self).spec_data().len() ==> #[trigger] final(self).spec_data()[i]
                    == if i >= final(self).spec_lighting_uniform_offset() {
                    bytes@[i - final(self).spec_lighting_uniform_offset()]
                } else {
                    old(self).spec_data()[i]
                },
    {
        proof {
            use_type_invariant(&*self);
        }
        let offset: usize = self.lighting_uniform_offset();
        let mut i: usize = 0;
        while i < 16
            invariant
                i <= 16,
                offset == self.parts@[0],
                offset + LIGHTING_UNIFORM_SIZE <= usize::MAX,
                self.parts == old(self).parts,
                self.well_formed(),
                self.data@.len() == old(self).data@.len(),
                forall|k: int|
                    0 <= k < self.data@.len() ==> #[trigger] self.data@[k] == if offset <= k
                        < offset + i {
                        bytes@[k - offset]
                    } else {
                        old(self).data@[k]
                    },
            decreases 16 - i,
        {
            self.data[offset + i] = bytes[i];
            i += 1;
        }
    }
}

} // verus!
