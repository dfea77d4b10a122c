//! A triangulated mesh with its textures.
use crate::error::RenderError;
use crate::framebuffer::{Canvas, Color};
use crate::geometry::{
    lemma_total_vectors, norm_spec, normalize_spec, Vec2, Vec3, Vec3i, Vec_,
};
use crate::util::{usable, NumLike};
use vstd::prelude::*;
use vstd::string::StrSliceExecFns;

verus! {

/// A mesh: positions, normals and texture coordinates, and faces that name them by
/// index; with it a diffuse, a normal and a specular map.
pub struct Model<T: NumLike> {
    pub verts: Vec<Vec3<T>>,
    /// For each face its corners: the indices of a position, of a texture coordinate
    /// and of a normal.
    pub faces: Vec<Vec<Vec3i>>,
    pub norms: Vec<Vec3<T>>,
    pub uvs: Vec<Vec2<T>>,
    pub diffuse_map: Canvas,
    pub normal_map: Canvas,
    pub specular_map: Canvas,
}

/// Whether a corner names a position, a texture coordinate and a normal that exist.
pub open spec fn corner_in_range(corner: Seq<i32>, verts: int, uvs: int, norms: int) -> bool {
    &&& 0 <= corner[0] < verts
    &&& 0 <= corner[1] < uvs
    &&& 0 <= corner[2] < norms
}

/// Whether every face has three corners or more, and every corner names what exists.
pub open spec fn faces_in_range(faces: Seq<Vec<Vec3i>>, verts: int, uvs: int, norms: int) -> bool {
    forall|f: int|
        0 <= f < faces.len() ==> (#[trigger] faces[f])@.len() >= 3 && forall|c: int|
            0 <= c < faces[f]@.len() ==> corner_in_range(
                (#[trigger] faces[f]@[c])@,
                verts,
                uvs,
                norms,
            )
}

/// Whether a texture can be addressed with 32-bit coordinates.
pub open spec fn texture_fits(map: Canvas) -> bool {
    map.spec_width() <= i32::MAX && map.spec_height() <= i32::MAX
}

/// The column or row of a texture of `size` texels that the coordinate `u` samples:
/// `u` times the size, its fraction cut off, and 0 for what lies below.
pub open spec fn texel_index_spec<T: NumLike>(u: T, size: int) -> int {
    let raw = u.times_spec(T::from_i32_spec(size as i32)).to_i32_spec();
    if raw < 0 {
        0
    } else {
        raw as int
    }
}

/// Whether the texture coordinates `(u, v)` sample a texel of `map`.
pub open spec fn samples_inside<T: NumLike>(map: Canvas, u: T, v: T) -> bool {
    map.contains(
        texel_index_spec(u, map.spec_width()),
        texel_index_spec(v, map.spec_height()),
    )
}

/// The texel of `map` that the texture coordinates `(u, v)` sample.
pub open spec fn texel_spec<T: NumLike>(map: Canvas, u: T, v: T) -> Color {
    map.color_at(texel_index_spec(u, map.spec_width()), texel_index_spec(v, map.spec_height()))
}

/// A channel of a normal map as a coordinate of the normal: the channel over 255,
/// times two, minus one.
pub open spec fn channel_to_coordinate_spec<T: NumLike>(channel: u8) -> T {
    T::from_i32_spec(channel as i32).over_spec(T::from_i32_spec(255i32)).times_spec(
        T::from_i32_spec(2i32),
    ).minus_spec(T::one_spec())
}

/// The normal that a texel of a normal map stands for: red gives z, green y and
/// blue x.
pub open spec fn texel_normal_spec<T: NumLike>(c: Color) -> Seq<T> {
    seq![
        channel_to_coordinate_spec::<T>(c@[2]),
        channel_to_coordinate_spec::<T>(c@[1]),
        channel_to_coordinate_spec::<T>(c@[0]),
    ]
}

/// The column or row of a texture of `size` texels that the coordinate `u` samples.
fn texel_index<T: NumLike>(u: T, size: u32) -> (r: u32)
    requires
        size <= i32::MAX,
        usable::<T>(),
    ensures
        T::obeys_num_spec() ==> r == texel_index_spec(u, size as int),
{
    let raw = u.times(T::from_i32(size as i32)).to_i32();
    if raw < 0 {
        0
    } else {
        raw as u32
    }
}

/// The texel of `map` that the texture coordinates `(u, v)` sample. Coordinates
/// below zero sample the first column or row; coordinates of one and above sample
/// nothing.
pub fn texel<T: NumLike>(map: &Canvas, u: T, v: T) -> (r: Result<Color, RenderError>)
    requires
        usable::<T>(),
    ensures
        r matches Err(e) ==> e == RenderError::SampleOutOfRange,
        !texture_fits(*map) ==> r is Err,
        T::obeys_num_spec() && texture_fits(*map) ==> (r is Ok <==> samples_inside(*map, u, v)),
        T::obeys_num_spec() ==> (r matches Ok(c) ==> c == texel_spec(*map, u, v)),
{
    let width = map.width();
    let height = map.height();
    if width > i32::MAX as u32 || height > i32::MAX as u32 {
        return Err(RenderError::SampleOutOfRange);
    }
    let x = texel_index(u, width);
    let y = texel_index(v, height);
    map.get(x, y)
}

impl<T: NumLike> Model<T> {
    /// Whether every face has three corners or more, every corner names a position,
    /// a texture coordinate and a normal that exist, and the textures can be
    /// addressed.
    pub open spec fn wf(&self) -> bool {
        &&& faces_in_range(
            self.faces@,
            self.verts@.len() as int,
            self.uvs@.len() as int,
            self.norms@.len() as int,
        )
        &&& texture_fits(self.diffuse_map)
        &&& texture_fits(self.normal_map)
        &&& texture_fits(self.specular_map)
    }

    /// Whether the mesh has the corner `nthvert` of the face `iface`.
    pub open spec fn has_corner(&self, iface: usize, nthvert: usize) -> bool {
        iface < self.faces@.len() && nthvert < self.faces@[iface as int]@.len()
    }

    /// The corner `nthvert` of the face `iface`: the indices of its position, its
    /// texture coordinate and its normal.
    pub open spec fn corner(&self, iface: usize, nthvert: usize) -> Seq<i32> {
        self.faces@[iface as int]@[nthvert as int]@
    }

    /// A mesh of the given parts. A face with fewer than three corners or with an
    /// index that names nothing is a defect of the mesh; a texture wider or higher
    /// than 32-bit coordinates reach is a defect of the texture.
    pub fn new(
        verts: Vec<Vec3<T>>,
        faces: Vec<Vec<Vec3i>>,
        norms: Vec<Vec3<T>>,
        uvs: Vec<Vec2<T>>,
        diffuse_map: Canvas,
        normal_map: Canvas,
        specular_map: Canvas,
    ) -> (r: Result<Self, RenderError>)
        ensures
            r matches Ok(m) ==> m.wf() && m.verts == verts && m.faces == faces && m.norms == norms
                && m.uvs == uvs && m.diffuse_map == diffuse_map && m.normal_map == normal_map
                && m.specular_map == specular_map,
            !faces_in_range(faces@, verts@.len() as int, uvs@.len() as int, norms@.len() as int)
                ==> r == Err::<Self, RenderError>(RenderError::MeshLoadError),
            faces_in_range(faces@, verts@.len() as int, uvs@.len() as int, norms@.len() as int)
                && !(texture_fits(diffuse_map) && texture_fits(normal_map) && texture_fits(
                specular_map,
            )) ==> r == Err::<Self, RenderError>(RenderError::TextureLoadError),
            faces_in_range(faces@, verts@.len() as int, uvs@.len() as int, norms@.len() as int)
                && texture_fits(diffuse_map) && texture_fits(normal_map) && texture_fits(
                specular_map,
            ) ==> r is Ok,
    {
        let mut f: usize = 0;
        while f < faces.len()
            invariant
                f <= faces.len(),
                forall|k: int|
                    0 <= k < f ==> (#[trigger] faces@[k])@.len() >= 3 && forall|c: int|
                        0 <= c < faces@[k]@.len() ==> corner_in_range(
                            (#[trigger] faces@[k]@[c])@,
                            verts@.len() as int,
                            uvs@.len() as int,
                            norms@.len() as int,
                        ),
            decreases faces.len() - f,
        {
            let face = &faces[f];
            if face.len() < 3 {
                return Err(RenderError::MeshLoadError);
            }
            let mut c: usize = 0;
            while c < face.len()
                invariant
                    c <= face.len(),
                    f < faces.len(),
                    face == faces@[f as int],
                    forall|k: int|
                        0 <= k < c ==> corner_in_range(
                            (#[trigger] face@[k])@,
                            verts@.len() as int,
                            uvs@.len() as int,
                            norms@.len() as int,
                        ),
                decreases face.len() - c,
            {
                let corner = &face[c];
                let v = corner.data[0];
                let t = corner.data[1];
                let n = corner.data[2];
                if v < 0 || v as usize >= verts.len() || t < 0 || t as usize >= uvs.len() || n < 0
                    || n as usize >= norms.len() {
                    assert(!corner_in_range(
                        faces@[f as int]@[c as int]@,
                        verts@.len() as int,
                        uvs@.len() as int,
                        norms@.len() as int,
                    ));
                    return Err(RenderError::MeshLoadError);
                }
                c += 1;
            }
            f += 1;
        }
        let limit = i32::MAX as u32;
        if diffuse_map.width() > limit || diffuse_map.height() > limit || normal_map.width() > limit
            || normal_map.height() > limit || specular_map.width() > limit || specular_map.height()
            > limit {
            return Err(RenderError::TextureLoadError);
        }
        Ok(Model { verts, faces, norms, uvs, diffuse_map, normal_map, specular_map })
    }

    /// The number of positions.
    pub fn nverts(&self) -> (n: usize)
        ensures
            n == self.verts@.len(),
    {
        self.verts.len()
    }

    /// The number of faces.
    pub fn nfaces(&self) -> (n: usize)
        ensures
            n == self.faces@.len(),
    {
        self.faces.len()
    }

    /// The position with the index `i`.
    pub fn vert(&self, i: usize) -> (r: Result<Vec3<T>, RenderError>)
        ensures
            r matches Ok(v) ==> v == self.verts@[i as int],
            r matches Err(e) ==> e == RenderError::DimensionMismatch,
            r is Ok <==> i < self.verts@.len(),
    {
        if i < self.verts.len() {
            Ok(self.verts[i])
        } else {
            Err(RenderError::DimensionMismatch)
        }
    }

    /// The three indices of the corner `nthvert` of the face `iface`.
    fn corner_indices(&self, iface: usize, nthvert: usize) -> (r: Result<
        (usize, usize, usize),
        RenderError,
    >)
        requires
            self.wf(),
        ensures
            r matches Ok(i) ==> i.0 == self.corner(iface, nthvert)[0] && i.1 == self.corner(
                iface,
                nthvert,
            )[1] && i.2 == self.corner(iface, nthvert)[2] && i.0 < self.verts@.len() && i.1
                < self.uvs@.len() && i.2 < self.norms@.len(),
            r matches Err(e) ==> e == RenderError::DimensionMismatch,
            r is Ok <==> self.has_corner(iface, nthvert),
    {
        if iface >= self.faces.len() {
            return Err(RenderError::DimensionMismatch);
        }
        let face = &self.faces[iface];
        if nthvert >= face.len() {
            return Err(RenderError::DimensionMismatch);
        }
        let corner = &face[nthvert];
        assert(corner_in_range(
            self.faces@[iface as int]@[nthvert as int]@,
            self.verts@.len() as int,
            self.uvs@.len() as int,
            self.norms@.len() as int,
        ));
        Ok((corner.data[0] as usize, corner.data[1] as usize, corner.data[2] as usize))
    }

    /// The position of the corner `nthvert` of the face `iface`.
    pub fn vert_by(&self, iface: usize, nthvert: usize) -> (r: Result<Vec3<T>, RenderError>)
        requires
            self.wf(),
        ensures
            r matches Ok(v) ==> v == self.verts@[self.corner(iface, nthvert)[0] as int],
            r matches Err(e) ==> e == RenderError::DimensionMismatch,
            r is Ok <==> self.has_corner(iface, nthvert),
    {
        match self.corner_indices(iface, nthvert) {
            Ok(i) => Ok(self.verts[i.0]),
            Err(e) => Err(e),
        }
    }

    /// The positions of the first three corners of the face `iface`.
    pub fn corners(&self, iface: usize) -> (r: Result<[Vec3<T>; 3], RenderError>)
        requires
            self.wf(),
        ensures
            r matches Ok(c) ==> forall|k: int|
                0 <= k < 3 ==> #[trigger] c@[k] == self.verts@[self.corner(iface, k as usize)[0] as int],
            r matches Err(e) ==> e == RenderError::DimensionMismatch,
            r is Ok <==> iface < self.faces@.len(),
    {
        let c0 = match self.vert_by(iface, 0) {
            Ok(c) => c,
            Err(e) => {
                return Err(e);
            },
        };
        let c1 = match self.vert_by(iface, 1) {
            Ok(c) => c,
            Err(e) => {
                return Err(e);
            },
        };
        let c2 = match self.vert_by(iface, 2) {
            Ok(c) => c,
            Err(e) => {
                return Err(e);
            },
        };
        Ok([c0, c1, c2])
    }

    /// The indices of the positions of the corners of the face `idx`.
    pub fn face(&self, idx: usize) -> (r: Result<Vec<i32>, RenderError>)
        ensures
            r matches Ok(f) ==> f@ == Seq::new(
                self.faces@[idx as int]@.len(),
                |i: int| self.faces@[idx as int]@[i]@[0],
            ),
            r matches Err(e) ==> e == RenderError::DimensionMismatch,
            r is Ok <==> idx < self.faces@.len(),
    {
        if idx >= self.faces.len() {
            return Err(RenderError::DimensionMismatch);
        }
        let face = &self.faces[idx];
        let mut f: Vec<i32> = Vec::new();
        let mut i: usize = 0;
        while i < face.len()
            invariant
                i <= face.len(),
                f@.len() == i,
                forall|k: int| 0 <= k < i ==> f@[k] == face@[k]@[0],
            decreases face.len() - i,
        {
            f.push(face[i].data[0]);
            i += 1;
        }
        assert(f@ =~= Seq::new(
            self.faces@[idx as int]@.len(),
            |i: int| self.faces@[idx as int]@[i]@[0],
        ));
        Ok(f)
    }

    /// The texture coordinate of the corner `nthvert` of the face `iface`.
    pub fn uv(&self, iface: usize, nthvert: usize) -> (r: Result<Vec2<T>, RenderError>)
        requires
            self.wf(),
        ensures
            r matches Ok(v) ==> v == self.uvs@[self.corner(iface, nthvert)[1] as int],
            r matches Err(e) ==> e == RenderError::DimensionMismatch,
            r is Ok <==> self.has_corner(iface, nthvert),
    {
        match self.corner_indices(iface, nthvert) {
            Ok(i) => Ok(self.uvs[i.1]),
            Err(e) => Err(e),
        }
    }

    /// The normal of the corner `nthvert` of the face `iface`, normalized.
    pub fn norm(&self, iface: usize, nthvert: usize) -> (r: Result<Vec3<T>, RenderError>)
        requires
            self.wf(),
            usable::<T>(),
        ensures
            !self.has_corner(iface, nthvert) ==> r == Err::<Vec3<T>, RenderError>(
                RenderError::DimensionMismatch,
            ),
            self.has_corner(iface, nthvert) ==> (r matches Err(e) ==> e == RenderError::ZeroNorm),
            T::obeys_num_spec() && self.has_corner(iface, nthvert) ==> ({
                let stored = self.norms@[self.corner(iface, nthvert)[2] as int]@;
                if norm_spec(stored).equals_spec(T::zero_spec()) {
                    r is Err
                } else {
                    r matches Ok(n) && n@ == normalize_spec(stored)
                }
            }),
    {
        match self.corner_indices(iface, nthvert) {
            Ok(i) => {
                let mut n = self.norms[i.2];
                proof {
                    if T::obeys_num_spec() {
                        lemma_total_vectors(n@, n@, 3);
                    }
                }
                n.normalize()
            },
            Err(e) => Err(e),
        }
    }

    /// The normal that the normal map gives at the texture coordinates `uvf`.
    pub fn norm_by(&self, uvf: Vec2<T>) -> (r: Result<Vec3<T>, RenderError>)
        requires
            self.wf(),
            usable::<T>(),
        ensures
            r matches Err(e) ==> e == RenderError::SampleOutOfRange,
            T::obeys_num_spec() ==> (r is Ok <==> samples_inside(self.normal_map, uvf@[0], uvf@[1])),
            T::obeys_num_spec() ==> (r matches Ok(n) ==> n@ == texel_normal_spec::<T>(
                texel_spec(self.normal_map, uvf@[0], uvf@[1]),
            )),
    {
        let color = match texel(&self.normal_map, uvf.data[0], uvf.data[1]) {
            Ok(color) => color,
            Err(e) => {
                return Err(e);
            },
        };
        let n = Vec_ {
            data: [
                channel_to_coordinate(color[2]),
                channel_to_coordinate(color[1]),
                channel_to_coordinate(color[0]),
            ],
        };
        assert(T::obeys_num_spec() ==> n@ =~= texel_normal_spec::<T>(color));
        Ok(n)
    }

    /// The color that the diffuse map gives at the texture coordinates `(uv0, uv1)`.
    pub fn diffuse(&self, uv0: T, uv1: T) -> (r: Result<Color, RenderError>)
        requires
            self.wf(),
            usable::<T>(),
        ensures
            r matches Err(e) ==> e == RenderError::SampleOutOfRange,
            T::obeys_num_spec() ==> (r is Ok <==> samples_inside(self.diffuse_map, uv0, uv1)),
            T::obeys_num_spec() ==> (r matches Ok(c) ==> c == texel_spec(
                self.diffuse_map,
                uv0,
                uv1,
            )),
    {
        texel(&self.diffuse_map, uv0, uv1)
    }

    /// The exponent that the specular map gives at the texture coordinates
    /// `(uv0, uv1)`: the red channel of its texel.
    pub fn specular(&self, uv0: T, uv1: T) -> (r: Result<T, RenderError>)
        requires
            self.wf(),
            usable::<T>(),
        ensures
            r matches Err(e) ==> e == RenderError::SampleOutOfRange,
            T::obeys_num_spec() ==> (r is Ok <==> samples_inside(self.specular_map, uv0, uv1)),
            T::obeys_num_spec() ==> (r matches Ok(s) ==> s == T::from_i32_spec(
                texel_spec(self.specular_map, uv0, uv1)@[0] as i32,
            ).over_spec(T::one_spec())),
    {
        match texel(&self.specular_map, uv0, uv1) {
            Ok(color) => Ok(T::from_i32(color[0] as i32).over(T::one())),
            Err(e) => Err(e),
        }
    }
}

/// A channel of a normal map as a coordinate of the normal.
fn channel_to_coordinate<T: NumLike>(channel: u8) -> (r: T)
    requires
        usable::<T>(),
    ensures
        T::obeys_num_spec() ==> r == channel_to_coordinate_spec::<T>(channel),
{
    T::from_i32(channel as i32).over(T::from_i32(255)).times(T::from_i32(2)).minus(T::one())
}

/// The digit that the character `c` stands for, and -1 where it is no digit.
pub open spec fn digit_spec(c: char) -> int {
    if c == '0' {
        0
    } else if c == '1' {
        1
    } else if c == '2' {
        2
    } else if c == '3' {
        3
    } else if c == '4' {
        4
    } else if c == '5' {
        5
    } else if c == '6' {
        6
    } else if c == '7' {
        7
    } else if c == '8' {
        8
    } else if c == '9' {
        9
    } else {
        -1
    }
}

/// Whether `s` is a decimal numeral: one digit or more, and digits only.
pub open spec fn is_numeral(s: Seq<char>) -> bool {
    s.len() > 0 && forall|i: int| 0 <= i < s.len() ==> digit_spec(#[trigger] s[i]) >= 0
}

/// The number that the digits `s` stand for, in base ten.
pub open spec fn numeral_spec(s: Seq<char>) -> int
    decreases s.len(),
{
    if s.len() == 0 {
        0
    } else {
        numeral_spec(s.drop_last()) * 10 + digit_spec(s.last())
    }
}

/// The index that a field of a corner stands for: the field is a decimal numeral of
/// a number from 1 to the greatest `i32`, and the index is that number less one.
pub open spec fn index_word_spec(s: Seq<char>) -> Option<i32> {
    if is_numeral(s) && 1 <= numeral_spec(s) <= i32::MAX {
        Some((numeral_spec(s) - 1) as i32)
    } else {
        None
    }
}

/// Where the field of `w` that starts at `from` ends: at the first slash from there
/// on, or at the end of `w`.
pub open spec fn field_end_spec(w: Seq<char>, from: int) -> int
    decreases w.len() - from,
{
    if from >= w.len() || w[from] == '/' {
        from
    } else {
        field_end_spec(w, from + 1)
    }
}

/// The corner of a face that the word `w` of a mesh file stands for: three fields
/// divided by slashes, each the numeral of an index that counts from one, for the
/// position, the texture coordinates and the normal. The indices count from zero in
/// the result. What follows a third slash is not read.
pub open spec fn corner_word_spec(w: Seq<char>) -> Option<Seq<i32>> {
    let a = field_end_spec(w, 0);
    let b = field_end_spec(w, a + 1);
    let c = field_end_spec(w, b + 1);
    if a < w.len() && b < w.len() {
        match (
            index_word_spec(w.subrange(0, a)),
            index_word_spec(w.subrange(a + 1, b)),
            index_word_spec(w.subrange(b + 1, c)),
        ) {
            (Some(i), Some(j), Some(k)) => Some(seq![i, j, k]),
            _ => None,
        }
    } else {
        None
    }
}

/// A field ends within the word, at or after its start.
pub proof fn lemma_field_end_within(w: Seq<char>, from: int)
    requires
        0 <= from <= w.len(),
    ensures
        from <= field_end_spec(w, from) <= w.len(),
    decreases w.len() - from,
{
    if from < w.len() && w[from] != '/' {
        lemma_field_end_within(w, from + 1);
    }
}

/// The number of a numeral is not below the number of any of its beginnings, and
/// none is below zero.
pub proof fn lemma_numerals_grow(s: Seq<char>, k: int)
    requires
        0 <= k <= s.len(),
        forall|i: int| 0 <= i < s.len() ==> digit_spec(#[trigger] s[i]) >= 0,
    ensures
        0 <= numeral_spec(s.take(k)) <= numeral_spec(s),
    decreases s.len(),
{
    if k < s.len() {
        lemma_numerals_grow(s.drop_last(), k);
        assert(s.drop_last().take(k) =~= s.take(k));
        assert(digit_spec(s.last()) >= 0);
    } else {
        assert(s.take(k) =~= s);
        if s.len() > 0 {
            lemma_numerals_grow(s.drop_last(), s.len() - 1);
            assert(s.drop_last().take(s.len() - 1) =~= s.drop_last());
            assert(digit_spec(s.last()) >= 0);
        }
    }
}

/// The digit that the character `c` stands for, if it is one.
fn digit(c: char) -> (r: Option<i64>)
    ensures
        r is Some <==> digit_spec(c) >= 0,
        r matches Some(d) ==> d == digit_spec(c),
{
    if c == '0' {
        Some(0)
    } else if c == '1' {
        Some(1)
    } else if c == '2' {
        Some(2)
    } else if c == '3' {
        Some(3)
    } else if c == '4' {
        Some(4)
    } else if c == '5' {
        Some(5)
    } else if c == '6' {
        Some(6)
    } else if c == '7' {
        Some(7)
    } else if c == '8' {
        Some(8)
    } else if c == '9' {
        Some(9)
    } else {
        None
    }
}

/// Where the field of `word` that starts at `from` ends.
fn field_end(word: &str, from: usize) -> (r: usize)
    requires
        from <= word@.len(),
    ensures
        r == field_end_spec(word@, from as int),
        from <= r <= word@.len(),
{
    let len = word.unicode_len();
    let mut i: usize = from;
    while i < len && word.get_char(i) != '/'
        invariant
            from <= i <= len,
            len == word@.len(),
            field_end_spec(word@, from as int) == field_end_spec(word@, i as int),
        decreases len - i,
    {
        i += 1;
    }
    i
}

/// The index that the field of `word` from `from` to `to` stands for.
fn parse_index(word: &str, from: usize, to: usize) -> (r: Option<i32>)
    requires
        from <= to <= word@.len(),
    ensures
        r == index_word_spec(word@.subrange(from as int, to as int)),
{
    let ghost field = word@.subrange(from as int, to as int);
    if from == to {
        return None;
    }
    let mut value: i64 = 0;
    let mut i: usize = from;
    assert(field.take(0) =~= Seq::<char>::empty());
    while i < to
        invariant
            from <= i <= to <= word@.len(),
            field == word@.subrange(from as int, to as int),
            forall|j: int| 0 <= j < i - from ==> digit_spec(#[trigger] field[j]) >= 0,
            value == numeral_spec(field.take(i - from)),
            0 <= value <= i32::MAX,
        decreases to - i,
    {
        let c = word.get_char(i);
        assert(c == field[i - from]);
        let d = match digit(c) {
            Some(d) => d,
            None => {
                return None;
            },
        };
        proof {
            assert(field.take(i - from + 1).drop_last() =~= field.take(i - from));
            assert(field.take(i - from + 1).last() == c);
        }
        value = value * 10 + d;
        if value > i32::MAX as i64 {
            proof {
                if is_numeral(field) {
                    lemma_numerals_grow(field, i - from + 1);
                }
            }
            return None;
        }
        i += 1;
    }
    assert(field.take(to - from) =~= field);
    if value < 1 {
        None
    } else {
        Some((value - 1) as i32)
    }
}

/// The corner of a face that a word of a mesh file stands for, with indices that
/// count from zero; a word that stands for none is a defect of the mesh.
pub fn parse_corner(word: &str) -> (r: Result<Vec3i, RenderError>)
    ensures
        r is Ok <==> corner_word_spec(word@) is Some,
        r matches Ok(c) ==> c@ == corner_word_spec(word@)->0,
        r matches Err(e) ==> e == RenderError::MeshLoadError,
{
    let len = word.unicode_len();
    let a = field_end(word, 0);
    if a >= len {
        return Err(RenderError::MeshLoadError);
    }
    let b = field_end(word, a + 1);
    if b >= len {
        return Err(RenderError::MeshLoadError);
    }
    let c = field_end(word, b + 1);
    let i = parse_index(word, 0, a);
    let j = parse_index(word, a + 1, b);
    let k = parse_index(word, b + 1, c);
    match (i, j, k) {
        (Some(i), Some(j), Some(k)) => {
            let r = Vec_ { data: [i, j, k] };
            assert(r@ =~= seq![i, j, k]);
            Ok(r)
        },
        _ => Err(RenderError::MeshLoadError),
    }
}

} // verus!
