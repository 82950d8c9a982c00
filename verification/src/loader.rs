//! glTF mesh and material extraction.
//!
//! A `Loaded` store holds glTF documents in a decoded, plain-value form
//! plus the raw bytes of sibling resource files.  Extraction walks a
//! scene's node hierarchy depth-first, and for every mesh primitive with
//! position data copies its vertex attributes into flat
//! component-interleaved arrays and resolves its material by name,
//! deduplicating materials across primitives by first-seen name.

use vstd::prelude::*;
use vstd::string::StringExecFns;
use crate::fixed::SCALE;
use crate::texture::CPUTexture;

verus! {

/// Errors raised while extracting meshes and materials.
#[derive(Clone, Copy, Debug, PartialEq, Eq, Structural)]
pub enum IOError {
    /// A resource name has no bytes in the store.
    ResourceNotFound,
    /// An image's bytes could not be decoded.
    ImageDecode,
    /// A buffer view points outside its buffer.
    InvalidBufferView,
    /// An embedded buffer-view texture declares a byte stride, which the
    /// extractor does not support; failing fast beats misreading pixels.
    UnsupportedByteStride,
    /// The node hierarchy nests deeper than the defensive bound.
    TreeTooDeep,
    /// A child reference names no node of the document.
    InvalidNodeIndex,
}

/// Triangle indices in whichever width the document stores them.
#[derive(Debug)]
pub enum Indices {
    U8(Vec<u8>),
    U16(Vec<u16>),
    U32(Vec<u32>),
}

/// A mesh in engine-neutral form: flat component-interleaved arrays.
#[derive(Debug)]
pub struct CPUMesh {
    pub name: String,
    pub positions: Vec<i64>,
    pub normals: Option<Vec<i64>>,
    pub indices: Option<Indices>,
    pub colors: Option<Vec<u8>>,
    pub uvs: Option<Vec<i64>>,
    pub material_name: Option<String>,
}

/// A material in engine-neutral form.
#[derive(Debug)]
pub struct CPUMaterial {
    pub name: String,
    pub color: Option<(i64, i64, i64, i64)>,
    pub color_texture: Option<CPUTexture>,
    pub metallic_factor: Option<i64>,
    pub roughness_factor: Option<i64>,
    pub metallic_roughness_texture: Option<CPUTexture>,
    pub diffuse_intensity: Option<i64>,
    pub specular_intensity: Option<i64>,
    pub specular_power: Option<i64>,
}

/// Where a texture's pixels come from: an external file or a slice of an
/// embedded binary buffer.
#[derive(Debug)]
pub enum TextureSource {
    Uri(String),
    View { buffer_index: usize, offset: usize, length: usize, stride: Option<usize> },
}

/// A reference from a material to a texture.
#[derive(Debug)]
pub struct GltfTextureInfo {
    pub source: TextureSource,
}

/// A document material: the metallic-roughness parameters the extractor
/// reads.
#[derive(Debug)]
pub struct GltfMaterial {
    pub name: Option<String>,
    pub index: Option<usize>,
    pub base_color: (i64, i64, i64, i64),
    pub base_color_texture: Option<GltfTextureInfo>,
    pub metallic: i64,
    pub roughness: i64,
    pub metallic_roughness_texture: Option<GltfTextureInfo>,
}

/// One primitive of a document mesh, attributes already decoded to plain
/// values.
#[derive(Debug)]
pub struct GltfPrimitive {
    pub positions: Option<Vec<(i64, i64, i64)>>,
    pub normals: Option<Vec<(i64, i64, i64)>>,
    pub indices: Option<Indices>,
    pub colors: Option<Vec<(u8, u8, u8)>>,
    pub uvs: Option<Vec<(i64, i64)>>,
    pub material: GltfMaterial,
}

/// A document mesh: a name, its index in the document, and primitives.
#[derive(Debug)]
pub struct GltfMesh {
    pub name: Option<String>,
    pub index: usize,
    pub primitives: Vec<GltfPrimitive>,
}

/// A document node: an optional mesh and child node indices.
#[derive(Debug)]
pub struct GltfNode {
    pub mesh: Option<GltfMesh>,
    pub children: Vec<usize>,
}

/// A whole document: nodes, the root-node lists of its scenes, and its
/// binary buffers.
#[derive(Debug)]
pub struct GltfModel {
    pub nodes: Vec<GltfNode>,
    pub scenes: Vec<Vec<usize>>,
    pub buffers: Vec<Vec<u8>>,
}

/// Pre-fetched assets: parsed glTF documents by name, raw resource bytes
/// by name.
#[derive(Debug)]
pub struct Loaded {
    pub gltf_models: Vec<(String, GltfModel)>,
    pub resources: Vec<(String, Vec<u8>)>,
}

/// The ghost form of a mesh descriptor.
#[verifier::ext_equal]
pub ghost struct MeshView {
    pub name: Seq<char>,
    pub positions: Seq<i64>,
    pub normals: Option<Seq<i64>>,
    pub indices: Option<IndicesView>,
    pub colors: Option<Seq<u8>>,
    pub uvs: Option<Seq<i64>>,
    pub material_name: Option<Seq<char>>,
}

/// The ghost form of triangle indices.
pub ghost enum IndicesView {
    U8(Seq<u8>),
    U16(Seq<u16>),
    U32(Seq<u32>),
}

/// The ghost form of a material descriptor; a texture is its pixel bytes
/// with its resolution.
#[verifier::ext_equal]
pub ghost struct MatView {
    pub name: Seq<char>,
    pub color: Option<(int, int, int, int)>,
    pub color_texture: Option<(Seq<u8>, int, int)>,
    pub metallic_factor: Option<int>,
    pub roughness_factor: Option<int>,
    pub metallic_roughness_texture: Option<(Seq<u8>, int, int)>,
    pub diffuse_intensity: Option<int>,
    pub specular_intensity: Option<int>,
    pub specular_power: Option<int>,
}

pub open spec fn indices_view(i: Indices) -> IndicesView {
    match i {
        Indices::U8(v) => IndicesView::U8(v@),
        Indices::U16(v) => IndicesView::U16(v@),
        Indices::U32(v) => IndicesView::U32(v@),
    }
}

pub open spec fn mesh_view(m: CPUMesh) -> MeshView {
    MeshView {
        name: m.name@,
        positions: m.positions@,
        normals: match m.normals {
            Some(v) => Some(v@),
            None => None,
        },
        indices: match m.indices {
            Some(i) => Some(indices_view(i)),
            None => None,
        },
        colors: match m.colors {
            Some(v) => Some(v@),
            None => None,
        },
        uvs: match m.uvs {
            Some(v) => Some(v@),
            None => None,
        },
        material_name: match m.material_name {
            Some(n) => Some(n@),
            None => None,
        },
    }
}

pub open spec fn tex_view(t: CPUTexture) -> (Seq<u8>, int, int) {
    (t.data@, t.width as int, t.height as int)
}

pub open spec fn mat_view(m: CPUMaterial) -> MatView {
    MatView {
        name: m.name@,
        color: match m.color {
            Some(c) => Some((c.0 as int, c.1 as int, c.2 as int, c.3 as int)),
            None => None,
        },
        color_texture: match m.color_texture {
            Some(t) => Some(tex_view(t)),
            None => None,
        },
        metallic_factor: match m.metallic_factor {
            Some(v) => Some(v as int),
            None => None,
        },
        roughness_factor: match m.roughness_factor {
            Some(v) => Some(v as int),
            None => None,
        },
        metallic_roughness_texture: match m.metallic_roughness_texture {
            Some(t) => Some(tex_view(t)),
            None => None,
        },
        diffuse_intensity: match m.diffuse_intensity {
            Some(v) => Some(v as int),
            None => None,
        },
        specular_intensity: match m.specular_intensity {
            Some(v) => Some(v as int),
            None => None,
        },
        specular_power: match m.specular_power {
            Some(v) => Some(v as int),
            None => None,
        },
    }
}

/// The character of a single decimal digit.
pub open spec fn digit_char(d: nat) -> char {
    if d == 0 {
        '0'
    } else if d == 1 {
        '1'
    } else if d == 2 {
        '2'
    } else if d == 3 {
        '3'
    } else if d == 4 {
        '4'
    } else if d == 5 {
        '5'
    } else if d == 6 {
        '6'
    } else if d == 7 {
        '7'
    } else if d == 8 {
        '8'
    } else {
        '9'
    }
}

/// The decimal digits of a number, most significant first.
pub open spec fn dec_str(n: nat) -> Seq<char>
    decreases n,
{
    if n < 10 {
        seq![digit_char(n)]
    } else {
        dec_str(n / 10).push(digit_char(n % 10))
    }
}

/// Relies on std's `Display` for `usize`: formatting yields the value's
/// decimal digits, most significant first, no sign and no padding.
#[verifier::external_body]
fn usize_to_string(n: usize) -> (r: String)
    ensures
        r@ == dec_str(n as nat),
{
    format!("{}", n)
}

/// The name under which a material is deduplicated: its own name, or
/// "index" plus its document index, or "default".
pub open spec fn mat_name_of(m: GltfMaterial) -> Seq<char> {
    match m.name {
        Some(n) => n@,
        None => match m.index {
            Some(i) => "index "@ + dec_str(i as nat),
            None => "default"@,
        },
    }
}

/// The name under which a mesh is emitted: its own name, or "index" plus
/// its document index.
pub open spec fn mesh_name_of(m: GltfMesh) -> Seq<char> {
    match m.name {
        Some(n) => n@,
        None => "index "@ + dec_str(m.index as nat),
    }
}

/// Builds the material's deduplication name.
fn mat_name(m: &GltfMaterial) -> (r: String)
    ensures
        r@ == mat_name_of(*m),
{
    match &m.name {
        Some(n) => n.as_str().to_owned(),
        None => match m.index {
            Some(i) => {
                let mut s = "index ".to_owned();
                s.append(usize_to_string(i).as_str());
                s
            },
            None => "default".to_owned(),
        },
    }
}

/// Builds the mesh's name.
fn mesh_name(m: &GltfMesh) -> (r: String)
    ensures
        r@ == mesh_name_of(*m),
{
    match &m.name {
        Some(n) => n.as_str().to_owned(),
        None => {
            let mut s = "index ".to_owned();
            s.append(usize_to_string(m.index).as_str());
            s
        },
    }
}

/// The first bytes stored at or after position `i` under `key`, if any.
pub open spec fn lookup_bytes_from(rs: Seq<(String, Vec<u8>)>, key: Seq<char>, i: int) -> Option<
    Seq<u8>,
>
    decreases rs.len() - i,
{
    if i < 0 || i >= rs.len() {
        None
    } else if rs[i].0@ == key {
        Some(rs[i].1@)
    } else {
        lookup_bytes_from(rs, key, i + 1)
    }
}

/// The first bytes stored under a name, if any.
pub open spec fn lookup_bytes(rs: Seq<(String, Vec<u8>)>, key: Seq<char>) -> Option<Seq<u8>> {
    lookup_bytes_from(rs, key, 0)
}

/// What decoding an encoded image yields, if it decodes: RGBA pixel
/// bytes with the width and height.  The result depends on the encoded
/// bytes alone.
pub uninterp spec fn decoded_image(bytes: Seq<u8>) -> Option<(Seq<u8>, int, int)>;

/// Relies on image::load_from_memory: decoding is a function of the
/// encoded bytes alone; on success the pixels are returned converted to
/// RGBA, eight bits per channel.
#[verifier::external_body]
fn image_from_bytes(bytes: &[u8]) -> (r: Result<CPUTexture, IOError>)
    ensures
        match r {
            Ok(t) => decoded_image(bytes@) == Some(tex_view(t)),
            Err(e) => decoded_image(bytes@) is None && e == IOError::ImageDecode,
        },
{
    match image::load_from_memory(bytes) {
        Ok(img) => {
            let rgba = img.to_rgba8();
            let width = rgba.width() as usize;
            let height = rgba.height() as usize;
            Ok(CPUTexture { data: rgba.into_raw(), width, height })
        },
        Err(_) => Err(IOError::ImageDecode),
    }
}

impl Loaded {
    /// An empty store.
    pub fn new() -> (r: Loaded)
        ensures
            r.gltf_models@.len() == 0,
            r.resources@.len() == 0,
    {
        Loaded { gltf_models: Vec::new(), resources: Vec::new() }
    }

    /// The bytes stored under a name.
    pub fn bytes(&self, path: &str) -> (r: Result<&Vec<u8>, IOError>)
        ensures
            match r {
                Ok(b) => lookup_bytes(self.resources@, path@) == Some(b@),
                Err(e) => e == IOError::ResourceNotFound && lookup_bytes(self.resources@, path@)
                    is None,
            },
    {
        let key = path.to_owned();
        let n = self.resources.len();
        let mut i: usize = 0;
        while i < n
            invariant
                i <= n,
                n == self.resources@.len(),
                key@ == path@,
                lookup_bytes(self.resources@, path@) == lookup_bytes_from(
                    self.resources@,
                    path@,
                    i as int,
                ),
            decreases n - i,
        {
            if self.resources[i].0 == key {
                return Ok(&self.resources[i].1);
            }
            i = i + 1;
        }
        Err(IOError::ResourceNotFound)
    }

    /// The image stored under a name, decoded.
    pub fn image(&self, path: &str) -> (r: Result<CPUTexture, IOError>)
        ensures
            match r {
                Ok(t) => (lookup_bytes(self.resources@, path@) matches Some(b) && decoded_image(b)
                    == Some(tex_view(t))),
                Err(IOError::ResourceNotFound) => lookup_bytes(self.resources@, path@) is None,
                Err(e) => e == IOError::ImageDecode && (lookup_bytes(self.resources@, path@)
                    matches Some(b) && decoded_image(b) is None),
            },
    {
        let bytes = match self.bytes(path) {
            Ok(b) => b,
            Err(e) => {
                return Err(e);
            },
        };
        image_from_bytes(bytes.as_slice())
    }
}

/// What resolving a texture reference yields: the decoded image of the
/// external file, or of the in-bounds unstrided slice of an embedded
/// buffer.
pub open spec fn tex_spec(
    rs: Seq<(String, Vec<u8>)>,
    buffers: Seq<Vec<u8>>,
    src: TextureSource,
) -> Result<(Seq<u8>, int, int), IOError> {
    match src {
        TextureSource::Uri(uri) => match lookup_bytes(rs, uri@) {
            None => Err(IOError::ResourceNotFound),
            Some(b) => match decoded_image(b) {
                Some(t) => Ok(t),
                None => Err(IOError::ImageDecode),
            },
        },
        TextureSource::View { buffer_index, offset, length, stride } => {
            if buffer_index >= buffers.len() || offset + length > buffers[buffer_index as int]@.len() {
                Err(IOError::InvalidBufferView)
            } else if stride is Some {
                Err(IOError::UnsupportedByteStride)
            } else {
                match decoded_image(
                    buffers[buffer_index as int]@.subrange(
                        offset as int,
                        offset as int + length as int,
                    ),
                ) {
                    Some(t) => Ok(t),
                    None => Err(IOError::ImageDecode),
                }
            }
        },
    }
}

/// Resolves a texture reference: loads and decodes an external file, or
/// copies an embedded buffer view and decodes it.  An embedded view with
/// a byte stride fails rather than misread pixel data.
pub fn parse_texture(loaded: &Loaded, buffers: &Vec<Vec<u8>>, info: &GltfTextureInfo) -> (r:
    Result<CPUTexture, IOError>)
    ensures
        match r {
            Ok(t) => tex_spec(loaded.resources@, buffers@, info.source) matches Ok(v) && tex_view(
                t,
            ) == v,
            Err(e) => tex_spec(loaded.resources@, buffers@, info.source) == Err::<
                (Seq<u8>, int, int),
                IOError,
            >(e),
        },
{
    match &info.source {
        TextureSource::Uri(uri) => loaded.image(uri.as_str()),
        TextureSource::View { buffer_index, offset, length, stride } => {
            let bi = *buffer_index;
            let off = *offset;
            let len = *length;
            if bi >= buffers.len() {
                return Err(IOError::InvalidBufferView);
            }
            if off > buffers[bi].len() || len > buffers[bi].len() - off {
                return Err(IOError::InvalidBufferView);
            }
            if stride.is_some() {
                return Err(IOError::UnsupportedByteStride);
            }
            let blen = buffers[bi].len();
            let mut bytes: Vec<u8> = Vec::new();
            let mut k: usize = 0;
            while k < len
                invariant
                    k <= len,
                    bi < buffers@.len(),
                    off + len <= blen,
                    blen == buffers@[bi as int]@.len(),
                    bytes@ =~= buffers@[bi as int]@.subrange(off as int, off as int + k as int),
                decreases len - k,
            {
                bytes.push(buffers[bi][off + k]);
                k = k + 1;
            }
            proof {
                assert(bytes@ =~= buffers@[bi as int]@.subrange(
                    off as int,
                    off as int + len as int,
                ));
            }
            image_from_bytes(bytes.as_slice())
        },
    }
}


/// An extraction in progress: the descriptors built so far, and the
/// first error met, if any.
#[verifier::ext_equal]
pub ghost struct Extraction {
    pub meshes: Seq<MeshView>,
    pub mats: Seq<MatView>,
    pub err: Option<IOError>,
}

/// The ghost form of a mesh-descriptor list.
pub open spec fn meshes_view(ms: Seq<CPUMesh>) -> Seq<MeshView> {
    ms.map_values(|m: CPUMesh| mesh_view(m))
}

/// The ghost form of a material-descriptor list.
pub open spec fn mats_view(ms: Seq<CPUMaterial>) -> Seq<MatView> {
    ms.map_values(|m: CPUMaterial| mat_view(m))
}

/// Triples flattened into a component-interleaved array.
pub open spec fn flat3(s: Seq<(i64, i64, i64)>) -> Seq<i64>
    decreases s.len(),
{
    if s.len() == 0 {
        Seq::empty()
    } else {
        flat3(s.drop_last()) + seq![s.last().0, s.last().1, s.last().2]
    }
}

/// Pairs flattened into a component-interleaved array.
pub open spec fn flat2(s: Seq<(i64, i64)>) -> Seq<i64>
    decreases s.len(),
{
    if s.len() == 0 {
        Seq::empty()
    } else {
        flat2(s.drop_last()) + seq![s.last().0, s.last().1]
    }
}

/// Color triples flattened into a component-interleaved array.
pub open spec fn flatc(s: Seq<(u8, u8, u8)>) -> Seq<u8>
    decreases s.len(),
{
    if s.len() == 0 {
        Seq::empty()
    } else {
        flatc(s.drop_last()) + seq![s.last().0, s.last().1, s.last().2]
    }
}

/// The mesh descriptor a primitive yields, under its mesh's name.
pub open spec fn mesh_of_prim(name: Seq<char>, p: GltfPrimitive) -> MeshView {
    MeshView {
        name: name,
        positions: match p.positions {
            Some(v) => flat3(v@),
            None => Seq::empty(),
        },
        normals: match p.normals {
            Some(v) => Some(flat3(v@)),
            None => None,
        },
        indices: match p.indices {
            Some(i) => Some(indices_view(i)),
            None => None,
        },
        colors: match p.colors {
            Some(v) => Some(flatc(v@)),
            None => None,
        },
        uvs: match p.uvs {
            Some(v) => Some(flat2(v@)),
            None => None,
        },
        material_name: Some(mat_name_of(p.material)),
    }
}

/// The material descriptor a document material yields, given its two
/// resolved textures.
pub open spec fn mat_of(
    gm: GltfMaterial,
    ct: Option<(Seq<u8>, int, int)>,
    mt: Option<(Seq<u8>, int, int)>,
) -> MatView {
    MatView {
        name: mat_name_of(gm),
        color: Some(
            (
                gm.base_color.0 as int,
                gm.base_color.1 as int,
                gm.base_color.2 as int,
                gm.base_color.3 as int,
            ),
        ),
        color_texture: ct,
        metallic_factor: Some(gm.metallic as int),
        roughness_factor: Some(gm.roughness as int),
        metallic_roughness_texture: mt,
        diffuse_intensity: Some(SCALE as int),
        specular_intensity: Some(gm.metallic as int),
        specular_power: Some(gm.roughness as int),
    }
}

/// Resolving a material: both texture references resolve, base-color
/// texture first, and the factors are copied.
pub open spec fn resolve_mat(
    rs: Seq<(String, Vec<u8>)>,
    buffers: Seq<Vec<u8>>,
    gm: GltfMaterial,
) -> Result<MatView, IOError> {
    match gm.base_color_texture {
        Some(info) => match tex_spec(rs, buffers, info.source) {
            Err(e) => Err(e),
            Ok(ct) => resolve_mat_rest(rs, buffers, gm, Some(ct)),
        },
        None => resolve_mat_rest(rs, buffers, gm, None),
    }
}

pub open spec fn resolve_mat_rest(
    rs: Seq<(String, Vec<u8>)>,
    buffers: Seq<Vec<u8>>,
    gm: GltfMaterial,
    ct: Option<(Seq<u8>, int, int)>,
) -> Result<MatView, IOError> {
    match gm.metallic_roughness_texture {
        Some(info) => match tex_spec(rs, buffers, info.source) {
            Err(e) => Err(e),
            Ok(mt) => Ok(mat_of(gm, ct, Some(mt))),
        },
        None => Ok(mat_of(gm, ct, None)),
    }
}

/// A material of this name has been emitted already.
pub open spec fn has_name(mats: Seq<MatView>, n: Seq<char>) -> bool {
    exists|j: int| 0 <= j < mats.len() && mats[j].name == n
}

/// One primitive's contribution to an extraction: nothing without
/// position data; otherwise a mesh descriptor, plus a material
/// descriptor the first time its name is seen.
pub open spec fn prim_step(
    rs: Seq<(String, Vec<u8>)>,
    buffers: Seq<Vec<u8>>,
    name: Seq<char>,
    p: GltfPrimitive,
    st: Extraction,
) -> Extraction {
    if st.err is Some {
        st
    } else if p.positions is None {
        st
    } else if has_name(st.mats, mat_name_of(p.material)) {
        Extraction { meshes: st.meshes.push(mesh_of_prim(name, p)), mats: st.mats, err: None }
    } else {
        match resolve_mat(rs, buffers, p.material) {
            Err(e) => Extraction { meshes: st.meshes, mats: st.mats, err: Some(e) },
            Ok(mv) => Extraction {
                meshes: st.meshes.push(mesh_of_prim(name, p)),
                mats: st.mats.push(mv),
                err: None,
            },
        }
    }
}

/// The primitives of one mesh, in order, folded into an extraction.
pub open spec fn walk_prims(
    rs: Seq<(String, Vec<u8>)>,
    buffers: Seq<Vec<u8>>,
    name: Seq<char>,
    prims: Seq<GltfPrimitive>,
    i: int,
    st: Extraction,
) -> Extraction
    decreases prims.len() - i,
{
    if i < 0 || i >= prims.len() {
        st
    } else {
        walk_prims(rs, buffers, name, prims, i + 1, prim_step(rs, buffers, name, prims[i], st))
    }
}

/// A failed extraction stays as it is: the fold passes it through.
pub proof fn lemma_walk_prims_err(
    rs: Seq<(String, Vec<u8>)>,
    buffers: Seq<Vec<u8>>,
    name: Seq<char>,
    prims: Seq<GltfPrimitive>,
    i: int,
    st: Extraction,
)
    requires
        st.err is Some,
    ensures
        walk_prims(rs, buffers, name, prims, i, st) == st,
    decreases prims.len() - i,
{
    if 0 <= i < prims.len() {
        lemma_walk_prims_err(rs, buffers, name, prims, i + 1, st);
    }
}

/// A node and, depth-first, everything under it, folded into an
/// extraction; the depth budget bounds the recursion defensively.
pub open spec fn walk_node(
    nodes: Seq<GltfNode>,
    rs: Seq<(String, Vec<u8>)>,
    buffers: Seq<Vec<u8>>,
    idx: int,
    depth: int,
    st: Extraction,
) -> Extraction
    decreases depth, 0int, 0int,
{
    if st.err is Some {
        st
    } else if depth <= 0 {
        Extraction { meshes: st.meshes, mats: st.mats, err: Some(IOError::TreeTooDeep) }
    } else if !(0 <= idx < nodes.len()) {
        Extraction { meshes: st.meshes, mats: st.mats, err: Some(IOError::InvalidNodeIndex) }
    } else {
        let st1 = match nodes[idx].mesh {
            None => st,
            Some(m) => walk_prims(rs, buffers, mesh_name_of(m), m.primitives@, 0, st),
        };
        walk_children(nodes, rs, buffers, nodes[idx].children@, 0, depth - 1, st1)
    }
}

/// A list of child nodes folded into an extraction, left to right.
pub open spec fn walk_children(
    nodes: Seq<GltfNode>,
    rs: Seq<(String, Vec<u8>)>,
    buffers: Seq<Vec<u8>>,
    children: Seq<usize>,
    i: int,
    depth: int,
    st: Extraction,
) -> Extraction
    decreases depth, 1int, children.len() - i,
{
    if st.err is Some || i < 0 || i >= children.len() {
        st
    } else {
        walk_children(
            nodes,
            rs,
            buffers,
            children,
            i + 1,
            depth,
            walk_node(nodes, rs, buffers, children[i] as int, depth, st),
        )
    }
}

/// Copies a vector of plain values.
fn copy_vec<T: Copy>(v: &Vec<T>) -> (r: Vec<T>)
    ensures
        r@ =~= v@,
{
    let mut out: Vec<T> = Vec::new();
    let mut i: usize = 0;
    while i < v.len()
        invariant
            i <= v@.len(),
            out@ =~= v@.subrange(0, i as int),
        decreases v@.len() - i,
    {
        out.push(v[i]);
        i = i + 1;
    }
    out
}

/// Flattens position or normal triples.
fn flatten3(v: &Vec<(i64, i64, i64)>) -> (r: Vec<i64>)
    ensures
        r@ =~= flat3(v@),
{
    let mut out: Vec<i64> = Vec::new();
    let mut i: usize = 0;
    while i < v.len()
        invariant
            i <= v@.len(),
            out@ =~= flat3(v@.subrange(0, i as int)),
        decreases v@.len() - i,
    {
        let e = v[i];
        out.push(e.0);
        out.push(e.1);
        out.push(e.2);
        proof {
            assert(v@.subrange(0, i as int + 1).drop_last() =~= v@.subrange(0, i as int));
            assert(v@.subrange(0, i as int + 1).last() == v@[i as int]);
        }
        i = i + 1;
    }
    proof {
        assert(v@.subrange(0, v@.len() as int) =~= v@);
    }
    out
}

/// Flattens texture-coordinate pairs.
fn flatten2(v: &Vec<(i64, i64)>) -> (r: Vec<i64>)
    ensures
        r@ =~= flat2(v@),
{
    let mut out: Vec<i64> = Vec::new();
    let mut i: usize = 0;
    while i < v.len()
        invariant
            i <= v@.len(),
            out@ =~= flat2(v@.subrange(0, i as int)),
        decreases v@.len() - i,
    {
        let e = v[i];
        out.push(e.0);
        out.push(e.1);
        proof {
            assert(v@.subrange(0, i as int + 1).drop_last() =~= v@.subrange(0, i as int));
            assert(v@.subrange(0, i as int + 1).last() == v@[i as int]);
        }
        i = i + 1;
    }
    proof {
        assert(v@.subrange(0, v@.len() as int) =~= v@);
    }
    out
}

/// Flattens color triples.
fn flattenc(v: &Vec<(u8, u8, u8)>) -> (r: Vec<u8>)
    ensures
        r@ =~= flatc(v@),
{
    let mut out: Vec<u8> = Vec::new();
    let mut i: usize = 0;
    while i < v.len()
        invariant
            i <= v@.len(),
            out@ =~= flatc(v@.subrange(0, i as int)),
        decreases v@.len() - i,
    {
        let e = v[i];
        out.push(e.0);
        out.push(e.1);
        out.push(e.2);
        proof {
            assert(v@.subrange(0, i as int + 1).drop_last() =~= v@.subrange(0, i as int));
            assert(v@.subrange(0, i as int + 1).last() == v@[i as int]);
        }
        i = i + 1;
    }
    proof {
        assert(v@.subrange(0, v@.len() as int) =~= v@);
    }
    out
}

/// One primitive extracted: the exec form of `prim_step`.
fn parse_primitive(
    name: &String,
    prim: &GltfPrimitive,
    loaded: &Loaded,
    buffers: &Vec<Vec<u8>>,
    cpu_meshes: &mut Vec<CPUMesh>,
    cpu_materials: &mut Vec<CPUMaterial>,
) -> (r: Result<(), IOError>)
    ensures
        ({
            let st = prim_step(
                loaded.resources@,
                buffers@,
                name@,
                *prim,
                Extraction {
                    meshes: meshes_view(old(cpu_meshes)@),
                    mats: mats_view(old(cpu_materials)@),
                    err: None,
                },
            );
            meshes_view(final(cpu_meshes)@) =~~= st.meshes && mats_view(final(cpu_materials)@)
                =~~= st.mats && (match r {
                Ok(()) => st.err is None,
                Err(e) => st.err == Some(e),
            })
        }),
{
    let ghost st0 = Extraction {
        meshes: meshes_view(cpu_meshes@),
        mats: mats_view(cpu_materials@),
        err: None,
    };
    let positions = match &prim.positions {
        Some(v) => flatten3(v),
        None => {
            return Ok(());
        },
    };
    let material_name = mat_name(&prim.material);
    let mut parsed = false;
    let n_mats = cpu_materials.len();
    let mut j: usize = 0;
    while j < n_mats
        invariant
            j <= n_mats,
            n_mats == cpu_materials@.len(),
            material_name@ == mat_name_of(prim.material),
            parsed == exists|k: int|
                0 <= k < j && (#[trigger] mats_view(cpu_materials@)[k]).name == mat_name_of(
                    prim.material,
                ),
        decreases n_mats - j,
    {
        proof {
            assert(mats_view(cpu_materials@)[j as int] == mat_view(cpu_materials@[j as int]));
        }
        if cpu_materials[j].name == material_name {
            parsed = true;
        }
        j = j + 1;
    }
    proof {
        assert(parsed == has_name(mats_view(cpu_materials@), mat_name_of(prim.material))) by {
            if has_name(mats_view(cpu_materials@), mat_name_of(prim.material)) {
                let k = choose|k: int|
                    0 <= k < mats_view(cpu_materials@).len() && mats_view(cpu_materials@)[k].name
                        == mat_name_of(prim.material);
                assert(0 <= k < n_mats && (#[trigger] mats_view(cpu_materials@)[k]).name
                    == mat_name_of(prim.material));
            }
        }
    }
    if !parsed {
        let color_texture = match &prim.material.base_color_texture {
            Some(info) => match parse_texture(loaded, buffers, info) {
                Ok(t) => Some(t),
                Err(e) => {
                    return Err(e);
                },
            },
            None => None,
        };
        let metallic_roughness_texture = match &prim.material.metallic_roughness_texture {
            Some(info) => match parse_texture(loaded, buffers, info) {
                Ok(t) => Some(t),
                Err(e) => {
                    return Err(e);
                },
            },
            None => None,
        };
        let new_material = CPUMaterial {
            name: mat_name(&prim.material),
            color: Some(prim.material.base_color),
            color_texture,
            metallic_factor: Some(prim.material.metallic),
            roughness_factor: Some(prim.material.roughness),
            metallic_roughness_texture,
            diffuse_intensity: Some(SCALE),
            specular_intensity: Some(prim.material.metallic),
            specular_power: Some(prim.material.roughness),
        };
        proof {
            assert(resolve_mat(loaded.resources@, buffers@, prim.material) == Ok::<
                MatView,
                IOError,
            >(mat_view(new_material))) by {
                assert(mat_view(new_material) =~~= mat_of(
                    prim.material,
                    match new_material.color_texture {
                        Some(t) => Some(tex_view(t)),
                        None => None,
                    },
                    match new_material.metallic_roughness_texture {
                        Some(t) => Some(tex_view(t)),
                        None => None,
                    },
                ));
            }
        }
        cpu_materials.push(new_material);
        proof {
            assert(mats_view(cpu_materials@) =~~= st0.mats.push(
                mat_view(cpu_materials@.last()),
            ));
        }
    }
    let normals = match &prim.normals {
        Some(v) => Some(flatten3(v)),
        None => None,
    };
    let indices = match &prim.indices {
        Some(Indices::U8(v)) => Some(Indices::U8(copy_vec(v))),
        Some(Indices::U16(v)) => Some(Indices::U16(copy_vec(v))),
        Some(Indices::U32(v)) => Some(Indices::U32(copy_vec(v))),
        None => None,
    };
    let colors = match &prim.colors {
        Some(v) => Some(flattenc(v)),
        None => None,
    };
    let uvs = match &prim.uvs {
        Some(v) => Some(flatten2(v)),
        None => None,
    };
    let new_mesh = CPUMesh {
        name: name.as_str().to_owned(),
        positions,
        normals,
        indices,
        colors,
        uvs,
        material_name: Some(material_name),
    };
    proof {
        assert(mesh_view(new_mesh) =~~= mesh_of_prim(name@, *prim));
    }
    cpu_meshes.push(new_mesh);
    proof {
        assert(meshes_view(cpu_meshes@) =~~= st0.meshes.push(mesh_view(cpu_meshes@.last())));
    }
    Ok(())
}


/// The defensive bound on scene-tree nesting: glTF scenes are acyclic by
/// format contract, but malformed input must not recurse forever.
pub const MAX_TREE_DEPTH: usize = 64;

/// Walks the node hierarchy under `node_index` depth-first and appends a
/// mesh descriptor for every primitive with position data, resolving and
/// deduplicating materials by first-seen name.  Stops at the first
/// failed texture, the first child index outside the document, or a
/// nesting deeper than the depth budget; descriptors appended before the
/// failure remain.
#[verifier::loop_isolation(false)]
pub fn parse_tree(
    node_index: usize,
    loaded: &Loaded,
    model: &GltfModel,
    cpu_meshes: &mut Vec<CPUMesh>,
    cpu_materials: &mut Vec<CPUMaterial>,
    depth: usize,
) -> (r: Result<(), IOError>)
    ensures
        ({
            let w = walk_node(
                model.nodes@,
                loaded.resources@,
                model.buffers@,
                node_index as int,
                depth as int,
                Extraction {
                    meshes: meshes_view(old(cpu_meshes)@),
                    mats: mats_view(old(cpu_materials)@),
                    err: None,
                },
            );
            meshes_view(final(cpu_meshes)@) =~~= w.meshes && mats_view(final(cpu_materials)@)
                =~~= w.mats && (match r {
                Ok(()) => w.err is None,
                Err(e) => w.err == Some(e),
            })
        }),
    decreases depth,
{
    let ghost st0 = Extraction {
        meshes: meshes_view(cpu_meshes@),
        mats: mats_view(cpu_materials@),
        err: None,
    };
    if depth == 0 {
        return Err(IOError::TreeTooDeep);
    }
    if node_index >= model.nodes.len() {
        return Err(IOError::InvalidNodeIndex);
    }
    let node = &model.nodes[node_index];
    if let Some(mesh) = node.mesh.as_ref() {
        let name = mesh_name(mesh);
        let n_prims = mesh.primitives.len();
        let mut pi: usize = 0;
        while pi < n_prims
            invariant
                pi <= n_prims,
                n_prims == mesh.primitives@.len(),
                name@ == mesh_name_of(*mesh),
                walk_prims(
                    loaded.resources@,
                    model.buffers@,
                    name@,
                    mesh.primitives@,
                    pi as int,
                    Extraction {
                        meshes: meshes_view(cpu_meshes@),
                        mats: mats_view(cpu_materials@),
                        err: None,
                    },
                ) =~~= walk_prims(
                    loaded.resources@,
                    model.buffers@,
                    name@,
                    mesh.primitives@,
                    0,
                    st0,
                ),
            decreases n_prims - pi,
        {
            let prim = &mesh.primitives[pi];
            let ghost cur = Extraction {
                meshes: meshes_view(cpu_meshes@),
                mats: mats_view(cpu_materials@),
                err: None,
            };
            match parse_primitive(&name, prim, loaded, &model.buffers, cpu_meshes, cpu_materials) {
                Ok(_) => (),
                Err(e) => {
                    proof {
                        let rs = loaded.resources@;
                        let bufs = model.buffers@;
                        let st1 = prim_step(rs, bufs, name@, mesh.primitives@[pi as int], cur);
                        assert(walk_prims(rs, bufs, name@, mesh.primitives@, pi as int, cur)
                            == walk_prims(rs, bufs, name@, mesh.primitives@, pi as int + 1, st1));
                        lemma_walk_prims_err(rs, bufs, name@, mesh.primitives@, pi as int + 1, st1);
                        assert(walk_prims(rs, bufs, name@, mesh.primitives@, 0, st0) =~~= st1);
                        assert(walk_prims(rs, bufs, name@, mesh.primitives@, 0, st0) == st1);
                        assert(node.mesh is Some && node.mesh->0 == *mesh);
                        assert(walk_prims(rs, bufs, mesh_name_of(*mesh), (*mesh).primitives@, 0, st0)
                            == st1);
                        assert(walk_children(
                            model.nodes@,
                            rs,
                            bufs,
                            node.children@,
                            0,
                            depth as int - 1,
                            st1,
                        ) == st1);
                        assert(walk_node(
                            model.nodes@,
                            rs,
                            bufs,
                            node_index as int,
                            depth as int,
                            st0,
                        ) == st1);
                    }
                    return Err(e);
                },
            }
            pi = pi + 1;
        }
    }
    let n_children = node.children.len();
    let mut ci: usize = 0;
    while ci < n_children
        invariant
            ci <= n_children,
            n_children == node.children@.len(),
            depth >= 1,
            node == &model.nodes@[node_index as int],
            node_index < model.nodes@.len(),
            walk_children(
                model.nodes@,
                loaded.resources@,
                model.buffers@,
                node.children@,
                ci as int,
                depth as int - 1,
                Extraction {
                    meshes: meshes_view(cpu_meshes@),
                    mats: mats_view(cpu_materials@),
                    err: None,
                },
            ) =~~= walk_node(
                model.nodes@,
                loaded.resources@,
                model.buffers@,
                node_index as int,
                depth as int,
                st0,
            ),
        decreases n_children - ci,
    {
        let child = node.children[ci];
        let ghost cur = Extraction {
            meshes: meshes_view(cpu_meshes@),
            mats: mats_view(cpu_materials@),
            err: None,
        };
        match parse_tree(child, loaded, model, cpu_meshes, cpu_materials, depth - 1) {
            Ok(_) => (),
            Err(e) => {
                proof {
                    let rs = loaded.resources@;
                    let bufs = model.buffers@;
                    let w_child = walk_node(
                        model.nodes@,
                        rs,
                        bufs,
                        node.children@[ci as int] as int,
                        depth as int - 1,
                        cur,
                    );
                    assert(walk_children(
                        model.nodes@,
                        rs,
                        bufs,
                        node.children@,
                        ci as int,
                        depth as int - 1,
                        cur,
                    ) == walk_children(
                        model.nodes@,
                        rs,
                        bufs,
                        node.children@,
                        ci as int + 1,
                        depth as int - 1,
                        w_child,
                    ));
                    assert(walk_children(
                        model.nodes@,
                        rs,
                        bufs,
                        node.children@,
                        ci as int + 1,
                        depth as int - 1,
                        w_child,
                    ) == w_child);
                }
                return Err(e);
            },
        }
        ci = ci + 1;
    }
    Ok(())
}

/// The scenes of a document folded into an extraction, each scene's root
/// nodes left to right.
pub open spec fn walk_scenes(
    nodes: Seq<GltfNode>,
    rs: Seq<(String, Vec<u8>)>,
    buffers: Seq<Vec<u8>>,
    scenes: Seq<Vec<usize>>,
    si: int,
    st: Extraction,
) -> Extraction
    decreases scenes.len() - si,
{
    if st.err is Some || si < 0 || si >= scenes.len() {
        st
    } else {
        walk_scenes(
            nodes,
            rs,
            buffers,
            scenes,
            si + 1,
            walk_children(
                nodes,
                rs,
                buffers,
                scenes[si]@,
                0,
                MAX_TREE_DEPTH as int,
                st,
            ),
        )
    }
}

/// The first document stored under a name, if any, by position.
pub open spec fn lookup_model_from(ms: Seq<(String, GltfModel)>, key: Seq<char>, i: int) -> Option<
    GltfModel,
>
    decreases ms.len() - i,
{
    if i < 0 || i >= ms.len() {
        None
    } else if ms[i].0@ == key {
        Some(ms[i].1)
    } else {
        lookup_model_from(ms, key, i + 1)
    }
}

/// The first document stored under a name, if any.
pub open spec fn lookup_model(ms: Seq<(String, GltfModel)>, key: Seq<char>) -> Option<GltfModel> {
    lookup_model_from(ms, key, 0)
}

/// The full extraction of a stored document: every scene walked in
/// order, starting from empty descriptor lists.
pub open spec fn gltf_extraction(m: GltfModel, rs: Seq<(String, Vec<u8>)>) -> Extraction {
    walk_scenes(
        m.nodes@,
        rs,
        m.buffers@,
        m.scenes@,
        0,
        Extraction { meshes: Seq::empty(), mats: Seq::empty(), err: None },
    )
}

impl Loaded {
    /// Extracts the meshes and materials of the document stored under
    /// `path`: one mesh descriptor per primitive with position data, in
    /// depth-first scene order, and one material descriptor per distinct
    /// material name, in order of first use.
    #[verifier::loop_isolation(false)]
    pub fn gltf(&self, path: &str) -> (r: Result<(Vec<CPUMesh>, Vec<CPUMaterial>), IOError>)
        ensures
            match r {
                Ok(out) => (lookup_model(self.gltf_models@, path@) matches Some(m) && {
                    let w = gltf_extraction(m, self.resources@);
                    w.err is None && meshes_view(out.0@) =~~= w.meshes && mats_view(out.1@)
                        =~~= w.mats
                }),
                Err(e) => match lookup_model(self.gltf_models@, path@) {
                    None => e == IOError::ResourceNotFound,
                    Some(m) => gltf_extraction(m, self.resources@).err == Some(e),
                },
            },
    {
        let key = path.to_owned();
        let n = self.gltf_models.len();
        let mut i: usize = 0;
        let mut found: Option<&GltfModel> = None;
        while i < n
            invariant
                i <= n,
                n == self.gltf_models@.len(),
                key@ == path@,
                match found {
                    Some(m) => lookup_model(self.gltf_models@, path@) == Some(*m),
                    None => lookup_model(self.gltf_models@, path@) == lookup_model_from(
                        self.gltf_models@,
                        path@,
                        i as int,
                    ),
                },
            decreases n - i,
        {
            if found.is_none() && self.gltf_models[i].0 == key {
                found = Some(&self.gltf_models[i].1);
            }
            i = i + 1;
        }
        let model = match found {
            Some(m) => m,
            None => {
                return Err(IOError::ResourceNotFound);
            },
        };
        let mut cpu_meshes: Vec<CPUMesh> = Vec::new();
        let mut cpu_materials: Vec<CPUMaterial> = Vec::new();
        proof {
            assert(meshes_view(cpu_meshes@) =~~= Seq::<MeshView>::empty());
            assert(mats_view(cpu_materials@) =~~= Seq::<MatView>::empty());
        }
        let n_scenes = model.scenes.len();
        let mut si: usize = 0;
        while si < n_scenes
            invariant
                si <= n_scenes,
                n_scenes == model.scenes@.len(),
                walk_scenes(
                    model.nodes@,
                    self.resources@,
                    model.buffers@,
                    model.scenes@,
                    si as int,
                    Extraction {
                        meshes: meshes_view(cpu_meshes@),
                        mats: mats_view(cpu_materials@),
                        err: None,
                    },
                ) =~~= gltf_extraction(*model, self.resources@),
            decreases n_scenes - si,
        {
            let scene = &model.scenes[si];
            let n_roots = scene.len();
            let mut ri: usize = 0;
            while ri < n_roots
                invariant
                    ri <= n_roots,
                    si < model.scenes@.len(),
                    n_roots == scene@.len(),
                    scene == &model.scenes@[si as int],
                    walk_scenes(
                        model.nodes@,
                        self.resources@,
                        model.buffers@,
                        model.scenes@,
                        si as int + 1,
                        walk_children(
                            model.nodes@,
                            self.resources@,
                            model.buffers@,
                            scene@,
                            ri as int,
                            MAX_TREE_DEPTH as int,
                            Extraction {
                                meshes: meshes_view(cpu_meshes@),
                                mats: mats_view(cpu_materials@),
                                err: None,
                            },
                        ),
                    ) =~~= gltf_extraction(*model, self.resources@),
                decreases n_roots - ri,
            {
                let root = scene[ri];
                let ghost cur = Extraction {
                    meshes: meshes_view(cpu_meshes@),
                    mats: mats_view(cpu_materials@),
                    err: None,
                };
                match parse_tree(
                    root,
                    self,
                    model,
                    &mut cpu_meshes,
                    &mut cpu_materials,
                    MAX_TREE_DEPTH,
                ) {
                    Ok(_) => (),
                    Err(e) => {
                        proof {
                            let rs = self.resources@;
                            let bufs = model.buffers@;
                            let w_root = walk_node(
                                model.nodes@,
                                rs,
                                bufs,
                                scene@[ri as int] as int,
                                MAX_TREE_DEPTH as int,
                                cur,
                            );
                            assert(walk_children(
                                model.nodes@,
                                rs,
                                bufs,
                                scene@,
                                ri as int,
                                MAX_TREE_DEPTH as int,
                                cur,
                            ) == walk_children(
                                model.nodes@,
                                rs,
                                bufs,
                                scene@,
                                ri as int + 1,
                                MAX_TREE_DEPTH as int,
                                w_root,
                            ));
                            assert(walk_children(
                                model.nodes@,
                                rs,
                                bufs,
                                scene@,
                                ri as int + 1,
                                MAX_TREE_DEPTH as int,
                                w_root,
                            ) == w_root);
                            assert(walk_scenes(
                                model.nodes@,
                                rs,
                                bufs,
                                model.scenes@,
                                si as int + 1,
                                w_root,
                            ) == w_root);
                        }
                        return Err(e);
                    },
                }
                ri = ri + 1;
            }
            si = si + 1;
        }
        Ok((cpu_meshes, cpu_materials))
    }
}


/// Material names are pairwise distinct.
pub open spec fn names_unique(mats: Seq<MatView>) -> bool {
    forall|i: int, j: int|
        0 <= i < j < mats.len() ==> (#[trigger] mats[i]).name != (#[trigger] mats[j]).name
}

proof fn lemma_prim_step_unique(
    rs: Seq<(String, Vec<u8>)>,
    buffers: Seq<Vec<u8>>,
    name: Seq<char>,
    p: GltfPrimitive,
    st: Extraction,
)
    requires
        names_unique(st.mats),
    ensures
        names_unique(prim_step(rs, buffers, name, p, st).mats),
{
    let r = prim_step(rs, buffers, name, p, st);
    if st.err is None && p.positions is Some && !has_name(st.mats, mat_name_of(p.material)) {
        match resolve_mat(rs, buffers, p.material) {
            Err(_) => {},
            Ok(mv) => {
                assert(mv.name == mat_name_of(p.material));
                assert forall|i: int, j: int| 0 <= i < j < r.mats.len() implies (
                #[trigger] r.mats[i]).name != (#[trigger] r.mats[j]).name by {
                    if j == r.mats.len() - 1 {
                        assert(r.mats[i] == st.mats[i]);
                        assert(!(0 <= i < st.mats.len() && st.mats[i].name == mat_name_of(
                            p.material,
                        )));
                    }
                }
            },
        }
    }
}

proof fn lemma_walk_prims_unique(
    rs: Seq<(String, Vec<u8>)>,
    buffers: Seq<Vec<u8>>,
    name: Seq<char>,
    prims: Seq<GltfPrimitive>,
    i: int,
    st: Extraction,
)
    requires
        names_unique(st.mats),
    ensures
        names_unique(walk_prims(rs, buffers, name, prims, i, st).mats),
    decreases prims.len() - i,
{
    if 0 <= i < prims.len() {
        lemma_prim_step_unique(rs, buffers, name, prims[i], st);
        lemma_walk_prims_unique(rs, buffers, name, prims, i + 1, prim_step(rs, buffers, name, prims[i], st));
    }
}

proof fn lemma_walk_node_unique(
    nodes: Seq<GltfNode>,
    rs: Seq<(String, Vec<u8>)>,
    buffers: Seq<Vec<u8>>,
    idx: int,
    depth: int,
    st: Extraction,
)
    requires
        names_unique(st.mats),
    ensures
        names_unique(walk_node(nodes, rs, buffers, idx, depth, st).mats),
    decreases depth, 0int, 0int,
{
    if st.err is None && depth > 0 && 0 <= idx < nodes.len() {
        let st1 = match nodes[idx].mesh {
            None => st,
            Some(m) => walk_prims(rs, buffers, mesh_name_of(m), m.primitives@, 0, st),
        };
        match nodes[idx].mesh {
            None => {},
            Some(m) => {
                lemma_walk_prims_unique(rs, buffers, mesh_name_of(m), m.primitives@, 0, st);
            },
        }
        lemma_walk_children_unique(nodes, rs, buffers, nodes[idx].children@, 0, depth - 1, st1);
    }
}

proof fn lemma_walk_children_unique(
    nodes: Seq<GltfNode>,
    rs: Seq<(String, Vec<u8>)>,
    buffers: Seq<Vec<u8>>,
    children: Seq<usize>,
    i: int,
    depth: int,
    st: Extraction,
)
    requires
        names_unique(st.mats),
    ensures
        names_unique(walk_children(nodes, rs, buffers, children, i, depth, st).mats),
    decreases depth, 1int, children.len() - i,
{
    if !(st.err is Some) && 0 <= i < children.len() {
        lemma_walk_node_unique(nodes, rs, buffers, children[i] as int, depth, st);
        lemma_walk_children_unique(
            nodes,
            rs,
            buffers,
            children,
            i + 1,
            depth,
            walk_node(nodes, rs, buffers, children[i] as int, depth, st),
        );
    }
}

proof fn lemma_walk_scenes_unique(
    nodes: Seq<GltfNode>,
    rs: Seq<(String, Vec<u8>)>,
    buffers: Seq<Vec<u8>>,
    scenes: Seq<Vec<usize>>,
    si: int,
    st: Extraction,
)
    requires
        names_unique(st.mats),
    ensures
        names_unique(walk_scenes(nodes, rs, buffers, scenes, si, st).mats),
    decreases scenes.len() - si,
{
    if !(st.err is Some) && 0 <= si < scenes.len() {
        lemma_walk_children_unique(nodes, rs, buffers, scenes[si]@, 0, MAX_TREE_DEPTH as int, st);
        lemma_walk_scenes_unique(
            nodes,
            rs,
            buffers,
            scenes,
            si + 1,
            walk_children(nodes, rs, buffers, scenes[si]@, 0, MAX_TREE_DEPTH as int, st),
        );
    }
}

/// Law: extraction deduplicates materials by name.  However many
/// primitives reference the same material name, the extracted material
/// descriptors carry pairwise distinct names, so each name yields
/// exactly one descriptor.
pub proof fn lemma_gltf_materials_unique(m: GltfModel, rs: Seq<(String, Vec<u8>)>)
    ensures
        names_unique(gltf_extraction(m, rs).mats),
{
    lemma_walk_scenes_unique(
        m.nodes@,
        rs,
        m.buffers@,
        m.scenes@,
        0,
        Extraction { meshes: Seq::empty(), mats: Seq::empty(), err: None },
    );
}

} // verus!
