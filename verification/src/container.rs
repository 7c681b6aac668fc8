//! The binary glTF container: reading it, pointing its images at a texture, and
//! framing it again with a length that fits the format.

use vstd::prelude::*;
use vstd::string::*;
use vstd::utf8::encode_utf8;
use crate::paths;
use crate::paths::{file_name_of, relative_path, with_file_name_of};

verus! {

/// The least multiple of four that is not below `n`.
pub open spec fn padded_len(n: int) -> int {
    ((n + 3) / 4) * 4
}

/// Padding reaches the next multiple of four and goes no further: the padded length
/// is a multiple of four, is not below the length, and exceeds it by less than four.
pub proof fn lemma_padded_len(n: int)
    requires
        0 <= n,
    ensures
        padded_len(n) % 4 == 0,
        n <= padded_len(n) < n + 4,
{
}

/// Rounds `n` up to the next multiple of four.
pub fn align_to_multiple_of_four(n: &mut usize)
    requires
        *old(n) + 3 <= usize::MAX,
    ensures
        *final(n) == padded_len(*old(n) as int),
        *final(n) % 4 == 0,
        *old(n) <= *final(n) < *old(n) + 4,
{
    let v: usize = *n;
    assert(((v + 3) as usize) & !3usize == (((v + 3) as usize) / 4) * 4) by (bit_vector);
    *n = (v + 3) & !3;
}

/// The header of a container.
#[derive(Debug, Clone, Copy, PartialEq, Eq)]
pub struct GlbHeader {
    pub magic: [u8; 4],
    pub version: u32,
    /// The declared length: that of the padded metadata and of the binary blob.
    pub length: u32,
}

/// A container in memory: header, metadata chunk and binary blob.
#[derive(Debug, PartialEq, Eq)]
pub struct Glb {
    pub header: GlbHeader,
    /// The metadata, as compact JSON text.
    pub json: Vec<u8>,
    /// The binary blob; empty where the container has none.
    pub bin: Vec<u8>,
}

/// The length that a container declares for this metadata and this blob.
pub open spec fn declared_length(json_len: nat, bin_len: nat) -> int {
    padded_len(json_len as int) + bin_len
}

/// The length of the file of a container: twelve bytes of header, eight before
/// each of the two chunks, and the chunks, each padded.
pub open spec fn file_length(json_len: nat, bin_len: nat) -> int {
    28 + padded_len(json_len as int) + padded_len(bin_len as int)
}

/// The length that a container declares, where it fits in 32 bits.
pub fn checked_declared_length(json_len: usize, bin_len: usize) -> (length: Result<u32, RebindError>)
    ensures
        match length {
            Ok(n) => n == declared_length(json_len as nat, bin_len as nat),
            Err(e) => e == RebindError::TooLarge && declared_length(json_len as nat, bin_len as nat)
                > u32::MAX,
        },
{
    if json_len > 0xFFFF_FFFC || bin_len > 0xFFFF_FFFF {
        return Err(RebindError::TooLarge);
    }
    let mut json_offset: usize = json_len;
    align_to_multiple_of_four(&mut json_offset);
    let total: u64 = json_offset as u64 + bin_len as u64;
    if total > 0xFFFF_FFFF {
        return Err(RebindError::TooLarge);
    }
    Ok(total as u32)
}

impl Glb {
    /// The header says `glTF`, version 2, and the length that its chunks call for.
    pub open spec fn well_formed(&self) -> bool {
        &&& self.header.magic@ == seq![0x67u8, 0x6Cu8, 0x54u8, 0x46u8]
        &&& self.header.version == 2
        &&& self.header.length == declared_length(self.json@.len(), self.bin@.len())
    }

    /// Frames metadata and blob as a container. The declared length has to fit in
    /// 32 bits; where it does not, there is no container.
    pub fn frame(json: Vec<u8>, bin: Vec<u8>) -> (framed: Result<Glb, RebindError>)
        ensures
            framed is Ok <==> declared_length(json@.len(), bin@.len()) <= u32::MAX,
            framed matches Ok(glb) ==> glb.well_formed() && glb.json == json && glb.bin == bin,
            framed matches Err(e) ==> e == RebindError::TooLarge,
    {
        let length = match checked_declared_length(json.len(), bin.len()) {
            Ok(length) => length,
            Err(e) => {
                return Err(e);
            },
        };
        let header = GlbHeader { magic: [0x67u8, 0x6Cu8, 0x54u8, 0x46u8], version: 2, length };
        assert(header.magic@ =~= seq![0x67u8, 0x6Cu8, 0x54u8, 0x46u8]);
        Ok(Glb { header, json, bin })
    }
}

/// Why a container could not be rebound.
#[derive(Debug, Clone, Copy, PartialEq, Eq)]
pub enum RebindError {
    /// The header declares a length below that of the header itself.
    Malformed,
    /// The container could not be read.
    Unreadable,
    /// The document does not meet the rules of the format.
    Invalid,
    /// The document could not be written as text.
    Unwritable,
    /// The length of the file does not fit in 32 bits.
    TooLarge,
    /// The path of the texture does not end in a file name.
    NoTextureName,
}

/// The document of a container, as `gltf` holds it. Nothing of its inside is seen
/// here but through the functions below.
#[verifier::external_type_specification]
#[verifier::external_body]
pub struct ExRoot(gltf::json::Root);

/// The error of `gltf`; it is only passed on.
#[verifier::external_type_specification]
#[verifier::external_body]
pub struct ExGltfError(gltf::Error);

/// The error of the JSON writer that `gltf` uses; it is only passed on.
#[verifier::external_type_specification]
#[verifier::external_body]
pub struct ExJsonError(gltf::json::Error);

/// The URIs of the image descriptors of a document, in the document's order.
pub uninterp spec fn image_uris(root: gltf::json::Root) -> Seq<Option<Seq<char>>>;

/// All that a document holds apart from the URIs of its images: the document as
/// `Debug` renders it once those URIs are taken out.
pub uninterp spec fn other_content(root: gltf::json::Root) -> Seq<char>;

/// How many accessors a document has.
pub uninterp spec fn accessor_total(root: gltf::json::Root) -> nat;

/// For each mesh of a document and each of its primitives, in the document's
/// order, the index of the accessor that holds its positions, if it names one.
pub uninterp spec fn position_indices(root: gltf::json::Root) -> Seq<Seq<Option<nat>>>;

/// What reading a container yields.
pub struct Loaded {
    /// The URIs of the images of its document.
    pub uris: Seq<Option<Seq<char>>>,
    /// The rest of its document.
    pub content: Seq<char>,
    /// How many accessors its document has.
    pub accessors: nat,
    /// The accessors that the primitives of its meshes take their positions from.
    pub positions: Seq<Seq<Option<nat>>>,
    /// Its binary blob, if it has one.
    pub blob: Option<Seq<u8>>,
}

/// What reading these bytes as a container yields; nothing where they cannot be
/// read.
pub uninterp spec fn loaded(bytes: Seq<u8>) -> Option<Loaded>;

/// Whether a document with this content and these image URIs is valid.
pub uninterp spec fn validates(content: Seq<char>, uris: Seq<Option<Seq<char>>>) -> bool;

/// The compact JSON text of a document with this content and these image URIs,
/// where it can be written.
pub uninterp spec fn written(content: Seq<char>, uris: Seq<Option<Seq<char>>>) -> Option<
    Seq<char>,
>;

/// An index that is named is that of an accessor.
pub open spec fn fits(index: Option<nat>, accessors: nat) -> bool {
    match index {
        Some(i) => i < accessors,
        None => true,
    }
}

/// Every primitive that names an accessor for its positions names one that the
/// document has.
pub open spec fn positions_fit(positions: Seq<Seq<Option<nat>>>, accessors: nat) -> bool {
    forall|m: int, p: int|
        0 <= m < positions.len() && 0 <= p < positions[m].len() ==> fits(
            #[trigger] positions[m][p],
            accessors,
        )
}

/// A number of 32 bits, low byte first.
pub open spec fn le_bytes(n: int) -> Seq<u8> {
    seq![
        (n % 0x100) as u8,
        (n / 0x100 % 0x100) as u8,
        (n / 0x1_0000 % 0x100) as u8,
        (n / 0x100_0000 % 0x100) as u8,
    ]
}

/// One chunk of a container file: the padded length of its data, its kind, its
/// data, and the fill that brings the data to the padded length.
#[verifier::opaque]
pub open spec fn chunk(kind: Seq<u8>, data: Seq<u8>, fill: u8) -> Seq<u8> {
    le_bytes(padded_len(data.len() as int)) + kind + data + Seq::new(
        (padded_len(data.len() as int) - data.len()) as nat,
        |i: int| fill,
    )
}

/// The bytes of the container file for a metadata chunk and a binary blob: the
/// letters `glTF`, version 2, the length of the whole file, the chunk `JSON`
/// filled up with spaces, and the chunk `BIN` filled up with zeros.
#[verifier::opaque]
pub open spec fn glb_bytes(json: Seq<u8>, bin: Seq<u8>) -> Seq<u8> {
    let body = chunk(seq![0x4Au8, 0x53u8, 0x4Fu8, 0x4Eu8], json, 0x20u8) + chunk(
        seq![0x42u8, 0x49u8, 0x4Eu8, 0x00u8],
        bin,
        0x00u8,
    );
    seq![0x67u8, 0x6Cu8, 0x54u8, 0x46u8] + le_bytes(2) + le_bytes(12 + body.len() as int) + body
}

/// A chunk is as long as its eight leading bytes and its padded data.
pub proof fn lemma_chunk_len(kind: Seq<u8>, data: Seq<u8>, fill: u8)
    requires
        kind.len() == 4,
    ensures
        chunk(kind, data, fill).len() == 8 + padded_len(data.len() as int),
{
    reveal(chunk);
    lemma_padded_len(data.len() as int);
}

/// The file is as long as [`file_length`] says, a multiple of four.
pub proof fn lemma_glb_bytes_len(json: Seq<u8>, bin: Seq<u8>)
    ensures
        glb_bytes(json, bin).len() == file_length(json.len(), bin.len()),
        glb_bytes(json, bin).len() % 4 == 0,
{
    reveal(glb_bytes);
    let json_chunk = chunk(seq![0x4Au8, 0x53u8, 0x4Fu8, 0x4Eu8], json, 0x20u8);
    let bin_chunk = chunk(seq![0x42u8, 0x49u8, 0x4Eu8, 0x00u8], bin, 0x00u8);
    lemma_chunk_len(seq![0x4Au8, 0x53u8, 0x4Fu8, 0x4Eu8], json, 0x20u8);
    lemma_chunk_len(seq![0x42u8, 0x49u8, 0x4Eu8, 0x00u8], bin, 0x00u8);
    lemma_padded_len(json.len() as int);
    lemma_padded_len(bin.len() as int);
    assert((json_chunk + bin_chunk).len() == json_chunk.len() + bin_chunk.len());
}

/// The unsigned 32-bit number that stands, low byte first, at `at`.
pub open spec fn le_u32(bytes: Seq<u8>, at: int) -> int {
    bytes[at] + 0x100 * bytes[at + 1] + 0x1_0000 * bytes[at + 2] + 0x100_0000 * bytes[at + 3]
}

/// The bytes begin with the four letters `glTF`.
pub open spec fn has_magic(bytes: Seq<u8>) -> bool {
    bytes.len() >= 4 && bytes[0] == 0x67 && bytes[1] == 0x6C && bytes[2] == 0x54 && bytes[3]
        == 0x46
}

/// A complete binary header declares a length that covers at least the header.
/// Anything that is no binary container, or breaks off within the header, counts
/// as sound: it is left to the reader to refuse.
pub open spec fn header_is_sound(bytes: Seq<u8>) -> bool {
    has_magic(bytes) && bytes.len() >= 12 ==> le_u32(bytes, 8) >= 12
}

/// Checks the declared length of a binary header.
pub fn check_header(bytes: &[u8]) -> (sound: bool)
    ensures
        sound == header_is_sound(bytes@),
{
    if bytes.len() >= 12 && bytes[0] == 0x67 && bytes[1] == 0x6C && bytes[2] == 0x54 && bytes[3]
        == 0x46 {
        let b0 = bytes[8] as u32;
        let b1 = bytes[9] as u32;
        let b2 = bytes[10] as u32;
        let b3 = bytes[11] as u32;
        b0 + 0x100 * b1 + 0x1_0000 * b2 + 0x100_0000 * b3 >= 12
    } else {
        true
    }
}

/// `Gltf::from_reader_without_validation` of `gltf`, on the bytes of a file: reads
/// a container, binary or plain JSON. It subtracts the header's twelve bytes from
/// the declared length, hence the demand on the header. Of the result, the
/// document and the blob are handed on as they are; whether there is a result, and
/// what it holds, depends on the bytes alone.
#[verifier::external_body]
fn load(bytes: &[u8]) -> (read: Result<(gltf::json::Root, Option<Vec<u8>>), gltf::Error>)
    requires
        header_is_sound(bytes@),
    ensures
        match read {
            Ok((root, blob)) => loaded(bytes@) == Some(
                Loaded {
                    uris: image_uris(root),
                    content: other_content(root),
                    accessors: accessor_total(root),
                    positions: position_indices(root),
                    blob: blob.deep_view(),
                },
            ),
            Err(_) => loaded(bytes@) is None,
        },
{
    match gltf::Gltf::from_reader_without_validation(std::io::Cursor::new(bytes)) {
        Ok(gltf) => Ok((gltf.document.into_json(), gltf.blob)),
        Err(e) => Err(e),
    }
}

/// The length of the `accessors` array of a `gltf::json::Root`.
#[verifier::external_body]
fn accessor_count(root: &gltf::json::Root) -> (count: usize)
    ensures
        count == accessor_total(*root),
{
    root.accessors.len()
}

/// The length of the `meshes` array of a `gltf::json::Root`.
#[verifier::external_body]
fn mesh_count(root: &gltf::json::Root) -> (count: usize)
    ensures
        count == position_indices(*root).len(),
{
    root.meshes.len()
}

/// The length of the `primitives` array of a mesh of a `gltf::json::Root`.
#[verifier::external_body]
fn primitive_count(root: &gltf::json::Root, mesh: usize) -> (count: usize)
    requires
        mesh < position_indices(*root).len(),
    ensures
        count == position_indices(*root)[mesh as int].len(),
{
    root.meshes[mesh].primitives.len()
}

/// The entry `POSITION` of the `attributes` of a primitive of a
/// `gltf::json::Root`: the index of an accessor, if there is such an entry.
#[verifier::external_body]
fn position_index(root: &gltf::json::Root, mesh: usize, primitive: usize) -> (index: Option<usize>)
    requires
        mesh < position_indices(*root).len(),
        primitive < position_indices(*root)[mesh as int].len(),
    ensures
        match index {
            Some(i) => position_indices(*root)[mesh as int][primitive as int] == Some(i as nat),
            None => position_indices(*root)[mesh as int][primitive as int] is None,
        },
{
    let positions = gltf::json::validation::Checked::Valid(gltf::json::mesh::Semantic::Positions);
    match root.meshes[mesh].primitives[primitive].attributes.get(&positions) {
        Some(index) => Some(index.value()),
        None => None,
    }
}

/// The length of the `images` array of a `gltf::json::Root`.
#[verifier::external_body]
fn image_count(root: &gltf::json::Root) -> (count: usize)
    ensures
        count == image_uris(*root).len(),
{
    root.images.len()
}

/// Assigns the `uri` field of the `i`-th image of a `gltf::json::Root`; the other
/// images keep theirs, and the rest of the document stays as it is.
#[verifier::external_body]
fn set_image_uri(root: &mut gltf::json::Root, i: usize, uri: &str)
    requires
        i < image_uris(*old(root)).len(),
    ensures
        image_uris(*final(root)) == image_uris(*old(root)).update(i as int, Some(uri@)),
        other_content(*final(root)) == other_content(*old(root)),
        accessor_total(*final(root)) == accessor_total(*old(root)),
        position_indices(*final(root)) == position_indices(*old(root)),
{
    root.images[i].uri = Some(uri.to_string());
}

/// `Document::from_json` of `gltf`, which validates a document; only whether it
/// passed is kept. That depends on the document alone. For a primitive that names
/// an accessor for its positions, the validation looks that accessor up without
/// asking whether the document has it, hence the demand.
#[verifier::external_body]
fn passes_validation(root: &gltf::json::Root) -> (valid: bool)
    requires
        positions_fit(position_indices(*root), accessor_total(*root)),
    ensures
        valid == validates(other_content(*root), image_uris(*root)),
{
    gltf::Document::from_json(root.clone()).is_ok()
}

/// `gltf::json::serialize::to_string`: the document as compact JSON text. Whether
/// it can be written, and the text, depend on the document alone.
#[verifier::external_body]
fn to_json(root: &gltf::json::Root) -> (text: Result<String, gltf::json::Error>)
    ensures
        match text {
            Ok(t) => written(other_content(*root), image_uris(*root)) == Some(t@),
            Err(_) => written(other_content(*root), image_uris(*root)) is None,
        },
{
    gltf::json::serialize::to_string(root)
}

/// `Glb::to_vec` of `gltf`: the bytes of the container file. It lays out the chunks
/// by their own lengths and does not read the header it is given; writing into
/// memory, it does not fail. The length demanded is that at which the length of
/// the file fits its field of 32 bits; the arithmetic then stays within `usize`.
#[verifier::external_body]
fn encode(header: &GlbHeader, json: &[u8], bin: &[u8]) -> (bytes: Result<Vec<u8>, gltf::Error>)
    requires
        file_length(json@.len(), bin@.len()) <= u32::MAX,
    ensures
        bytes is Ok,
        bytes matches Ok(b) ==> b@ == glb_bytes(json@, bin@),
{
    let glb = gltf::binary::Glb {
        header: gltf::binary::Header {
            magic: header.magic,
            version: header.version,
            length: header.length,
        },
        json: std::borrow::Cow::Borrowed(json),
        bin: Some(std::borrow::Cow::Borrowed(bin)),
    };
    glb.to_vec()
}

/// Whether the primitives of one mesh name accessors that the document has.
fn mesh_positions_fit(root: &gltf::json::Root, mesh: usize, accessors: usize) -> (fit: bool)
    requires
        mesh < position_indices(*root).len(),
    ensures
        fit == forall|p: int|
            0 <= p < position_indices(*root)[mesh as int].len() ==> fits(
                #[trigger] position_indices(*root)[mesh as int][p],
                accessors as nat,
            ),
{
    let count = primitive_count(root, mesh);
    let mut p: usize = 0;
    while p < count
        invariant
            p <= count,
            mesh < position_indices(*root).len(),
            count == position_indices(*root)[mesh as int].len(),
            forall|q: int|
                0 <= q < p ==> fits(
                    #[trigger] position_indices(*root)[mesh as int][q],
                    accessors as nat,
                ),
        decreases count - p,
    {
        match position_index(root, mesh, p) {
            Some(i) => {
                if i >= accessors {
                    assert(!fits(position_indices(*root)[mesh as int][p as int], accessors as nat));
                    return false;
                }
            },
            None => {},
        }
        p += 1;
    }
    true
}

/// Whether every primitive that names an accessor for its positions names one
/// that the document has.
pub fn check_positions(root: &gltf::json::Root) -> (fit: bool)
    ensures
        fit == positions_fit(position_indices(*root), accessor_total(*root)),
{
    let accessors = accessor_count(root);
    let meshes = mesh_count(root);
    let mut m: usize = 0;
    while m < meshes
        invariant
            m <= meshes,
            meshes == position_indices(*root).len(),
            accessors == accessor_total(*root),
            forall|n: int, p: int|
                0 <= n < m && 0 <= p < position_indices(*root)[n].len() ==> fits(
                    #[trigger] position_indices(*root)[n][p],
                    accessors as nat,
                ),
        decreases meshes - m,
    {
        if !mesh_positions_fit(root, m, accessors) {
            return false;
        }
        m += 1;
    }
    true
}

/// `count` image descriptors that all point at `uri`.
pub open spec fn rebound_uris(count: nat, uri: Seq<char>) -> Seq<Option<Seq<char>>> {
    Seq::new(count, |i: int| Some(uri))
}

/// Binding again to the same texture changes nothing.
pub proof fn lemma_rebound_uris_idempotent(uris: Seq<Option<Seq<char>>>, uri: Seq<char>)
    ensures
        rebound_uris(rebound_uris(uris.len(), uri).len(), uri) == rebound_uris(uris.len(), uri),
{
}

/// Points every image descriptor of the document at `uri`, and says how many there
/// are. The rest of the document stays as it is.
pub fn set_image_uris(root: &mut gltf::json::Root, uri: &str) -> (count: usize)
    ensures
        count == image_uris(*old(root)).len(),
        image_uris(*final(root)) == rebound_uris(count as nat, uri@),
        other_content(*final(root)) == other_content(*old(root)),
        accessor_total(*final(root)) == accessor_total(*old(root)),
        position_indices(*final(root)) == position_indices(*old(root)),
{
    let count = image_count(root);
    let mut i: usize = 0;
    while i < count
        invariant
            i <= count,
            count == image_uris(*root).len(),
            count == image_uris(*old(root)).len(),
            other_content(*root) == other_content(*old(root)),
            accessor_total(*root) == accessor_total(*old(root)),
            position_indices(*root) == position_indices(*old(root)),
            forall|j: int| 0 <= j < i ==> image_uris(*root)[j] == Some(uri@),
        decreases count - i,
    {
        set_image_uri(root, i, uri);
        i += 1;
    }
    assert(image_uris(*root) =~= rebound_uris(count as nat, uri@));
    count
}

/// The blob that is carried over from a container: the one it has, or an empty one.
pub open spec fn blob_or_empty(blob: Option<Seq<u8>>) -> Seq<u8> {
    match blob {
        Some(bytes) => bytes,
        None => Seq::empty(),
    }
}

/// The chunks of a container after rebinding.
pub struct ReboundParts {
    pub json: Seq<u8>,
    pub bin: Seq<u8>,
    /// How many images the document has.
    pub images: nat,
}

/// What rebinding a container to `uri` gives.
///
/// The container is read; its document keeps all it holds but the URIs of its
/// images, which all become `uri`; the document is written as compact text; the
/// blob is carried over. The container is refused when its header is unsound,
/// when it cannot be read, when the document is not valid (a primitive takes
/// its positions from an accessor that is not there, or the document with the new
/// URIs fails the rules of the format), when the document cannot be written, and
/// when the file would not fit the 32 bits of its length field.
pub open spec fn rebound(container: Seq<u8>, uri: Seq<char>) -> Result<ReboundParts, RebindError> {
    if !header_is_sound(container) {
        Err(RebindError::Malformed)
    } else {
        match loaded(container) {
            None => Err(RebindError::Unreadable),
            Some(read) => {
                let uris = rebound_uris(read.uris.len(), uri);
                if !positions_fit(read.positions, read.accessors) || !validates(
                    read.content,
                    uris,
                ) {
                    Err(RebindError::Invalid)
                } else {
                    match written(read.content, uris) {
                        None => Err(RebindError::Unwritable),
                        Some(text) => {
                            let json = encode_utf8(text);
                            let bin = blob_or_empty(read.blob);
                            if file_length(json.len(), bin.len()) > u32::MAX {
                                Err(RebindError::TooLarge)
                            } else {
                                Ok(ReboundParts { json, bin, images: read.uris.len() })
                            }
                        },
                    }
                }
            },
        }
    }
}

/// A container after its images were pointed at a texture.
#[derive(Debug, PartialEq, Eq)]
pub struct Rebound {
    pub glb: Glb,
    /// The bytes of the container file.
    pub encoded: Vec<u8>,
    /// How many image descriptors were rewritten.
    pub images: usize,
}

/// `r` is what rebinding `container` to `uri` gives: its chunks and its count of
/// images are those of [`rebound`], its header declares the padded length of the
/// metadata plus the length of the blob, and its file bytes are those of
/// [`glb_bytes`].
pub open spec fn rebinds(container: Seq<u8>, uri: Seq<char>, r: Rebound) -> bool {
    &&& rebound(container, uri) == Ok::<ReboundParts, RebindError>(
        ReboundParts { json: r.glb.json@, bin: r.glb.bin@, images: r.images as nat },
    )
    &&& r.glb.well_formed()
    &&& r.encoded@ == glb_bytes(r.glb.json@, r.glb.bin@)
}

/// Whether a file with this metadata and this blob fits the 32 bits of its length
/// field.
pub fn file_fits(json_len: usize, bin_len: usize) -> (fits: bool)
    ensures
        fits == (file_length(json_len as nat, bin_len as nat) <= u32::MAX),
{
    if json_len > 0xFFFF_FFFC || bin_len > 0xFFFF_FFFC {
        return false;
    }
    let mut json_padded: usize = json_len;
    align_to_multiple_of_four(&mut json_padded);
    let mut bin_padded: usize = bin_len;
    align_to_multiple_of_four(&mut bin_padded);
    28 + json_padded as u64 + bin_padded as u64 <= 0xFFFF_FFFF
}

/// Rewrites a container so that all its images point at `uri`, as [`rebound`]
/// describes.
pub fn rebind(container: &[u8], uri: &str) -> (outcome: Result<Rebound, RebindError>)
    ensures
        match outcome {
            Ok(r) => rebinds(container@, uri@, r),
            Err(e) => rebound(container@, uri@) == Err::<ReboundParts, RebindError>(e),
        },
{
    if !check_header(container) {
        return Err(RebindError::Malformed);
    }
    let (mut root, blob) = match load(container) {
        Ok(read) => read,
        Err(_) => {
            return Err(RebindError::Unreadable);
        },
    };
    if !check_positions(&root) {
        return Err(RebindError::Invalid);
    }
    let images = set_image_uris(&mut root, uri);
    if !passes_validation(&root) {
        return Err(RebindError::Invalid);
    }
    let text = match to_json(&root) {
        Ok(text) => text,
        Err(_) => {
            return Err(RebindError::Unwritable);
        },
    };
    let json = text.as_str().as_bytes_vec();
    let bin = match blob {
        Some(bytes) => bytes,
        None => Vec::new(),
    };
    if !file_fits(json.len(), bin.len()) {
        return Err(RebindError::TooLarge);
    }
    proof {
        lemma_padded_len(json@.len() as int);
        lemma_padded_len(bin@.len() as int);
    }
    let ghost read = loaded(container@).unwrap();
    assert(read.uris.len() == images);
    assert(json@ == encode_utf8(written(read.content, rebound_uris(images as nat, uri@)).unwrap()));
    assert(bin@ == blob_or_empty(read.blob));
    let glb = match Glb::frame(json, bin) {
        Ok(glb) => glb,
        Err(e) => {
            return Err(e);
        },
    };
    let encoded = match encode(&glb.header, glb.json.as_slice(), glb.bin.as_slice()) {
        Ok(bytes) => bytes,
        Err(_) => {
            return Err(RebindError::Unwritable);
        },
    };
    Ok(Rebound { glb, encoded, images })
}

/// What is known of the name of a texture.
#[derive(Debug, PartialEq, Eq)]
pub enum TextureName {
    /// No path leads from the container to the texture.
    NoPath,
    /// A path leads there, but it ends in no name.
    Unnamed,
    Named(String),
}

/// The mathematical value of a [`TextureName`].
pub enum TextureNameView {
    NoPath,
    Unnamed,
    Named(Seq<char>),
}

impl View for TextureName {
    type V = TextureNameView;

    open spec fn view(&self) -> TextureNameView {
        match self {
            TextureName::NoPath => TextureNameView::NoPath,
            TextureName::Unnamed => TextureNameView::Unnamed,
            TextureName::Named(name) => TextureNameView::Named(name@),
        }
    }
}

/// Decides on the name of a texture from what is known of the path that leads to
/// it: the path's final component, where there is a path and it has one.
pub fn uri_of(final_component: Option<Option<String>>) -> (uri: TextureName)
    ensures
        uri == match final_component {
            None => TextureName::NoPath,
            Some(None) => TextureName::Unnamed,
            Some(Some(name)) => TextureName::Named(name),
        },
{
    match final_component {
        None => TextureName::NoPath,
        Some(None) => TextureName::Unnamed,
        Some(Some(name)) => TextureName::Named(name),
    }
}

/// The name under which the texture at `texture_asset` is referred to from the
/// container at `gltf_path`: the final component of the path that leads from the
/// one to the other.
pub open spec fn named_uri(texture_asset: Seq<char>, gltf_path: Seq<char>) -> TextureNameView {
    match relative_path(texture_asset, gltf_path) {
        None => TextureNameView::NoPath,
        Some(relative) => match file_name_of(relative) {
            None => TextureNameView::Unnamed,
            Some(name) => TextureNameView::Named(name),
        },
    }
}

/// The name under which a texture is referred to from a container, as
/// [`named_uri`] describes. Whatever the platform's path rules, a name is never
/// empty, and a texture that stands where the container stands has none.
pub fn texture_uri(texture_asset: &str, gltf_path: &str) -> (uri: TextureName)
    ensures
        uri@ == named_uri(texture_asset@, gltf_path@),
        texture_asset@ == gltf_path@ ==> uri == TextureName::Unnamed,
        uri matches TextureName::Named(name) ==> name@.len() > 0,
{
    let final_component = match paths::get_relative_path(texture_asset, gltf_path) {
        Some(relative) => Some(paths::file_name(relative.as_str())),
        None => None,
    };
    uri_of(final_component)
}

/// The texture that a rebound container points at.
#[derive(Debug, PartialEq, Eq)]
pub struct TextureLink {
    /// The name that the images point at.
    pub uri: String,
    /// The path beside the container at which a file of that name is expected.
    pub beside: String,
}

/// A container that was written anew.
#[derive(Debug, PartialEq, Eq)]
pub struct MaterialUpdate {
    pub rebound: Rebound,
    /// The texture that its images point at; none where it has no image.
    pub texture: Option<TextureLink>,
}

/// The texture that the images of a container point at once it is rebound to
/// `name`: none where there is no image.
pub open spec fn links(images: nat, gltf_path: Seq<char>, name: Seq<char>, link: Option<
    TextureLink,
>) -> bool {
    match link {
        Some(l) => images > 0 && l.uri@ == name && l.beside@ == with_file_name_of(gltf_path, name),
        None => images == 0,
    }
}

/// What is done to the container at `gltf_path` once the name of its texture is
/// decided.
///
/// Without a path to the texture the container is left alone. Under a name the
/// container is rebound to it, as [`rebound`] describes, and where it has an
/// image the texture is expected beside it under that name. Without a name the
/// container is written anew all the same if it has no image, for then no name is
/// called for; if it has one, it is refused.
pub open spec fn updates(
    container: Seq<u8>,
    gltf_path: Seq<char>,
    name: TextureNameView,
    outcome: Result<Option<MaterialUpdate>, RebindError>,
) -> bool {
    match name {
        TextureNameView::NoPath => outcome == Ok::<Option<MaterialUpdate>, RebindError>(None),
        TextureNameView::Named(n) => match outcome {
            Ok(Some(update)) => rebinds(container, n, update.rebound) && links(
                update.rebound.images as nat,
                gltf_path,
                n,
                update.texture,
            ),
            Ok(None) => false,
            Err(e) => rebound(container, n) == Err::<ReboundParts, RebindError>(e),
        },
        TextureNameView::Unnamed => match outcome {
            Ok(Some(update)) => rebinds(container, Seq::empty(), update.rebound)
                && update.rebound.images == 0 && update.texture is None,
            Ok(None) => false,
            Err(e) => match rebound(container, Seq::empty()) {
                Ok(parts) => parts.images > 0 && e == RebindError::NoTextureName,
                Err(cause) => e == cause,
            },
        },
    }
}

/// Deals with the container at `gltf_path` under the name decided for its
/// texture, as [`updates`] describes.
pub fn rebind_as(container: &[u8], gltf_path: &str, name: TextureName) -> (outcome: Result<
    Option<MaterialUpdate>,
    RebindError,
>)
    ensures
        updates(container@, gltf_path@, name@, outcome),
{
    match name {
        TextureName::NoPath => Ok(None),
        TextureName::Named(uri) => {
            let rebound = match rebind(container, uri.as_str()) {
                Ok(rebound) => rebound,
                Err(e) => {
                    return Err(e);
                },
            };
            let texture = if rebound.images > 0 {
                let beside = paths::with_file_name(gltf_path, uri.as_str());
                Some(TextureLink { uri, beside })
            } else {
                None
            };
            Ok(Some(MaterialUpdate { rebound, texture }))
        },
        TextureName::Unnamed => {
            let nothing = String::new();
            let rebound = match rebind(container, nothing.as_str()) {
                Ok(rebound) => rebound,
                Err(e) => {
                    return Err(e);
                },
            };
            if rebound.images > 0 {
                return Err(RebindError::NoTextureName);
            }
            Ok(Some(MaterialUpdate { rebound, texture: None }))
        },
    }
}

/// Points the images of the container at `gltf_path` to the texture at
/// `texture_asset`: the name of the texture is decided as [`named_uri`] describes,
/// and the container is dealt with under it as [`updates`] describes.
pub fn modify_material(container: &[u8], gltf_path: &str, texture_asset: &str) -> (outcome: Result<
    Option<MaterialUpdate>,
    RebindError,
>)
    ensures
        updates(container@, gltf_path@, named_uri(texture_asset@, gltf_path@), outcome),
{
    let name = texture_uri(texture_asset, gltf_path);
    rebind_as(container, gltf_path, name)
}

} // verus!
