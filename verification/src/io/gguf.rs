//! The GGUF v3 container: quantization identifiers, metadata values, the
//! header with its key-value section and tensor table, and the aligned
//! payload layout.
//!
//! Every integer is little-endian. Strings are a `u64` byte length followed
//! by their UTF-8 bytes. Tensor payloads start on 32-byte boundaries, and
//! the header is padded to one before the payload begins.
use vstd::prelude::*;
use vstd::utf8::encode_utf8;
use crate::error::Error;
use crate::shapes::dims_to_vec;

verus! {

/// The alignment of the payload section and of each tensor within it.
pub const GGUF_ALIGNMENT: usize = 32;

// --- quantization schemes -----------------------------------------------------------

/// Weight encodings the exporter can be asked for.
#[allow(non_camel_case_types)]
#[derive(Debug, Clone, Copy, PartialEq, Eq, Structural)]
pub enum QuantScheme {
    /// Full precision 32-bit floating point (GGML_TYPE_F32).
    F32,
    /// Half precision 16-bit floating point (GGML_TYPE_F16).
    F16,
    /// 8-bit symmetric quantization with 32-element blocks (GGML_TYPE_Q8_0).
    Q8_0,
    /// 4-bit symmetric quantization with 32-element blocks (GGML_TYPE_Q4_0).
    W4A16_Q4_0,
    /// 4-bit K-quant medium quantization (GGML_TYPE_Q4_K).
    W4A16_Q4_K_M,
}

impl QuantScheme {
    /// The GGML tensor type id.
    pub open spec fn spec_ggml_type_id(self) -> u32 {
        match self {
            QuantScheme::F32 => 0,
            QuantScheme::F16 => 1,
            QuantScheme::W4A16_Q4_0 => 2,
            QuantScheme::Q8_0 => 8,
            QuantScheme::W4A16_Q4_K_M => 12,
        }
    }

    /// The `general.file_type` metadata value.
    pub open spec fn spec_file_type_id(self) -> u32 {
        match self {
            QuantScheme::F32 => 0,
            QuantScheme::F16 => 1,
            QuantScheme::W4A16_Q4_0 => 2,
            QuantScheme::Q8_0 => 7,
            QuantScheme::W4A16_Q4_K_M => 15,
        }
    }

    /// Whether tensors are block-quantized under this scheme.
    pub open spec fn spec_is_block_quantized(self) -> bool {
        self == QuantScheme::Q8_0 || self == QuantScheme::W4A16_Q4_0 || self
            == QuantScheme::W4A16_Q4_K_M
    }

    /// The GGML type id for GGUF serialization.
    pub fn ggml_type_id(&self) -> (r: u32)
        ensures
            r == self.spec_ggml_type_id(),
    {
        match self {
            QuantScheme::F32 => 0,
            QuantScheme::F16 => 1,
            QuantScheme::W4A16_Q4_0 => 2,
            QuantScheme::Q8_0 => 8,
            QuantScheme::W4A16_Q4_K_M => 12,
        }
    }

    /// The GGUF `general.file_type` metadata integer.
    pub fn file_type_id(&self) -> (r: u32)
        ensures
            r == self.spec_file_type_id(),
    {
        match self {
            QuantScheme::F32 => 0,
            QuantScheme::F16 => 1,
            QuantScheme::W4A16_Q4_0 => 2,
            QuantScheme::Q8_0 => 7,
            QuantScheme::W4A16_Q4_K_M => 15,
        }
    }

    /// Whether the exporter has a working conversion for this scheme: every
    /// scheme but `F16`.
    pub fn is_exportable(&self) -> (r: bool)
        ensures
            r == (*self != QuantScheme::F16),
    {
        match self {
            QuantScheme::F16 => false,
            _ => true,
        }
    }

    /// The row length a tensor's last dimension must be a multiple of for
    /// block quantization: 256 for Q4_K superblocks, 32 otherwise.
    pub fn row_multiple(&self) -> (r: usize)
        ensures
            r == (if *self == QuantScheme::W4A16_Q4_K_M {
                256usize
            } else {
                32usize
            }),
    {
        match self {
            QuantScheme::W4A16_Q4_K_M => 256,
            _ => 32,
        }
    }

    /// Whether a tensor of `numel` elements with extents `shape` is
    /// block-quantized: the scheme is a block scheme, the tensor is not
    /// empty, and its last extent is a multiple of the row length. Others
    /// stay F32.
    pub fn can_quantize(&self, numel: usize, shape: &[usize]) -> (r: bool)
        ensures
            r == (self.spec_is_block_quantized() && numel > 0 && shape@.len() > 0 && (shape@.last()
                % (if *self == QuantScheme::W4A16_Q4_K_M {
                256usize
            } else {
                32usize
            })) == 0),
    {
        let block = match self {
            QuantScheme::Q8_0 | QuantScheme::W4A16_Q4_0 | QuantScheme::W4A16_Q4_K_M => true,
            _ => false,
        };
        if !block || numel == 0 || shape.len() == 0 {
            return false;
        }
        shape[shape.len() - 1] % self.row_multiple() == 0
    }

    /// The scheme a tensor of `numel` elements with extents `shape` is
    /// written in: this scheme when the tensor qualifies for its block
    /// quantization, `F32` otherwise.
    pub fn tensor_scheme(&self, numel: usize, shape: &[usize]) -> (r: QuantScheme)
        ensures
            r == (if self.spec_is_block_quantized() && numel > 0 && shape@.len() > 0 && (
            shape@.last() % (if *self == QuantScheme::W4A16_Q4_K_M {
                256usize
            } else {
                32usize
            })) == 0 {
                *self
            } else {
                QuantScheme::F32
            }),
    {
        if self.can_quantize(numel, shape) {
            *self
        } else {
            QuantScheme::F32
        }
    }
}

// --- little-endian encoding ---------------------------------------------------------

/// The `n` low bytes of `v`, least significant first.
pub open spec fn le_bytes(v: nat, n: nat) -> Seq<u8>
    decreases n,
{
    if n == 0 {
        Seq::empty()
    } else {
        seq![(v % 256) as u8] + le_bytes(v / 256, (n - 1) as nat)
    }
}

/// Appends the `n` low bytes of `v`, least significant first.
fn push_le(out: &mut Vec<u8>, v: u64, n: usize)
    ensures
        final(out)@ == old(out)@ + le_bytes(v as nat, n as nat),
    decreases n,
{
    if n == 0 {
        proof {
            assert(old(out)@ + le_bytes(v as nat, 0) =~= old(out)@);
        }
        return;
    }
    let ghost before = out@;
    out.push((v % 256) as u8);
    push_le(out, v / 256, n - 1);
    proof {
        assert(before + le_bytes(v as nat, n as nat) =~= before.push((v % 256) as u8) + le_bytes(
            (v / 256) as nat,
            (n - 1) as nat,
        ));
    }
}

/// Appends `bytes` verbatim.
fn push_bytes(out: &mut Vec<u8>, bytes: &[u8])
    ensures
        final(out)@ == old(out)@ + bytes@,
{
    let ghost before = out@;
    let mut i: usize = 0;
    while i < bytes.len()
        invariant
            i <= bytes@.len(),
            out@ == before + bytes@.take(i as int),
        decreases bytes.len() - i,
    {
        out.push(bytes[i]);
        i = i + 1;
        proof {
            assert(before + bytes@.take(i as int) =~= (before + bytes@.take(i - 1)).push(
                bytes@[i - 1],
            ));
        }
    }
    proof {
        assert(bytes@.take(i as int) =~= bytes@);
    }
}

/// A GGUF string: its `u64` byte length, then its UTF-8 bytes.
pub open spec fn string_bytes(s: Seq<char>) -> Seq<u8> {
    le_bytes(encode_utf8(s).len(), 8) + encode_utf8(s)
}

/// Appends a GGUF string.
fn push_string(out: &mut Vec<u8>, s: &str)
    ensures
        final(out)@ == old(out)@ + string_bytes(s@),
{
    let bytes = s.as_bytes();
    let ghost before = out@;
    push_le(out, bytes.len() as u64, 8);
    push_bytes(out, bytes);
    proof {
        assert(before + string_bytes(s@) =~= before + le_bytes(bytes@.len(), 8) + bytes@);
    }
}

// --- metadata values ----------------------------------------------------------------

/// One GGUF metadata value. Floating-point values are carried as their
/// IEEE-754 bit patterns, which is exactly what the file stores.
#[derive(Debug, PartialEq, Eq)]
pub enum GgufValue {
    /// `Uint8` value.
    Uint8(u8),
    /// `Int8` value.
    Int8(i8),
    /// `Uint16` value.
    Uint16(u16),
    /// `Int16` value.
    Int16(i16),
    /// `Uint32` value.
    Uint32(u32),
    /// `Int32` value.
    Int32(i32),
    /// `Float32` value, as its bit pattern.
    Float32Bits(u32),
    /// `Bool` value.
    Bool(bool),
    /// String value.
    Str(String),
    /// `Uint64` value.
    Uint64(u64),
    /// `Int64` value.
    Int64(i64),
    /// `Float64` value, as its bit pattern.
    Float64Bits(u64),
}

impl Clone for GgufValue {
    fn clone(&self) -> (r: GgufValue)
        ensures
            r == *self,
    {
        match self {
            GgufValue::Uint8(v) => GgufValue::Uint8(*v),
            GgufValue::Int8(v) => GgufValue::Int8(*v),
            GgufValue::Uint16(v) => GgufValue::Uint16(*v),
            GgufValue::Int16(v) => GgufValue::Int16(*v),
            GgufValue::Uint32(v) => GgufValue::Uint32(*v),
            GgufValue::Int32(v) => GgufValue::Int32(*v),
            GgufValue::Float32Bits(v) => GgufValue::Float32Bits(*v),
            GgufValue::Bool(v) => GgufValue::Bool(*v),
            GgufValue::Str(s) => GgufValue::Str(s.clone()),
            GgufValue::Uint64(v) => GgufValue::Uint64(*v),
            GgufValue::Int64(v) => GgufValue::Int64(*v),
            GgufValue::Float64Bits(v) => GgufValue::Float64Bits(*v),
        }
    }
}

/// The GGUF type tag of a value.
pub open spec fn value_type_id(v: GgufValue) -> u32 {
    match v {
        GgufValue::Uint8(_) => 0,
        GgufValue::Int8(_) => 1,
        GgufValue::Uint16(_) => 2,
        GgufValue::Int16(_) => 3,
        GgufValue::Uint32(_) => 4,
        GgufValue::Int32(_) => 5,
        GgufValue::Float32Bits(_) => 6,
        GgufValue::Bool(_) => 7,
        GgufValue::Str(_) => 8,
        GgufValue::Uint64(_) => 10,
        GgufValue::Int64(_) => 11,
        GgufValue::Float64Bits(_) => 12,
    }
}

/// The bytes a value is stored as: its type tag as a `u32`, then its
/// payload (signed integers in two's complement).
pub open spec fn value_bytes(v: GgufValue) -> Seq<u8> {
    le_bytes(value_type_id(v) as nat, 4) + match v {
        GgufValue::Uint8(x) => seq![x],
        GgufValue::Int8(x) => seq![x as u8],
        GgufValue::Uint16(x) => le_bytes(x as nat, 2),
        GgufValue::Int16(x) => le_bytes((x as u16) as nat, 2),
        GgufValue::Uint32(x) => le_bytes(x as nat, 4),
        GgufValue::Int32(x) => le_bytes((x as u32) as nat, 4),
        GgufValue::Float32Bits(x) => le_bytes(x as nat, 4),
        GgufValue::Bool(b) => seq![if b {
            1u8
        } else {
            0u8
        }],
        GgufValue::Str(s) => string_bytes(s@),
        GgufValue::Uint64(x) => le_bytes(x as nat, 8),
        GgufValue::Int64(x) => le_bytes((x as u64) as nat, 8),
        GgufValue::Float64Bits(x) => le_bytes(x as nat, 8),
    }
}

impl GgufValue {
    /// The GGUF type tag.
    pub fn type_id(&self) -> (r: u32)
        ensures
            r == value_type_id(*self),
    {
        match self {
            GgufValue::Uint8(_) => 0,
            GgufValue::Int8(_) => 1,
            GgufValue::Uint16(_) => 2,
            GgufValue::Int16(_) => 3,
            GgufValue::Uint32(_) => 4,
            GgufValue::Int32(_) => 5,
            GgufValue::Float32Bits(_) => 6,
            GgufValue::Bool(_) => 7,
            GgufValue::Str(_) => 8,
            GgufValue::Uint64(_) => 10,
            GgufValue::Int64(_) => 11,
            GgufValue::Float64Bits(_) => 12,
        }
    }

    /// Appends the stored form of this value.
    pub fn write_binary(&self, out: &mut Vec<u8>)
        ensures
            final(out)@ == old(out)@ + value_bytes(*self),
    {
        let ghost before = out@;
        push_le(out, self.type_id() as u64, 4);
        let ghost tagged = out@;
        match self {
            GgufValue::Uint8(v) => out.push(*v),
            GgufValue::Int8(v) => out.push(*v as u8),
            GgufValue::Uint16(v) => push_le(out, *v as u64, 2),
            GgufValue::Int16(v) => push_le(out, (*v as u16) as u64, 2),
            GgufValue::Uint32(v) => push_le(out, *v as u64, 4),
            GgufValue::Int32(v) => push_le(out, (*v as u32) as u64, 4),
            GgufValue::Float32Bits(v) => push_le(out, *v as u64, 4),
            GgufValue::Bool(v) => out.push(if *v {
                1u8
            } else {
                0u8
            }),
            GgufValue::Str(s) => push_string(out, s.as_str()),
            GgufValue::Uint64(v) => push_le(out, *v, 8),
            GgufValue::Int64(v) => push_le(out, *v as u64, 8),
            GgufValue::Float64Bits(v) => push_le(out, *v, 8),
        }
        proof {
            assert(out@ =~= before + value_bytes(*self));
        }
    }
}

// --- metadata -----------------------------------------------------------------------

/// Strict lexicographic order on byte strings: the order of GGUF keys.
pub open spec fn bytes_lt(a: Seq<u8>, b: Seq<u8>) -> bool
    decreases a.len(),
{
    if a.len() == 0 {
        b.len() > 0
    } else if b.len() == 0 {
        false
    } else if a[0] != b[0] {
        a[0] < b[0]
    } else {
        bytes_lt(a.drop_first(), b.drop_first())
    }
}

proof fn lemma_bytes_lt_total(a: Seq<u8>, b: Seq<u8>)
    requires
        a != b,
    ensures
        bytes_lt(a, b) || bytes_lt(b, a),
    decreases a.len(),
{
    if a.len() > 0 && b.len() > 0 && a[0] == b[0] {
        if a.drop_first() == b.drop_first() {
            assert(a =~= seq![a[0]] + a.drop_first());
            assert(b =~= seq![b[0]] + b.drop_first());
        }
        lemma_bytes_lt_total(a.drop_first(), b.drop_first());
    } else if a.len() == 0 && b.len() == 0 {
        assert(a =~= b);
    }
}

/// Compares two byte strings.
fn bytes_less(a: &[u8], b: &[u8]) -> (r: bool)
    ensures
        r == bytes_lt(a@, b@),
{
    let mut i: usize = 0;
    proof {
        assert(a@.skip(0) =~= a@);
        assert(b@.skip(0) =~= b@);
    }
    while i < a.len() && i < b.len()
        invariant
            i <= a@.len(),
            i <= b@.len(),
            bytes_lt(a@, b@) == bytes_lt(a@.skip(i as int), b@.skip(i as int)),
        decreases a.len() - i,
    {
        if a[i] != b[i] {
            return a[i] < b[i];
        }
        proof {
            assert(a@.skip(i as int).drop_first() =~= a@.skip(i + 1));
            assert(b@.skip(i as int).drop_first() =~= b@.skip(i + 1));
        }
        i = i + 1;
    }
    i == a.len() && i < b.len()
}

/// Whether two byte strings are equal.
fn bytes_equal(a: &[u8], b: &[u8]) -> (r: bool)
    ensures
        r == (a@ == b@),
{
    if a.len() != b.len() {
        return false;
    }
    let mut i: usize = 0;
    while i < a.len()
        invariant
            i <= a@.len(),
            a@.len() == b@.len(),
            forall|j: int| 0 <= j < i ==> a@[j] == b@[j],
        decreases a.len() - i,
    {
        if a[i] != b[i] {
            return false;
        }
        i = i + 1;
    }
    proof {
        assert(a@ =~= b@);
    }
    true
}

/// The stored bytes of a key.
pub open spec fn key_bytes(key: Seq<char>) -> Seq<u8> {
    encode_utf8(key)
}

/// Whether consecutive keys strictly increase, so that each key appears
/// once and the entries are in the order they are written.
pub open spec fn keys_increasing(entries: Seq<(Seq<char>, GgufValue)>) -> bool {
    forall|i: int|
        0 <= i < entries.len() - 1 ==> bytes_lt(
            key_bytes(#[trigger] entries[i].0),
            key_bytes(entries[i + 1].0),
        )
}

/// The first index at or after `i` whose key is not below `key`.
pub open spec fn position_from(entries: Seq<(Seq<char>, GgufValue)>, key: Seq<char>, i: int) -> int
    decreases entries.len() - i,
{
    if i < 0 || i >= entries.len() {
        entries.len() as int
    } else if bytes_lt(key_bytes(entries[i].0), key_bytes(key)) {
        position_from(entries, key, i + 1)
    } else {
        i
    }
}

/// The entries after setting `key` to `value`: the entry with that key is
/// replaced, or a new one is inserted where the key order puts it.
pub open spec fn spec_set(entries: Seq<(Seq<char>, GgufValue)>, key: Seq<char>, value: GgufValue) -> Seq<
    (Seq<char>, GgufValue),
> {
    let p = position_from(entries, key, 0);
    if p < entries.len() && key_bytes(entries[p].0) == key_bytes(key) {
        entries.update(p, (key, value))
    } else {
        entries.insert(p, (key, value))
    }
}

proof fn lemma_position_from(entries: Seq<(Seq<char>, GgufValue)>, key: Seq<char>, i: int)
    requires
        0 <= i <= entries.len(),
        forall|j: int| 0 <= j < i ==> bytes_lt(key_bytes(#[trigger] entries[j].0), key_bytes(key)),
    ensures
        i <= position_from(entries, key, i) <= entries.len(),
        forall|j: int|
            0 <= j < position_from(entries, key, i) ==> bytes_lt(
                key_bytes(#[trigger] entries[j].0),
                key_bytes(key),
            ),
        position_from(entries, key, i) < entries.len() ==> !bytes_lt(
            key_bytes(entries[position_from(entries, key, i)].0),
            key_bytes(key),
        ),
    decreases entries.len() - i,
{
    if i < entries.len() && bytes_lt(key_bytes(entries[i].0), key_bytes(key)) {
        lemma_position_from(entries, key, i + 1);
    }
}

/// Setting a key keeps the keys strictly increasing.
pub proof fn lemma_set_keeps_keys_increasing(
    entries: Seq<(Seq<char>, GgufValue)>,
    key: Seq<char>,
    value: GgufValue,
)
    requires
        keys_increasing(entries),
    ensures
        keys_increasing(spec_set(entries, key, value)),
{
    lemma_position_from(entries, key, 0);
    let p = position_from(entries, key, 0);
    let r = spec_set(entries, key, value);
    if p < entries.len() && key_bytes(entries[p].0) == key_bytes(key) {
        assert forall|i: int| 0 <= i < r.len() - 1 implies bytes_lt(
            key_bytes(#[trigger] r[i].0),
            key_bytes(r[i + 1].0),
        ) by {
            assert(key_bytes(r[i].0) == key_bytes(entries[i].0));
            assert(key_bytes(r[i + 1].0) == key_bytes(entries[i + 1].0));
        }
    } else {
        if p < entries.len() {
            lemma_bytes_lt_total(key_bytes(entries[p].0), key_bytes(key));
        }
        assert forall|i: int| 0 <= i < r.len() - 1 implies bytes_lt(
            key_bytes(#[trigger] r[i].0),
            key_bytes(r[i + 1].0),
        ) by {
            if i + 1 < p {
                assert(r[i] == entries[i] && r[i + 1] == entries[i + 1]);
            } else if i + 1 == p {
                assert(r[i] == entries[i]);
            } else if i == p {
                assert(r[i + 1] == entries[p]);
            } else {
                assert(r[i] == entries[i - 1] && r[i + 1] == entries[i]);
            }
        }
    }
}

/// Setting a key stores its value: afterwards the entries hold `(key,
/// value)`, even where the key already had another value, every entry
/// under another key is still there unchanged, and nothing else was added.
pub proof fn lemma_set_stores_value(
    entries: Seq<(Seq<char>, GgufValue)>,
    key: Seq<char>,
    value: GgufValue,
)
    requires
        keys_increasing(entries),
    ensures
        spec_set(entries, key, value).contains((key, value)),
        forall|j: int|
            0 <= j < entries.len() && key_bytes(#[trigger] entries[j].0) != key_bytes(key)
                ==> spec_set(entries, key, value).contains(entries[j]),
        forall|i: int|
            0 <= i < spec_set(entries, key, value).len() ==> #[trigger] spec_set(
                entries,
                key,
                value,
            )[i] == (key, value) || entries.contains(spec_set(entries, key, value)[i]),
{
    lemma_position_from(entries, key, 0);
    lemma_set_keeps_keys_increasing(entries, key, value);
    let p = position_from(entries, key, 0);
    let r = spec_set(entries, key, value);
    assert(r[p] == (key, value));
    if p < entries.len() && key_bytes(entries[p].0) == key_bytes(key) {
        assert forall|j: int|
            0 <= j < entries.len() && key_bytes(#[trigger] entries[j].0) != key_bytes(key)
                implies r.contains(entries[j]) by {
            assert(j != p);
            assert(r[j] == entries[j]);
        }
        assert forall|i: int| 0 <= i < r.len() implies #[trigger] r[i] == (key, value)
            || entries.contains(r[i]) by {
            if i != p {
                assert(r[i] == entries[i]);
            }
        }
    } else {
        assert forall|j: int|
            0 <= j < entries.len() && key_bytes(#[trigger] entries[j].0) != key_bytes(key)
                implies r.contains(entries[j]) by {
            if j < p {
                assert(r[j] == entries[j]);
            } else {
                assert(r[j + 1] == entries[j]);
            }
        }
        assert forall|i: int| 0 <= i < r.len() implies #[trigger] r[i] == (key, value)
            || entries.contains(r[i]) by {
            if i < p {
                assert(r[i] == entries[i]);
            } else if i > p {
                assert(r[i] == entries[i - 1]);
            }
        }
    }
}

/// GGUF metadata: key-value entries kept in key order, each key once.
#[derive(Debug)]
pub struct GgufMetadata {
    entries: Vec<(String, GgufValue)>,
}

impl View for GgufMetadata {
    type V = Seq<(Seq<char>, GgufValue)>;

    closed spec fn view(&self) -> Seq<(Seq<char>, GgufValue)> {
        self.entries@.map_values(|e: (String, GgufValue)| (e.0@, e.1))
    }
}

impl GgufMetadata {
    /// Metadata with no entries.
    pub fn empty() -> (r: GgufMetadata)
        ensures
            r@ == Seq::<(Seq<char>, GgufValue)>::empty(),
    {
        GgufMetadata { entries: Vec::new() }
    }

    /// Metadata for one architecture: its name, the producer, and the
    /// alignment, set in that order.
    pub fn new(arch: &str) -> (r: GgufMetadata)
        ensures
            exists|a: String, producer: String|
                {
                    &&& a@ == arch@
                    &&& producer@ == "incin-v0.2.0"@
                    &&& r@ == spec_set(
                        spec_set(
                            spec_set(Seq::empty(), "general.architecture"@, GgufValue::Str(a)),
                            "general.producer.name"@,
                            GgufValue::Str(producer),
                        ),
                        "general.alignment"@,
                        GgufValue::Uint32(32),
                    )
                },
    {
        let mut meta = GgufMetadata::empty();
        let a = String::from_str(arch);
        let producer = String::from_str("incin-v0.2.0");
        let ghost (ga, gp) = (a, producer);
        meta.set(String::from_str("general.architecture"), GgufValue::Str(a));
        meta.set(String::from_str("general.producer.name"), GgufValue::Str(producer));
        meta.set(String::from_str("general.alignment"), GgufValue::Uint32(32));
        proof {
            assert(ga@ == arch@ && gp@ == "incin-v0.2.0"@);
        }
        meta
    }

    /// The number of entries.
    pub fn len(&self) -> (r: usize)
        ensures
            r == self@.len(),
    {
        self.entries.len()
    }

    /// Sets one entry, replacing the value of an existing key.
    pub fn set(&mut self, key: String, value: GgufValue)
        ensures
            final(self)@ == spec_set(old(self)@, key@, value),
    {
        let ghost before = self@;
        let mut i: usize = 0;
        while i < self.entries.len() && bytes_less(
            self.entries[i].0.as_str().as_bytes(),
            key.as_str().as_bytes(),
        )
            invariant
                i <= self.entries@.len(),
                self@ == before,
                position_from(before, key@, 0) == position_from(before, key@, i as int),
            decreases self.entries.len() - i,
        {
            i = i + 1;
        }
        if i < self.entries.len() && bytes_equal(
            self.entries[i].0.as_str().as_bytes(),
            key.as_str().as_bytes(),
        ) {
            self.entries.set(i, (key, value));
            proof {
                assert(self@ =~= spec_set(before, key@, value));
            }
        } else {
            self.entries.insert(i, (key, value));
            proof {
                assert(self@ =~= spec_set(before, key@, value));
            }
        }
    }

    /// A copy of this metadata with `general.file_type` set for `quant`.
    pub fn for_export(&self, quant: QuantScheme) -> (r: GgufMetadata)
        ensures
            r@ == spec_set(self@, "general.file_type"@, GgufValue::Uint32(quant.spec_file_type_id())),
    {
        let mut entries: Vec<(String, GgufValue)> = Vec::new();
        let mut i: usize = 0;
        while i < self.entries.len()
            invariant
                i <= self.entries@.len(),
                entries@.len() == i,
                forall|j: int| 0 <= j < i ==> #[trigger] entries@[j] == self.entries@[j],
            decreases self.entries.len() - i,
        {
            let entry = &self.entries[i];
            entries.push((entry.0.clone(), entry.1.clone()));
            i = i + 1;
        }
        let mut out = GgufMetadata { entries };
        proof {
            assert(out@ =~= self@);
        }
        out.set(String::from_str("general.file_type"), GgufValue::Uint32(quant.file_type_id()));
        out
    }
}

/// Checks that an export can proceed: the scheme has a working conversion
/// (everything but `F16`), and no tensor has more than four dimensions.
pub fn validate_export(quant: QuantScheme, tensor_ranks: &[usize]) -> (r: Result<(), Error>)
    ensures
        r is Ok <==> (quant != QuantScheme::F16 && forall|i: int|
            0 <= i < tensor_ranks@.len() ==> #[trigger] tensor_ranks@[i] <= 4),
        quant == QuantScheme::F16 ==> (r matches Err(Error::Msg(m)) && m@
            == "GGUF export: quantization scheme F16 is not yet implemented (only F32, Q8_0, Q4_0 and Q4_K are supported)"@),
        quant != QuantScheme::F16 && r is Err ==> (r matches Err(
            Error::InvalidModuleState { operation, reason },
        ) && operation@ == "GGUF export"@ && reason@ == "GGUF supports at most 4 tensor dimensions"@),
{
    if !quant.is_exportable() {
        return Err(
            Error::Msg(
                String::from_str(
                    "GGUF export: quantization scheme F16 is not yet implemented (only F32, Q8_0, Q4_0 and Q4_K are supported)",
                ),
            ),
        );
    }
    let mut i: usize = 0;
    while i < tensor_ranks.len()
        invariant
            i <= tensor_ranks@.len(),
            quant != QuantScheme::F16,
            forall|j: int| 0 <= j < i ==> #[trigger] tensor_ranks@[j] <= 4,
        decreases tensor_ranks.len() - i,
    {
        if tensor_ranks[i] > 4 {
            return Err(
                Error::InvalidModuleState {
                    operation: "GGUF export",
                    reason: String::from_str("GGUF supports at most 4 tensor dimensions"),
                },
            );
        }
        i = i + 1;
    }
    Ok(())
}

// --- naming an exported model ------------------------------------------------------

/// Where the last segment of `s` begins when it is split at `::` as
/// `str::split` splits it: left to right, each match ending before the next
/// is sought. `i` is where the scan stands, `start` where the current segment
/// began.
pub open spec fn segment_start(s: Seq<char>, i: int, start: int) -> int
    decreases s.len() - i,
{
    if i + 1 >= s.len() {
        start
    } else if s[i] == ':' && s[i + 1] == ':' {
        segment_start(s, i + 2, i + 2)
    } else {
        segment_start(s, i + 1, start)
    }
}

/// The last `::`-separated segment of a path.
pub open spec fn last_segment(s: Seq<char>) -> Seq<char> {
    s.subrange(segment_start(s, 0, 0), s.len() as int)
}

/// Whether `needle` occurs in `hay`.
pub open spec fn contains_seq(hay: Seq<char>, needle: Seq<char>) -> bool {
    exists|k: int|
        0 <= k && k + needle.len() <= hay.len() && #[trigger] hay.subrange(k, k + needle.len())
            == needle
}

/// The architecture a model name implies: `llama` or `resnet` when the name
/// contains it, in that order of preference, `custom` otherwise.
pub open spec fn architecture_of(name: Seq<char>) -> Seq<char> {
    if contains_seq(name, "llama"@) {
        "llama"@
    } else if contains_seq(name, "resnet"@) {
        "resnet"@
    } else {
        "custom"@
    }
}

/// The Unicode lower-case mapping of `s`.
pub uninterp spec fn lowercase(s: Seq<char>) -> Seq<char>;

/// `str::to_lowercase`, whose result, the Unicode lower-case mapping of
/// its argument, the contract names without spelling out.
#[verifier::external_body]
fn to_lowercase(s: &str) -> (r: String)
    ensures
        r@ == lowercase(s@),
{
    s.to_lowercase()
}

/// The last `::`-separated segment of a type path: the whole path when it
/// has no `::`.
pub fn last_path_segment(path: &str) -> (r: String)
    ensures
        r@ == last_segment(path@),
{
    let n = path.unicode_len();
    let mut i: usize = 0;
    let mut start: usize = 0;
    while n - i > 1
        invariant
            n == path@.len(),
            start <= i <= n,
            segment_start(path@, i as int, start as int) == segment_start(path@, 0, 0),
        decreases n - i,
    {
        if path.get_char(i) == ':' && path.get_char(i + 1) == ':' {
            i = i + 2;
            start = i;
        } else {
            i = i + 1;
        }
    }
    String::from_str(path.substring_char(start, n))
}

/// Whether `needle` occurs in `hay`.
pub fn contains_text(hay: &str, needle: &str) -> (r: bool)
    ensures
        r == contains_seq(hay@, needle@),
{
    let n = hay.unicode_len();
    let m = needle.unicode_len();
    if m > n {
        return false;
    }
    if m == 0 {
        proof {
            assert(hay@.subrange(0, 0 + needle@.len() as int) =~= needle@);
        }
        return true;
    }
    let mut k: usize = 0;
    while k <= n - m
        invariant
            n == hay@.len(),
            m == needle@.len(),
            1 <= m <= n,
            forall|k2: int| 0 <= k2 < k ==> #[trigger] hay@.subrange(k2, k2 + m) != needle@,
        decreases n - m + 1 - k,
    {
        let mut j: usize = 0;
        let mut same = true;
        while j < m
            invariant
                n == hay@.len(),
                m == needle@.len(),
                k + m <= n,
                j <= m,
                same ==> forall|j2: int| 0 <= j2 < j ==> hay@[k + j2] == needle@[j2],
                !same ==> hay@.subrange(k as int, k + m) != needle@,
            decreases m - j,
        {
            if hay.get_char(k + j) != needle.get_char(j) {
                proof {
                    assert(hay@.subrange(k as int, k + m)[j as int] == hay@[k + j]);
                }
                same = false;
            }
            j = j + 1;
        }
        if same {
            proof {
                assert(hay@.subrange(k as int, k + m) =~= needle@);
            }
            return true;
        }
        k = k + 1;
    }
    proof {
        assert forall|k2: int|
            0 <= k2 && k2 + needle@.len() <= hay@.len() implies #[trigger] hay@.subrange(
            k2,
            k2 + needle@.len(),
        ) != needle@ by {
            assert(k2 < k);
        }
    }
    false
}

/// The architecture a lower-cased model name implies.
pub fn model_architecture(name: &str) -> (r: &'static str)
    ensures
        r@ == architecture_of(name@),
{
    if contains_text(name, "llama") {
        "llama"
    } else if contains_text(name, "resnet") {
        "resnet"
    } else {
        "custom"
    }
}

/// Export metadata for a model whose Rust type path is `type_path`: the
/// last `::` segment, lower-cased, is the model's `general.name`, and the
/// architecture is the one that name implies.
pub fn metadata_for_type_path(type_path: &str) -> (r: GgufMetadata)
    ensures
        exists|arch: String, producer: String, name: String|
            #![trigger arch@, producer@, name@]
            {
                let short = lowercase(last_segment(type_path@));
                &&& name@ == short
                &&& arch@ == architecture_of(short)
                &&& producer@ == "incin-v0.2.0"@
                &&& r@ == spec_set(
                    spec_set(
                        spec_set(
                            spec_set(Seq::empty(), "general.architecture"@, GgufValue::Str(arch)),
                            "general.producer.name"@,
                            GgufValue::Str(producer),
                        ),
                        "general.alignment"@,
                        GgufValue::Uint32(32),
                    ),
                    "general.name"@,
                    GgufValue::Str(name),
                )
            },
{
    let segment = last_path_segment(type_path);
    let short_name = to_lowercase(segment.as_str());
    let arch = model_architecture(short_name.as_str());
    let mut metadata = GgufMetadata::new(arch);
    let ghost before = metadata@;
    let ghost (a, p) = choose|a: String, producer: String|
        {
            &&& a@ == arch@
            &&& producer@ == "incin-v0.2.0"@
            &&& before == spec_set(
                spec_set(
                    spec_set(Seq::empty(), "general.architecture"@, GgufValue::Str(a)),
                    "general.producer.name"@,
                    GgufValue::Str(producer),
                ),
                "general.alignment"@,
                GgufValue::Uint32(32),
            )
        };
    let ghost name = short_name;
    metadata.set(String::from_str("general.name"), GgufValue::Str(short_name));
    proof {
        assert(name@ == lowercase(last_segment(type_path@)));
        assert(metadata@ == spec_set(before, "general.name"@, GgufValue::Str(name)));
    }
    metadata
}

// --- Q4_K scale packing -------------------------------------------------------------

/// The 6-bit scale stored for sub-block `j` of a packed Q4_K scale array.
pub open spec fn packed_scale(j: int, scales: Seq<u8>) -> u8 {
    if j < 4 {
        scales[j] & 63
    } else {
        (scales[j + 4] & 0x0f) | ((scales[j - 4] >> 6) << 4)
    }
}

/// The 6-bit min stored for sub-block `j` of a packed Q4_K scale array.
pub open spec fn packed_min(j: int, scales: Seq<u8>) -> u8 {
    if j < 4 {
        scales[j + 4] & 63
    } else {
        (scales[j + 4] >> 4) | ((scales[j] >> 6) << 4)
    }
}

/// Reads the packed 6-bit scale/min pair of sub-block `j` out of a Q4_K
/// superblock's 12-byte scale array: the first four pairs sit in the low
/// six bits of bytes `j` and `j + 4`; the last four keep their low nibbles
/// in byte `j + 4` and their top two bits in the high bits of bytes `j - 4`
/// and `j`.
pub fn get_scale_min_k4(j: usize, scales: &[u8; 12]) -> (r: (u8, u8))
    requires
        j < 8,
    ensures
        r == (packed_scale(j as int, scales@), packed_min(j as int, scales@)),
{
    if j < 4 {
        (scales[j] & 63, scales[j + 4] & 63)
    } else {
        (
            (scales[j + 4] & 0x0f) | ((scales[j - 4] >> 6) << 4),
            (scales[j + 4] >> 4) | ((scales[j] >> 6) << 4),
        )
    }
}

/// Packs eight 6-bit scales and eight 6-bit mins into a Q4_K superblock's
/// 12-byte scale array, the layout [`get_scale_min_k4`] reads.
pub fn pack_scales_mins(scales: &[u8; 8], mins: &[u8; 8]) -> (r: [u8; 12])
    requires
        forall|j: int| 0 <= j < 8 ==> #[trigger] scales@[j] < 64 && mins@[j] < 64,
    ensures
        forall|j: int|
            0 <= j < 8 ==> packed_scale(j, r@) == scales@[j] && packed_min(j, r@) == mins@[j],
{
    let mut out: [u8; 12] = [0u8, 0u8, 0u8, 0u8, 0u8, 0u8, 0u8, 0u8, 0u8, 0u8, 0u8, 0u8];
    let mut j: usize = 0;
    while j < 4
        invariant
            j <= 4,
            out@.len() == 12,
            forall|k: int| 0 <= k < 8 ==> #[trigger] scales@[k] < 64 && mins@[k] < 64,
            forall|k: int| 0 <= k < j ==> #[trigger] out@[k] == scales@[k],
            forall|k: int| 0 <= k < j ==> #[trigger] out@[k + 4] == mins@[k],
            forall|k: int| j <= k < 4 ==> #[trigger] out@[k] == 0,
            forall|k: int| j <= k < 4 ==> #[trigger] out@[k + 4] == 0,
            forall|k: int| 8 <= k < 12 ==> #[trigger] out@[k] == 0,
        decreases 4 - j,
    {
        out[j] = scales[j];
        out[j + 4] = mins[j];
        j = j + 1;
    }
    proof {
        assert forall|k: int| 4 <= k < 8 implies #[trigger] out@[k] == mins@[k - 4] by {
            let i = k - 4;
            assert(out@[i + 4] == mins@[i]);
        }
    }
    while j < 8
        invariant
            4 <= j <= 8,
            out@.len() == 12,
            forall|k: int| 0 <= k < 8 ==> #[trigger] scales@[k] < 64 && mins@[k] < 64,
            forall|k: int|
                0 <= k < 4 ==> #[trigger] out@[k] == (if k + 4 < j {
                    scales@[k] | ((scales@[k + 4] >> 4u8) << 6u8)
                } else {
                    scales@[k]
                }),
            forall|k: int|
                4 <= k < 8 ==> #[trigger] out@[k] == (if k < j {
                    mins@[k - 4] | ((mins@[k] >> 4u8) << 6u8)
                } else {
                    mins@[k - 4]
                }),
            forall|k: int|
                8 <= k < 12 ==> #[trigger] out@[k] == (if k - 4 < j {
                    (scales@[k - 4] & 0x0fu8) | ((mins@[k - 4] & 0x0fu8) << 4u8)
                } else {
                    0u8
                }),
        decreases 8 - j,
    {
        let ls = scales[j];
        let lm = mins[j];
        out[j + 4] = (ls & 0x0f) | ((lm & 0x0f) << 4);
        let low = out[j - 4];
        out[j - 4] = low | ((ls >> 4) << 6);
        let mid = out[j];
        out[j] = mid | ((lm >> 4) << 6);
        j = j + 1;
    }
    proof {
        assert forall|k: int| 0 <= k < 8 implies packed_scale(k, out@) == scales@[k]
            && packed_min(k, out@) == mins@[k] by {
            if k < 4 {
                let s0 = scales@[k];
                let s4 = scales@[k + 4];
                let m0 = mins@[k];
                let m4 = mins@[k + 4];
                assert(((s0 | ((s4 >> 4u8) << 6u8)) & 63u8) == s0) by (bit_vector)
                    requires
                        s0 < 64u8,
                        s4 < 64u8,
                ;
                assert(((m0 | ((m4 >> 4u8) << 6u8)) & 63u8) == m0) by (bit_vector)
                    requires
                        m0 < 64u8,
                        m4 < 64u8,
                ;
            } else {
                let s0 = scales@[k - 4];
                let s4 = scales@[k];
                let m0 = mins@[k - 4];
                let m4 = mins@[k];
                assert((((s4 & 0x0fu8) | ((m4 & 0x0fu8) << 4u8)) & 0x0fu8) | (((s0 | ((s4
                    >> 4u8) << 6u8)) >> 6u8) << 4u8) == s4) by (bit_vector)
                    requires
                        s0 < 64u8,
                        s4 < 64u8,
                ;
                assert((((s4 & 0x0fu8) | ((m4 & 0x0fu8) << 4u8)) >> 4u8) | (((m0 | ((m4
                    >> 4u8) << 6u8)) >> 6u8) << 4u8) == m4) by (bit_vector)
                    requires
                        m0 < 64u8,
                        m4 < 64u8,
                ;
            }
        }
    }
    out
}

// --- header and payload -------------------------------------------------------------

/// The bytes `n` zero bytes.
pub open spec fn zeros(n: nat) -> Seq<u8> {
    Seq::new(n, |i: int| 0u8)
}

/// Zero bytes needed after `len` bytes to reach the next 32-byte boundary.
pub open spec fn pad_len(len: nat) -> nat {
    ((32 - len % 32) % 32) as nat
}

/// The extents a tensor is stored with: reversed (fastest-varying first),
/// and `[1]` for a scalar.
pub open spec fn gguf_dims(dims: Seq<usize>) -> Seq<u64> {
    if dims.len() == 0 {
        seq![1u64]
    } else {
        Seq::new(dims.len(), |i: int| dims[dims.len() - 1 - i] as u64)
    }
}

/// Each extent as a `u64`.
pub open spec fn dims_bytes(dims: Seq<u64>) -> Seq<u8>
    decreases dims.len(),
{
    if dims.len() == 0 {
        Seq::empty()
    } else {
        dims_bytes(dims.drop_last()) + le_bytes(dims.last() as nat, 8)
    }
}

/// One row of the tensor table.
#[derive(Debug)]
pub struct GgufTensorInfo {
    /// Tensor name.
    pub name: String,
    /// Extents, slowest-varying first.
    pub dims: Vec<usize>,
    /// GGML type id of the stored data.
    pub ggml_type: u32,
    /// Offset of the data within the payload section.
    pub data_offset: u64,
}

/// A tensor table row: name, rank as `u32`, stored extents, type, offset.
pub open spec fn tensor_info_bytes(t: GgufTensorInfo) -> Seq<u8> {
    string_bytes(t.name@) + le_bytes(gguf_dims(t.dims@).len(), 4) + dims_bytes(gguf_dims(t.dims@))
        + le_bytes(t.ggml_type as nat, 4) + le_bytes(t.data_offset as nat, 8)
}

/// The key-value section: each key as a string, then its value.
pub open spec fn kv_section(entries: Seq<(Seq<char>, GgufValue)>) -> Seq<u8>
    decreases entries.len(),
{
    if entries.len() == 0 {
        Seq::empty()
    } else {
        kv_section(entries.drop_last()) + string_bytes(entries.last().0) + value_bytes(
            entries.last().1,
        )
    }
}

/// The tensor table: one row per tensor.
pub open spec fn tensor_table(tensors: Seq<GgufTensorInfo>) -> Seq<u8>
    decreases tensors.len(),
{
    if tensors.len() == 0 {
        Seq::empty()
    } else {
        tensor_table(tensors.drop_last()) + tensor_info_bytes(tensors.last())
    }
}

/// The header up to its final padding: magic `GGUF`, version 3, tensor
/// count, entry count, key-value section, tensor table.
pub open spec fn header_body(entries: Seq<(Seq<char>, GgufValue)>, tensors: Seq<GgufTensorInfo>) -> Seq<
    u8,
> {
    seq![71u8, 71u8, 85u8, 70u8] + le_bytes(3, 4) + le_bytes(tensors.len(), 8) + le_bytes(
        entries.len(),
        8,
    ) + kv_section(entries) + tensor_table(tensors)
}

/// The whole header, padded to a 32-byte boundary.
pub open spec fn header_bytes(entries: Seq<(Seq<char>, GgufValue)>, tensors: Seq<GgufTensorInfo>) -> Seq<
    u8,
> {
    header_body(entries, tensors) + zeros(pad_len(header_body(entries, tensors).len()))
}

/// Appends `n` zero bytes.
fn push_zeros(out: &mut Vec<u8>, n: usize)
    ensures
        final(out)@ == old(out)@ + zeros(n as nat),
{
    let ghost before = out@;
    let mut i: usize = 0;
    while i < n
        invariant
            i <= n,
            out@ == before + zeros(i as nat),
        decreases n - i,
    {
        out.push(0u8);
        i = i + 1;
        proof {
            assert(before + zeros(i as nat) =~= (before + zeros((i - 1) as nat)).push(0u8));
        }
    }
}

/// Zero bytes needed after `len` bytes to reach the next 32-byte boundary.
fn padding_after(len: usize) -> (r: usize)
    ensures
        r == pad_len(len as nat),
        r < 32,
{
    (GGUF_ALIGNMENT - len % GGUF_ALIGNMENT) % GGUF_ALIGNMENT
}

/// Appends one tensor table row.
fn push_tensor_info(out: &mut Vec<u8>, t: &GgufTensorInfo)
    requires
        t.dims@.len() < u32::MAX,
    ensures
        final(out)@ == old(out)@ + tensor_info_bytes(*t),
{
    let ghost before = out@;
    push_string(out, t.name.as_str());
    let n = t.dims.len();
    let ghost g = gguf_dims(t.dims@);
    if n == 0 {
        push_le(out, 1, 4);
        let ghost mid = out@;
        push_le(out, 1, 8);
        proof {
            assert(dims_bytes(g) =~= dims_bytes(g.drop_last()) + le_bytes(1, 8));
            assert(g.drop_last() =~= Seq::<u64>::empty());
            assert(out@ =~= mid + dims_bytes(g));
        }
    } else {
        push_le(out, n as u64, 4);
        let ghost mid = out@;
        let mut k: usize = 0;
        while k < n
            invariant
                k <= n,
                n == t.dims@.len(),
                n > 0,
                g == gguf_dims(t.dims@),
                out@ == mid + dims_bytes(g.take(k as int)),
            decreases n - k,
        {
            push_le(out, t.dims[n - 1 - k] as u64, 8);
            k = k + 1;
            proof {
                assert(g.take(k as int).drop_last() =~= g.take(k - 1));
                assert(out@ =~= mid + dims_bytes(g.take(k as int)));
            }
        }
        proof {
            assert(g.take(k as int) =~= g);
        }
    }
    push_le(out, t.ggml_type as u64, 4);
    push_le(out, t.data_offset, 8);
    proof {
        assert(out@ =~= before + tensor_info_bytes(*t));
    }
}

/// The GGUF header for `metadata` and `tensors`, padded to the alignment
/// boundary where the payload starts.
pub fn gguf_header(metadata: &GgufMetadata, tensors: &[GgufTensorInfo]) -> (r: Vec<u8>)
    requires
        forall|i: int| 0 <= i < tensors@.len() ==> #[trigger] tensors@[i].dims@.len() < u32::MAX,
    ensures
        r@ == header_bytes(metadata@, tensors@),
{
    let mut out: Vec<u8> = Vec::new();
    out.push(71u8);
    out.push(71u8);
    out.push(85u8);
    out.push(70u8);
    push_le(&mut out, 3, 4);
    push_le(&mut out, tensors.len() as u64, 8);
    push_le(&mut out, metadata.entries.len() as u64, 8);
    let ghost after_counts = out@;
    let mut i: usize = 0;
    proof {
        assert(metadata@.take(0) =~= Seq::<(Seq<char>, GgufValue)>::empty());
        assert(out@ =~= after_counts + kv_section(metadata@.take(0)));
    }
    while i < metadata.entries.len()
        invariant
            i <= metadata.entries@.len(),
            out@ == after_counts + kv_section(metadata@.take(i as int)),
        decreases metadata.entries.len() - i,
    {
        let entry = &metadata.entries[i];
        push_string(&mut out, entry.0.as_str());
        entry.1.write_binary(&mut out);
        i = i + 1;
        proof {
            assert(metadata@.take(i as int).drop_last() =~= metadata@.take(i - 1));
            assert(out@ =~= after_counts + kv_section(metadata@.take(i as int)));
        }
    }
    proof {
        assert(metadata@.take(i as int) =~= metadata@);
    }
    let ghost after_kv = out@;
    let mut k: usize = 0;
    proof {
        assert(tensors@.take(0) =~= Seq::<GgufTensorInfo>::empty());
        assert(out@ =~= after_kv + tensor_table(tensors@.take(0)));
    }
    while k < tensors.len()
        invariant
            k <= tensors@.len(),
            forall|j: int| 0 <= j < tensors@.len() ==> #[trigger] tensors@[j].dims@.len() < u32::MAX,
            out@ == after_kv + tensor_table(tensors@.take(k as int)),
        decreases tensors.len() - k,
    {
        push_tensor_info(&mut out, &tensors[k]);
        k = k + 1;
        proof {
            assert(tensors@.take(k as int).drop_last() =~= tensors@.take(k - 1));
            assert(out@ =~= after_kv + tensor_table(tensors@.take(k as int)));
        }
    }
    proof {
        assert(tensors@.take(k as int) =~= tensors@);
        assert(out@ =~= header_body(metadata@, tensors@));
    }
    let padding = padding_after(out.len());
    push_zeros(&mut out, padding);
    out
}

/// The payload section before its final padding, and each tensor's offset
/// in it: every tensor starts at the first 32-byte boundary after the one
/// before it.
pub open spec fn payload_layout(chunks: Seq<Seq<u8>>) -> (Seq<u8>, Seq<nat>)
    decreases chunks.len(),
{
    if chunks.len() == 0 {
        (Seq::empty(), Seq::empty())
    } else {
        let (body, offsets) = payload_layout(chunks.drop_last());
        let start = body.len() + pad_len(body.len());
        (body + zeros(pad_len(body.len())) + chunks.last(), offsets.push(start))
    }
}

/// The payload section, padded to a 32-byte boundary.
pub open spec fn payload_bytes(chunks: Seq<Seq<u8>>) -> Seq<u8> {
    payload_layout(chunks).0 + zeros(pad_len(payload_layout(chunks).0.len()))
}

proof fn lemma_payload_layout_len(chunks: Seq<Seq<u8>>)
    ensures
        payload_layout(chunks).1.len() == chunks.len(),
        forall|i: int|
            0 <= i < chunks.len() ==> #[trigger] payload_layout(chunks).1[i] + chunks[i].len()
                <= payload_layout(chunks).0.len(),
    decreases chunks.len(),
{
    if chunks.len() > 0 {
        lemma_payload_layout_len(chunks.drop_last());
    }
}

/// Lays out tensor payloads: each one padded to start on a 32-byte
/// boundary, then the whole section padded to one. Returns the section and
/// each tensor's offset.
pub fn gguf_payload(chunks: &Vec<Vec<u8>>) -> (r: (Vec<u8>, Vec<u64>))
    requires
        payload_bytes(chunks@.map_values(|c: Vec<u8>| c@)).len() <= u64::MAX,
    ensures
        r.0@ == payload_bytes(chunks@.map_values(|c: Vec<u8>| c@)),
        r.1@.len() == chunks@.len(),
        forall|i: int|
            0 <= i < chunks@.len() ==> r.1@[i] == payload_layout(
                chunks@.map_values(|c: Vec<u8>| c@),
            ).1[i],
{
    let ghost views = chunks@.map_values(|c: Vec<u8>| c@);
    let mut out: Vec<u8> = Vec::new();
    let mut offsets: Vec<u64> = Vec::new();
    let mut i: usize = 0;
    proof {
        assert(views.take(0) =~= Seq::<Seq<u8>>::empty());
        lemma_payload_layout_len(views);
    }
    while i < chunks.len()
        invariant
            i <= chunks@.len(),
            views == chunks@.map_values(|c: Vec<u8>| c@),
            payload_bytes(views).len() <= u64::MAX,
            out@ == payload_layout(views.take(i as int)).0,
            offsets@.len() == i,
            forall|j: int| 0 <= j < i ==> offsets@[j] == payload_layout(views.take(i as int)).1[j],
        decreases chunks.len() - i,
    {
        proof {
            assert(views.take(i + 1).drop_last() =~= views.take(i as int));
            lemma_payload_layout_len(views.take(i + 1));
            lemma_payload_prefix_len(views, i + 1);
        }
        let padding = padding_after(out.len());
        push_zeros(&mut out, padding);
        offsets.push(out.len() as u64);
        push_bytes(&mut out, chunks[i].as_slice());
        i = i + 1;
    }
    proof {
        assert(views.take(i as int) =~= views);
    }
    let padding = padding_after(out.len());
    push_zeros(&mut out, padding);
    (out, offsets)
}

proof fn lemma_payload_prefix_len(chunks: Seq<Seq<u8>>, n: int)
    requires
        0 <= n <= chunks.len(),
    ensures
        payload_layout(chunks.take(n)).0.len() <= payload_layout(chunks).0.len(),
    decreases chunks.len(),
{
    if n < chunks.len() {
        assert(chunks.drop_last().take(n) =~= chunks.take(n));
        lemma_payload_prefix_len(chunks.drop_last(), n);
    } else {
        assert(chunks.take(n) =~= chunks);
    }
}

/// Tensor data never overlaps and always starts on an alignment boundary:
/// each offset is a multiple of 32, each tensor ends before the next one
/// starts, and the padded payload section is a whole number of 32-byte
/// blocks.
pub proof fn lemma_payload_aligned(chunks: Seq<Seq<u8>>)
    ensures
        payload_layout(chunks).1.len() == chunks.len(),
        forall|i: int| 0 <= i < chunks.len() ==> #[trigger] payload_layout(chunks).1[i] % 32 == 0,
        forall|i: int, j: int|
            0 <= i < j < chunks.len() ==> #[trigger] payload_layout(chunks).1[i] + chunks[i].len()
                <= #[trigger] payload_layout(chunks).1[j],
        payload_bytes(chunks).len() % 32 == 0,
    decreases chunks.len(),
{
    lemma_payload_layout_len(chunks);
    if chunks.len() > 0 {
        let prev = chunks.drop_last();
        lemma_payload_aligned(prev);
        lemma_payload_layout_len(prev);
        let body = payload_layout(prev).0;
        assert forall|i: int| 0 <= i < chunks.len() - 1 implies payload_layout(chunks).1[i]
            + chunks[i].len() <= body.len() by {
            assert(chunks[i] == prev[i]);
        }
    }
}

/// The header always ends on an alignment boundary, so the payload that
/// follows it starts on one.
pub proof fn lemma_header_aligned(entries: Seq<(Seq<char>, GgufValue)>, tensors: Seq<GgufTensorInfo>)
    ensures
        header_bytes(entries, tensors).len() % 32 == 0,
{
}

// --- the tensor table of an export -------------------------------------------------

/// The scheme a tensor is stored in once its encoder has run: the planned
/// scheme when the encoder produced bytes, `F32` (the raw values) when it
/// declined.
pub fn stored_scheme(planned: QuantScheme, encoded: bool) -> (r: QuantScheme)
    ensures
        r == (if encoded {
            planned
        } else {
            QuantScheme::F32
        }),
{
    if encoded {
        planned
    } else {
        QuantScheme::F32
    }
}

/// One exported tensor as the tensor table names it: its name, extents and
/// the scheme its payload is stored in.
pub struct TensorEntry {
    /// Tensor name.
    pub name: String,
    /// Extents, slowest-varying first.
    pub dims: Vec<usize>,
    /// The scheme the payload is stored in.
    pub scheme: QuantScheme,
}

/// The tensor table and payload section of an export: `chunks[i]` is the
/// stored payload of `tensors[i]`. Each row carries its tensor's name and
/// extents, the type id of the scheme its payload is stored in, and the
/// offset at which the payload section places that payload.
pub fn lay_out_tensors(tensors: &[TensorEntry], chunks: &Vec<Vec<u8>>) -> (r: (
    Vec<GgufTensorInfo>,
    Vec<u8>,
))
    requires
        tensors@.len() == chunks@.len(),
        payload_bytes(chunks@.map_values(|c: Vec<u8>| c@)).len() <= u64::MAX,
    ensures
        r.1@ == payload_bytes(chunks@.map_values(|c: Vec<u8>| c@)),
        r.0@.len() == tensors@.len(),
        forall|i: int|
            0 <= i < tensors@.len() ==> {
                &&& (#[trigger] r.0@[i]).name@ == tensors@[i].name@
                &&& r.0@[i].dims@ == tensors@[i].dims@
                &&& r.0@[i].ggml_type == tensors@[i].scheme.spec_ggml_type_id()
                &&& r.0@[i].data_offset == payload_layout(chunks@.map_values(|c: Vec<u8>| c@)).1[i]
            },
{
    let (payload, offsets) = gguf_payload(chunks);
    let mut infos: Vec<GgufTensorInfo> = Vec::new();
    let mut i: usize = 0;
    while i < tensors.len()
        invariant
            i <= tensors@.len(),
            tensors@.len() == chunks@.len(),
            offsets@.len() == chunks@.len(),
            forall|j: int|
                0 <= j < chunks@.len() ==> offsets@[j] == payload_layout(
                    chunks@.map_values(|c: Vec<u8>| c@),
                ).1[j],
            infos@.len() == i,
            forall|j: int|
                0 <= j < i ==> {
                    &&& (#[trigger] infos@[j]).name@ == tensors@[j].name@
                    &&& infos@[j].dims@ == tensors@[j].dims@
                    &&& infos@[j].ggml_type == tensors@[j].scheme.spec_ggml_type_id()
                    &&& infos@[j].data_offset == payload_layout(
                        chunks@.map_values(|c: Vec<u8>| c@),
                    ).1[j]
                },
        decreases tensors.len() - i,
    {
        let entry = &tensors[i];
        infos.push(
            GgufTensorInfo {
                name: entry.name.clone(),
                dims: dims_to_vec(entry.dims.as_slice()),
                ggml_type: entry.scheme.ggml_type_id(),
                data_offset: offsets[i],
            },
        );
        i = i + 1;
    }
    (infos, payload)
}

} // verus!
