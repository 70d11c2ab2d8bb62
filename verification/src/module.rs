use vstd::prelude::*;

use crate::result::Error;

verus! {

broadcast use vstd::std_specs::vec::group_vec_axioms, vstd::seq::group_seq_axioms;

/// The mathematical shape of one decoded instruction: an opcode and its
/// operand words, in order.
pub ghost struct Instr {
    pub opcode: u32,
    pub operands: Seq<u32>,
}

/// One decoded instruction: the low 16 bits of its first word, and every
/// following word of the instruction.
#[derive(Debug, Clone, PartialEq)]
pub struct RawInstruction {
    pub opcode: u32,
    pub operands: Vec<u32>,
}

impl View for RawInstruction {
    type V = Instr;

    open spec fn view(&self) -> Instr {
        Instr { opcode: self.opcode, operands: self.operands@ }
    }
}

/// One decoded shader binary: a display name and the flat, ordered list of
/// its instructions. The list is fixed once the module is built.
pub struct Module {
    pub name: String,
    pub instructions: Vec<RawInstruction>,
}

impl View for Module {
    type V = Seq<Instr>;

    open spec fn view(&self) -> Seq<Instr> {
        Seq::new(self.instructions@.len(), |k: int| self.instructions@[k]@)
    }
}

/// The little-endian 32-bit word starting at byte `4 * w` of `bytes`.
pub open spec fn word_at(bytes: Seq<u8>, w: int) -> u32 {
    (bytes[4 * w] as u32) | ((bytes[4 * w + 1] as u32) << 8) | ((bytes[4 * w + 2] as u32) << 16)
        | ((bytes[4 * w + 3] as u32) << 24)
}

/// The word stream of a byte buffer, one word per four bytes.
pub open spec fn words_of(bytes: Seq<u8>) -> Seq<u32> {
    Seq::new(bytes.len() / 4, |w: int| word_at(bytes, w))
}

/// Whether the word stream from index `i` onward splits cleanly into
/// instructions: every declared word count is at least one and never runs
/// past the end of the buffer.
pub open spec fn parse_ok(words: Seq<u32>, i: int) -> bool
    decreases words.len() - i,
{
    if i >= words.len() {
        true
    } else {
        let wc = (words[i] >> 16) as int;
        if wc < 1 || i + wc > words.len() {
            false
        } else {
            parse_ok(words, i + wc)
        }
    }
}

/// The instructions of the word stream from index `i` onward, each one the
/// low 16 bits of its first word plus the following `word count - 1` words.
pub open spec fn parse_instrs(words: Seq<u32>, i: int) -> Seq<Instr>
    decreases words.len() - i,
{
    if i < 0 || i >= words.len() {
        Seq::empty()
    } else {
        let wc = (words[i] >> 16) as int;
        if wc < 1 || i + wc > words.len() {
            Seq::empty()
        } else {
            seq![
                Instr { opcode: words[i] & 0xFFFF, operands: words.subrange(i + 1, i + wc) },
            ] + parse_instrs(words, i + wc)
        }
    }
}

/// The declared word count of the first instruction that is empty or runs
/// past the end of the buffer.
pub open spec fn first_bad_count(words: Seq<u32>, i: int) -> usize
    decreases words.len() - i,
{
    if i >= words.len() {
        0
    } else {
        let wc = (words[i] >> 16) as int;
        if wc < 1 || i + wc > words.len() {
            wc as usize
        } else {
            first_bad_count(words, i + wc)
        }
    }
}

/// Why decoding the byte buffer fails, or `None` when it succeeds: too short
/// or ragged buffers, a wrong magic word, an unsupported version, and a
/// truncated or empty instruction, checked in that order.
pub open spec fn decode_err(bytes: Seq<u8>) -> Option<Error> {
    if bytes.len() < 20 || bytes.len() % 4 != 0 {
        Some(Error::InvalidFileLength(bytes.len() as usize))
    } else {
        let words = words_of(bytes);
        if words[0] != crate::MAGIC_NUMBER {
            Some(Error::IncorrectMagicWord(words[0]))
        } else if words[1] > crate::SPIRV_VERSION {
            Some(Error::InvalidVersion(words[1], crate::SPIRV_VERSION))
        } else if !parse_ok(words, 5) {
            Some(Error::InvalidOperandEnd(words.len() as usize, first_bad_count(words, 5)))
        } else {
            None
        }
    }
}

/// The words of one instruction, rebuilt from its decoded form: a first word
/// holding the word count and opcode, then the operands.
pub open spec fn instr_words(ins: Instr) -> Seq<u32> {
    seq![(((ins.operands.len() + 1) as u32) << 16) | ins.opcode] + ins.operands
}

/// The word stream rebuilt from a sequence of decoded instructions.
pub open spec fn reassembled(instrs: Seq<Instr>) -> Seq<u32>
    decreases instrs.len(),
{
    if instrs.len() == 0 {
        Seq::empty()
    } else {
        instr_words(instrs[0]) + reassembled(instrs.subrange(1, instrs.len() as int))
    }
}

/// Decoding loses no structure: rebuilding every decoded instruction from
/// its word count, opcode and operands reproduces, word for word, the part
/// of the stream the instructions came from.
pub proof fn lemma_decode_round_trip(words: Seq<u32>, i: int)
    requires
        0 <= i <= words.len(),
        parse_ok(words, i),
    ensures
        reassembled(parse_instrs(words, i)) == words.subrange(i, words.len() as int),
    decreases words.len() - i,
{
    if i == words.len() {
        assert(reassembled(parse_instrs(words, i)) =~= words.subrange(i, words.len() as int));
    } else {
        let w = words[i];
        let wc = (w >> 16) as int;
        lemma_decode_round_trip(words, i + wc);
        let ins = Instr { opcode: w & 0xFFFF, operands: words.subrange(i + 1, i + wc) };
        let rest = parse_instrs(words, i + wc);
        assert(parse_instrs(words, i) == seq![ins] + rest);
        assert((seq![ins] + rest).subrange(1, (seq![ins] + rest).len() as int) =~= rest);
        assert((seq![ins] + rest)[0] == ins);
        assert(ins.operands.len() + 1 == wc);
        assert((wc as u32) << 16 == w >> 16 << 16) by {
            assert(wc as u32 == w >> 16);
        }
        assert((w >> 16 << 16) | (w & 0xFFFF) == w) by (bit_vector);
        assert(instr_words(ins) =~= words.subrange(i, i + wc));
        assert(reassembled(parse_instrs(words, i)) == instr_words(ins) + reassembled(rest));
        assert(words.subrange(i, words.len() as int) =~= words.subrange(i, i + wc)
            + words.subrange(i + wc, words.len() as int));
    }
}

impl Module {
    /// Decodes one shader binary. The buffer must be at least the five-word
    /// header and a whole number of words; word 0 must be the magic
    /// constant; word 1 must be a supported version; and every instruction's
    /// declared word count must be at least one and stay inside the buffer.
    /// On success the module holds exactly the decoded instruction stream.
    pub fn from_code(name: String, shader_code: &[u8]) -> (r: Result<Module, Error>)
        ensures
            r is Ok <==> decode_err(shader_code@) is None,
            r matches Ok(m) ==> m.name@ == name@ && m@ == parse_instrs(words_of(shader_code@), 5),
            r matches Err(e) ==> Some(e) == decode_err(shader_code@),
    {
        let n = shader_code.len();
        if n < 20 || n % 4 != 0 {
            return Err(Error::InvalidFileLength(n));
        }
        let total: usize = n / 4;
        let mut words: Vec<u32> = Vec::new();
        let mut w: usize = 0;
        while w < total
            invariant
                total == shader_code@.len() / 4,
                n == shader_code@.len(),
                n % 4 == 0,
                20 <= n,
                w <= total,
                words@.len() == w,
                forall|k: int| 0 <= k < w ==> words@[k] == word_at(shader_code@, k),
            decreases total - w,
        {
            let b0 = shader_code[4 * w] as u32;
            let b1 = shader_code[4 * w + 1] as u32;
            let b2 = shader_code[4 * w + 2] as u32;
            let b3 = shader_code[4 * w + 3] as u32;
            words.push(b0 | (b1 << 8) | (b2 << 16) | (b3 << 24));
            w = w + 1;
        }
        assert(words@ =~= words_of(shader_code@));

        let magic = words[0];
        if magic != crate::MAGIC_NUMBER {
            return Err(Error::IncorrectMagicWord(magic));
        }
        let version = words[1];
        if version > crate::SPIRV_VERSION {
            return Err(Error::InvalidVersion(version, crate::SPIRV_VERSION));
        }
        // Words 2, 3 and 4 (generator, id bound, reserved) are consumed
        // without validation.

        let mut instructions: Vec<RawInstruction> = Vec::new();
        let mut i: usize = 5;
        while i < total
            invariant
                words@ == words_of(shader_code@),
                total == words@.len(),
                shader_code@.len() >= 20,
                shader_code@.len() % 4 == 0,
                words@[0] == crate::MAGIC_NUMBER,
                words@[1] <= crate::SPIRV_VERSION,
                5 <= i <= total,
                parse_ok(words@, 5) == parse_ok(words@, i as int),
                !parse_ok(words@, i as int) ==> first_bad_count(words@, 5) == first_bad_count(
                    words@,
                    i as int,
                ),
                parse_instrs(words@, 5) == Seq::new(instructions@.len(), |k: int| instructions@[k]@)
                    + parse_instrs(words@, i as int),
            decreases total - i,
        {
            let first = words[i];
            let wc = (first >> 16) as usize;
            let opcode = first & 0xFFFF;
            assert(wc == (words@[i as int] >> 16) as int);
            if wc == 0 || wc > total - i {
                proof {
                    assert(!parse_ok(words@, i as int));
                    assert(first_bad_count(words@, i as int) == wc);
                }
                return Err(Error::InvalidOperandEnd(total, wc));
            }
            let mut operands: Vec<u32> = Vec::new();
            let mut j: usize = 1;
            while j < wc
                invariant
                    1 <= j <= wc,
                    i + wc <= words@.len(),
                    words@.len() <= usize::MAX,
                    operands@.len() == j - 1,
                    forall|k: int| 0 <= k < j - 1 ==> operands@[k] == words@[i + 1 + k],
                decreases wc - j,
            {
                operands.push(words[i + j]);
                j = j + 1;
            }
            assert(operands@ =~= words@.subrange(i as int + 1, i as int + wc as int));
            let ghost prev = Seq::new(instructions@.len(), |k: int| instructions@[k]@);
            instructions.push(RawInstruction { opcode, operands });
            proof {
                let ins = Instr {
                    opcode: words@[i as int] & 0xFFFF,
                    operands: words@.subrange(i as int + 1, i as int + wc as int),
                };
                assert(Seq::new(instructions@.len(), |k: int| instructions@[k]@) =~= prev + seq![
                    ins,
                ]);
                assert(parse_instrs(words@, i as int) == seq![ins] + parse_instrs(
                    words@,
                    i as int + wc as int,
                ));
                assert(prev + seq![ins] + parse_instrs(words@, i as int + wc as int) =~= prev + (
                seq![ins] + parse_instrs(words@, i as int + wc as int)));
            }
            i = i + wc;
        }
        let m = Module { name, instructions };
        proof {
            assert(parse_ok(words_of(shader_code@), i as int));
            assert(parse_instrs(words_of(shader_code@), i as int) =~= Seq::empty());
            assert(m@ =~= parse_instrs(words_of(shader_code@), 5));
        }
        Ok(m)
    }
}


/// The four bytes of a word, least significant first.
pub open spec fn le_bytes(w: u32) -> Seq<u8> {
    seq![
        (w & 0xFF) as u8,
        ((w >> 8) & 0xFF) as u8,
        ((w >> 16) & 0xFF) as u8,
        ((w >> 24) & 0xFF) as u8,
    ]
}

/// The bytes packed into the operand words from index `j` onward, in word
/// order, least significant byte of each word first.
pub open spec fn packed_bytes(ops: Seq<u32>, j: int) -> Seq<u8>
    decreases ops.len() - j,
{
    if j < 0 || j >= ops.len() {
        Seq::empty()
    } else {
        le_bytes(ops[j]) + packed_bytes(ops, j + 1)
    }
}

/// The bytes before the first nul, or the whole sequence when it has none.
pub open spec fn prefix_before_nul(bytes: Seq<u8>) -> Seq<u8>
    decreases bytes.len(),
{
    if bytes.len() == 0 {
        Seq::empty()
    } else if bytes[0] == 0 {
        Seq::empty()
    } else {
        seq![bytes[0]] + prefix_before_nul(bytes.subrange(1, bytes.len() as int))
    }
}

/// What `String::from_utf8_lossy` turns a byte sequence into.
pub uninterp spec fn utf8_lossy_of(bytes: Seq<u8>) -> Seq<char>;

/// The characters of the nul-terminated string packed into the operand words
/// from index `j` onward.
pub open spec fn str_lit_chars(ops: Seq<u32>, j: int) -> Seq<char> {
    utf8_lossy_of(prefix_before_nul(packed_bytes(ops, j)))
}

/// Relies on String::from_utf8_lossy: the result is a function of the bytes
/// alone, and bytes that are all ASCII are valid UTF-8, so they pass through
/// unchanged, one character per byte.
#[verifier::external_body]
fn utf8_lossy(bytes: &Vec<u8>) -> (r: String)
    ensures
        r@ == utf8_lossy_of(bytes@),
        (forall|k: int| 0 <= k < bytes@.len() ==> bytes@[k] < 128) ==> r@ == bytes@.map_values(
            |b: u8| b as char,
        ),
{
    String::from_utf8_lossy(bytes.as_slice()).into_owned()
}

/// A nonempty byte sequence whose bytes are nonzero up to `idx`, which is
/// either the end or the first nul, has exactly the bytes before `idx` in
/// front of its first nul.
proof fn lemma_prefix_is_subrange(s: Seq<u8>, idx: int)
    requires
        0 <= idx <= s.len(),
        forall|k: int| 0 <= k < idx ==> s[k] != 0,
        idx < s.len() ==> s[idx] == 0,
    ensures
        prefix_before_nul(s) == s.subrange(0, idx),
    decreases idx,
{
    if idx == 0 {
        assert(prefix_before_nul(s) =~= s.subrange(0, 0));
    } else {
        let tail = s.subrange(1, s.len() as int);
        lemma_prefix_is_subrange(tail, idx - 1);
        assert(seq![s[0]] + tail.subrange(0, idx - 1) =~= s.subrange(0, idx));
    }
}

/// Collects the nul-terminated string packed into `operands` from word
/// index `from` onward.
fn parse_string_literal(operands: &[u32], from: usize) -> (r: String)
    ensures
        r@ == str_lit_chars(operands@, from as int),
{
    let len = operands.len();
    let mut all: Vec<u8> = Vec::new();
    let mut j: usize = from;
    if j > len {
        j = len;
    }
    proof {
        if from >= operands@.len() {
            assert(packed_bytes(operands@, from as int) =~= Seq::empty());
        }
    }
    while j < len
        invariant
            from <= len ==> from <= j,
            j <= len,
            len == operands@.len(),
            packed_bytes(operands@, from as int) == all@ + packed_bytes(operands@, j as int),
        decreases len - j,
    {
        let w = operands[j];
        all.push((w & 0xFF) as u8);
        all.push(((w >> 8) & 0xFF) as u8);
        all.push(((w >> 16) & 0xFF) as u8);
        all.push(((w >> 24) & 0xFF) as u8);
        proof {
            assert(all@.subrange(all@.len() - 4, all@.len() as int) =~= le_bytes(
                operands@[j as int],
            ));
            assert(all@ =~= all@.subrange(0, all@.len() - 4) + le_bytes(operands@[j as int]));
            assert(packed_bytes(operands@, j as int) == le_bytes(operands@[j as int])
                + packed_bytes(operands@, j as int + 1));
            assert(all@.subrange(0, all@.len() - 4) + (le_bytes(operands@[j as int])
                + packed_bytes(operands@, j as int + 1)) =~= all@ + packed_bytes(
                operands@,
                j as int + 1,
            ));
        }
        j = j + 1;
    }
    proof {
        assert(packed_bytes(operands@, j as int) =~= Seq::empty());
        assert(packed_bytes(operands@, from as int) =~= all@);
    }
    let mut idx: usize = 0;
    while idx < all.len() && all[idx] != 0
        invariant
            0 <= idx <= all@.len(),
            forall|k: int| 0 <= k < idx ==> all@[k] != 0,
        decreases all@.len() - idx,
    {
        idx = idx + 1;
    }
    let mut name_bytes: Vec<u8> = Vec::new();
    let mut k: usize = 0;
    while k < idx
        invariant
            0 <= k <= idx <= all@.len(),
            name_bytes@ == all@.subrange(0, k as int),
        decreases idx - k,
    {
        proof {
            assert(all@.subrange(0, k as int).push(all@[k as int]) =~= all@.subrange(
                0,
                k as int + 1,
            ));
        }
        name_bytes.push(all[k]);
        k = k + 1;
    }
    proof {
        lemma_prefix_is_subrange(all@, idx as int);
    }
    utf8_lossy(&name_bytes)
}

/// Whether an instruction is a name record for `id`.
pub open spec fn is_name_for(ins: Instr, id: u32) -> bool {
    &&& ins.opcode == crate::OP_NAME
    &&& ins.operands.len() >= 1
    &&& ins.operands[0] == id
}

/// The name attached to `id` by the first name record at or after index `k`.
pub open spec fn name_of_from(instrs: Seq<Instr>, id: u32, k: int) -> Option<Seq<char>>
    decreases instrs.len() - k,
{
    if k < 0 || k >= instrs.len() {
        None
    } else if is_name_for(instrs[k], id) {
        Some(str_lit_chars(instrs[k].operands, 1))
    } else {
        name_of_from(instrs, id, k + 1)
    }
}

/// The name attached to `id` by the module's first matching name record.
pub open spec fn name_of(instrs: Seq<Instr>, id: u32) -> Option<Seq<char>> {
    name_of_from(instrs, id, 0)
}

impl Module {
    /// The printable name the module attaches to `type_id`, if any.
    pub fn get_type_name_from_id(&self, type_id: u32) -> (r: Option<String>)
        ensures
            r matches Some(s) ==> name_of(self@, type_id) == Some(s@),
            r is None ==> name_of(self@, type_id) is None,
    {
        let count = self.instructions.len();
        let mut k: usize = 0;
        while k < count
            invariant
                0 <= k <= count,
                count == self@.len(),
                name_of(self@, type_id) == name_of_from(self@, type_id, k as int),
            decreases count - k,
        {
            let ins = &self.instructions[k];
            if ins.opcode == crate::OP_NAME && ins.operands.len() >= 1 && ins.operands[0]
                == type_id {
                return Some(parse_string_literal(ins.operands.as_slice(), 1));
            }
            k = k + 1;
        }
        None
    }
}


/// The mathematical shape of a fully resolved type: the same tree as
/// `TypeInfo`, with names as character sequences.
pub ghost enum TypeModel {
    Void,
    Bool,
    Int { name: Seq<char>, width: u32, signed: bool },
    Float { name: Seq<char>, width: u32 },
    Vec { name: Seq<char>, component_type: Box<TypeModel>, component_count: u32 },
    Mat { name: Seq<char>, col_type: Box<TypeModel>, col_count: u32 },
    Struct { name: Seq<char>, members: Seq<MemberModel> },
    Pointer { ptr_type: Box<TypeModel> },
    Image {
        sampled_type: Box<TypeModel>,
        format: u32,
        depth: u32,
        dim: u32,
        arrayed: bool,
        multisampled: bool,
        sampled: u32,
    },
    Sampler,
    SampledImage { image_type: Box<TypeModel> },
    Array { element_type: Box<TypeModel>, element_count: u32 },
    RuntimeArray { element_type: Box<TypeModel> },
}

/// The mathematical shape of one resolved structure member.
pub ghost struct MemberModel {
    pub field_type: TypeModel,
    pub field_offset: u32,
    pub field_name: Seq<char>,
}

/// A fully resolved type: a closed tree with no ids left in it. Composite
/// variants own their component types outright.
#[derive(Debug, PartialEq, Eq, PartialOrd, Ord)]
pub enum TypeInfo {
    Void,
    Bool,
    Int { name: String, width: u32, signed: bool },
    Float { name: String, width: u32 },
    Vec { name: String, component_type: Box<TypeInfo>, component_count: u32 },
    Mat { name: String, col_type: Box<TypeInfo>, col_count: u32 },
    Struct { name: String, members: Vec<StructMemberInfo> },
    Pointer { ptr_type: Box<TypeInfo> },
    Image {
        sampled_type: Box<TypeInfo>,
        format: u32,
        depth: u32,
        dim: u32,
        arrayed: bool,
        multisampled: bool,
        sampled: u32,
    },
    Sampler,
    SampledImage { image_type: Box<TypeInfo> },
    Array { element_type: Box<TypeInfo>, element_count: u32 },
    RuntimeArray { element_type: Box<TypeInfo> },
}

/// One resolved structure member: its type, its byte offset, and its name,
/// in declaration order within the structure.
#[derive(Debug, PartialEq, Eq, PartialOrd, Ord)]
pub struct StructMemberInfo {
    pub field_type: TypeInfo,
    pub field_offset: u32,
    pub field_name: String,
}

impl StructMemberInfo {
    /// The mathematical shape of this member.
    pub open spec fn model(&self) -> MemberModel
        decreases self,
    {
        MemberModel {
            field_type: self.field_type.model(),
            field_offset: self.field_offset,
            field_name: self.field_name@,
        }
    }
}

impl TypeInfo {
    /// The mathematical shape of this type tree.
    pub open spec fn model(&self) -> TypeModel
        decreases self,
    {
        match self {
            TypeInfo::Void => TypeModel::Void,
            TypeInfo::Bool => TypeModel::Bool,
            TypeInfo::Int { name, width, signed } => TypeModel::Int {
                name: name@,
                width: *width,
                signed: *signed,
            },
            TypeInfo::Float { name, width } => TypeModel::Float { name: name@, width: *width },
            TypeInfo::Vec { name, component_type, component_count } => TypeModel::Vec {
                name: name@,
                component_type: Box::new(component_type.model()),
                component_count: *component_count,
            },
            TypeInfo::Mat { name, col_type, col_count } => TypeModel::Mat {
                name: name@,
                col_type: Box::new(col_type.model()),
                col_count: *col_count,
            },
            TypeInfo::Struct { name, members } => TypeModel::Struct {
                name: name@,
                members: members_seq_model(members@),
            },
            TypeInfo::Pointer { ptr_type } => TypeModel::Pointer {
                ptr_type: Box::new(ptr_type.model()),
            },
            TypeInfo::Image { sampled_type, format, depth, dim, arrayed, multisampled, sampled } => {
                TypeModel::Image {
                    sampled_type: Box::new(sampled_type.model()),
                    format: *format,
                    depth: *depth,
                    dim: *dim,
                    arrayed: *arrayed,
                    multisampled: *multisampled,
                    sampled: *sampled,
                }
            },
            TypeInfo::Sampler => TypeModel::Sampler,
            TypeInfo::SampledImage { image_type } => TypeModel::SampledImage {
                image_type: Box::new(image_type.model()),
            },
            TypeInfo::Array { element_type, element_count } => TypeModel::Array {
                element_type: Box::new(element_type.model()),
                element_count: *element_count,
            },
            TypeInfo::RuntimeArray { element_type } => TypeModel::RuntimeArray {
                element_type: Box::new(element_type.model()),
            },
        }
    }
}

/// The models of a sequence of resolved members, in order.
pub open spec fn members_seq_model(ms: Seq<StructMemberInfo>) -> Seq<MemberModel>
    decreases ms,
{
    if ms.len() == 0 {
        Seq::empty()
    } else {
        seq![ms[0].model()] + members_seq_model(ms.subrange(1, ms.len() as int))
    }
}

/// `members_seq_model` is the pointwise model of its argument.
pub proof fn lemma_members_seq_model(ms: Seq<StructMemberInfo>)
    ensures
        members_seq_model(ms).len() == ms.len(),
        forall|k: int| 0 <= k < ms.len() ==> #[trigger] members_seq_model(ms)[k] == ms[k].model(),
    decreases ms.len(),
{
    if ms.len() > 0 {
        lemma_members_seq_model(ms.subrange(1, ms.len() as int));
    }
}

/// Whether an exec resolution result carries exactly the model's shape.
pub open spec fn type_result_models(r: Result<TypeInfo, Error>, m: Result<TypeModel, Error>) -> bool {
    match r {
        Ok(t) => m matches Ok(tm) && t.model() == tm,
        Err(e) => m matches Err(em) && em == e,
    }
}

/// The decimal digits of `n`, most significant first, as ASCII bytes.
pub open spec fn dec_bytes(n: nat) -> Seq<u8>
    decreases n,
{
    if n < 10 {
        seq![(48 + n) as u8]
    } else {
        dec_bytes(n / 10) + seq![(48 + n % 10) as u8]
    }
}

/// The characters of an ASCII byte sequence, one per byte.
pub open spec fn ascii_chars(bytes: Seq<u8>) -> Seq<char> {
    bytes.map_values(|b: u8| b as char)
}

/// The name a vector type falls back to when the module names it nowhere:
/// `vec` followed by the component count in decimal.
pub open spec fn vec_default_name(count: u32) -> Seq<char> {
    ascii_chars(seq![118u8, 101u8, 99u8] + dec_bytes(count as nat))
}

/// The name a matrix type falls back to when the module names it nowhere:
/// `mat` followed by the column count in decimal.
pub open spec fn mat_default_name(count: u32) -> Seq<char> {
    ascii_chars(seq![109u8, 97u8, 116u8] + dec_bytes(count as nat))
}

/// Every decimal digit byte is an ASCII digit.
proof fn lemma_dec_bytes_ascii(n: nat)
    ensures
        forall|k: int| 0 <= k < dec_bytes(n).len() ==> 48 <= #[trigger] dec_bytes(n)[k] < 58,
    decreases n,
{
    if n < 10 {
        assert(dec_bytes(n) =~= seq![(48 + n) as u8]);
    } else {
        lemma_dec_bytes_ascii(n / 10);
        let head = dec_bytes(n / 10);
        let full = dec_bytes(n);
        assert(full == head + seq![(48 + n % 10) as u8]);
        assert forall|k: int| 0 <= k < full.len() implies 48 <= #[trigger] full[k] < 58 by {
            if k < head.len() {
                assert(full[k] == head[k]);
            } else {
                assert(full[k] == (48 + n % 10) as u8);
            }
        }
    }
}

/// Appends the decimal digits of `n` to `out`.
fn push_dec(n: u32, out: &mut Vec<u8>)
    ensures
        final(out)@ == old(out)@ + dec_bytes(n as nat),
    decreases n,
{
    if n < 10 {
        out.push((48 + n) as u8);
        assert(out@ =~= old(out)@ + dec_bytes(n as nat));
    } else {
        push_dec(n / 10, out);
        out.push((48 + (n % 10)) as u8);
        assert(out@ =~= old(out)@ + dec_bytes((n as nat) / 10) + seq![(48 + (n as nat) % 10) as u8]);
        assert(out@ =~= old(out)@ + dec_bytes(n as nat));
    }
}

/// Builds the fallback name of a counted type: a three-letter ASCII tag
/// followed by the count in decimal.
fn counted_name(tag: [u8; 3], count: u32) -> (r: String)
    requires
        tag@[0] < 128,
        tag@[1] < 128,
        tag@[2] < 128,
    ensures
        r@ == ascii_chars(tag@ + dec_bytes(count as nat)),
{
    let mut bytes: Vec<u8> = Vec::new();
    bytes.push(tag[0]);
    bytes.push(tag[1]);
    bytes.push(tag[2]);
    push_dec(count, &mut bytes);
    proof {
        lemma_dec_bytes_ascii(count as nat);
        assert(bytes@ =~= tag@ + dec_bytes(count as nat));
        assert(forall|k: int| 0 <= k < bytes@.len() ==> bytes@[k] < 128);
    }
    let r = utf8_lossy(&bytes);
    proof {
        assert(r@ =~= ascii_chars(bytes@));
    }
    r
}

/// Whether an opcode declares a type.
pub open spec fn is_type_opcode(op: u32) -> bool {
    ||| op == crate::OP_TYPE_VOID
    ||| op == crate::OP_TYPE_BOOL
    ||| op == crate::OP_TYPE_INT
    ||| op == crate::OP_TYPE_FLOAT
    ||| op == crate::OP_TYPE_VECTOR
    ||| op == crate::OP_TYPE_MATRIX
    ||| op == crate::OP_TYPE_STRUCT
    ||| op == crate::OP_TYPE_POINTER
    ||| op == crate::OP_TYPE_ARRAY
    ||| op == crate::OP_TYPE_RUNTIME_ARRAY
    ||| op == crate::OP_TYPE_IMAGE
    ||| op == crate::OP_TYPE_SAMPLER
    ||| op == crate::OP_TYPE_SAMPLED_IMAGE
}

/// Whether an opcode declares a type.
fn type_opcode(op: u32) -> (b: bool)
    ensures
        b == is_type_opcode(op),
{
    op == crate::OP_TYPE_VOID || op == crate::OP_TYPE_BOOL || op == crate::OP_TYPE_INT || op
        == crate::OP_TYPE_FLOAT || op == crate::OP_TYPE_VECTOR || op == crate::OP_TYPE_MATRIX || op
        == crate::OP_TYPE_STRUCT || op == crate::OP_TYPE_POINTER || op == crate::OP_TYPE_ARRAY || op
        == crate::OP_TYPE_RUNTIME_ARRAY || op == crate::OP_TYPE_IMAGE || op
        == crate::OP_TYPE_SAMPLER || op == crate::OP_TYPE_SAMPLED_IMAGE
}

/// Whether an instruction declares the type with result id `id`.
pub open spec fn is_type_def_for(ins: Instr, id: u32) -> bool {
    &&& ins.operands.len() >= 1
    &&& ins.operands[0] == id
    &&& is_type_opcode(ins.opcode)
}

/// The first instruction at or after index `k` that declares `id`.
pub open spec fn find_type_def_from(instrs: Seq<Instr>, id: u32, k: int) -> Option<Instr>
    decreases instrs.len() - k,
{
    if k < 0 || k >= instrs.len() {
        None
    } else if is_type_def_for(instrs[k], id) {
        Some(instrs[k])
    } else {
        find_type_def_from(instrs, id, k + 1)
    }
}

/// The module's first instruction that declares `id`.
pub open spec fn find_type_def(instrs: Seq<Instr>, id: u32) -> Option<Instr> {
    find_type_def_from(instrs, id, 0)
}

/// Whether an instruction names member `idx` of structure `sid`.
pub open spec fn is_member_name_for(ins: Instr, sid: u32, idx: int) -> bool {
    &&& ins.opcode == crate::OP_MEMBER_NAME
    &&& ins.operands.len() >= 2
    &&& ins.operands[0] == sid
    &&& ins.operands[1] == idx
}

/// The name of member `idx` of structure `sid` from the first matching
/// record at or after index `k`.
pub open spec fn member_name_from(instrs: Seq<Instr>, sid: u32, idx: int, k: int) -> Option<
    Seq<char>,
>
    decreases instrs.len() - k,
{
    if k < 0 || k >= instrs.len() {
        None
    } else if is_member_name_for(instrs[k], sid, idx) {
        Some(str_lit_chars(instrs[k].operands, 2))
    } else {
        member_name_from(instrs, sid, idx, k + 1)
    }
}

/// The name the module attaches to member `idx` of structure `sid`.
pub open spec fn member_name_of(instrs: Seq<Instr>, sid: u32, idx: int) -> Option<Seq<char>> {
    member_name_from(instrs, sid, idx, 0)
}

/// Whether an instruction carries the byte offset of member `idx` of
/// structure `sid`.
pub open spec fn is_member_offset_for(ins: Instr, sid: u32, idx: int) -> bool {
    &&& ins.opcode == crate::OP_MEMBER_DECORATE
    &&& ins.operands.len() >= 4
    &&& ins.operands[2] == crate::DECORATION_OFFSET
    &&& ins.operands[0] == sid
    &&& ins.operands[1] == idx
}

/// The byte offset of member `idx` of structure `sid` from the first
/// matching record at or after index `k`.
pub open spec fn member_offset_from(instrs: Seq<Instr>, sid: u32, idx: int, k: int) -> Option<u32>
    decreases instrs.len() - k,
{
    if k < 0 || k >= instrs.len() {
        None
    } else if is_member_offset_for(instrs[k], sid, idx) {
        Some(instrs[k].operands[3])
    } else {
        member_offset_from(instrs, sid, idx, k + 1)
    }
}

/// The byte offset the module attaches to member `idx` of structure `sid`.
pub open spec fn member_offset_of(instrs: Seq<Instr>, sid: u32, idx: int) -> Option<u32> {
    member_offset_from(instrs, sid, idx, 0)
}

/// The members of a structure declaration that join all three facts - a
/// name, a byte offset, and a resolvable type - from member index `k`
/// onward. A member missing any of the three is dropped.
pub open spec fn members_model(
    instrs: Seq<Instr>,
    sid: u32,
    ops: Seq<u32>,
    k: int,
    fuel: nat,
) -> Seq<MemberModel>
    decreases fuel, 1int, ops.len() - k,
{
    if k < 0 || k + 1 >= ops.len() {
        Seq::empty()
    } else {
        let rest = members_model(instrs, sid, ops, k + 1, fuel);
        let nm = member_name_of(instrs, sid, k);
        let off = member_offset_of(instrs, sid, k);
        let ft = resolve_model(instrs, ops[k + 1], fuel);
        if nm is Some && off is Some && ft is Ok {
            seq![
                MemberModel {
                    field_type: ft.unwrap(),
                    field_offset: off.unwrap(),
                    field_name: nm.unwrap(),
                },
            ] + rest
        } else {
            rest
        }
    }
}

/// What resolving the type declared by `ins` yields, with `fuel` bounding
/// how deep nested type references may go.
pub open spec fn resolve_def(instrs: Seq<Instr>, ins: Instr, id: u32, fuel: nat) -> Result<
    TypeModel,
    Error,
>
    decreases fuel, 2int, 0int,
{
    let ops = ins.operands;
    if ins.opcode == crate::OP_TYPE_VOID {
        Ok(TypeModel::Void)
    } else if ins.opcode == crate::OP_TYPE_BOOL {
        Ok(TypeModel::Bool)
    } else if ins.opcode == crate::OP_TYPE_INT {
        if ops.len() < 3 {
            Err(Error::InvalidType)
        } else {
            let width = ops[1];
            let signed = ops[2] == 1;
            match name_of(instrs, id) {
                Some(n) => Ok(TypeModel::Int { name: n, width, signed }),
                None => if width == 32 && signed {
                    Ok(TypeModel::Int { name: "int"@, width, signed })
                } else if width == 32 && !signed {
                    Ok(TypeModel::Int { name: "uint"@, width, signed })
                } else {
                    Err(Error::NameMissing(id))
                },
            }
        }
    } else if ins.opcode == crate::OP_TYPE_FLOAT {
        if ops.len() < 2 {
            Err(Error::InvalidType)
        } else {
            let width = ops[1];
            match name_of(instrs, id) {
                Some(n) => Ok(TypeModel::Float { name: n, width }),
                None => if width == 32 {
                    Ok(TypeModel::Float { name: "float"@, width })
                } else if width == 64 {
                    Ok(TypeModel::Float { name: "double"@, width })
                } else {
                    Err(Error::NameMissing(id))
                },
            }
        }
    } else if ins.opcode == crate::OP_TYPE_VECTOR {
        if ops.len() < 3 {
            Err(Error::InvalidType)
        } else {
            match resolve_model(instrs, ops[1], fuel) {
                Err(e) => Err(e),
                Ok(component) => {
                    let count = ops[2];
                    let name = match name_of(instrs, id) {
                        Some(n) => n,
                        None => vec_default_name(count),
                    };
                    Ok(TypeModel::Vec {
                        name,
                        component_type: Box::new(component),
                        component_count: count,
                    })
                },
            }
        }
    } else if ins.opcode == crate::OP_TYPE_MATRIX {
        if ops.len() < 3 {
            Err(Error::InvalidType)
        } else {
            match resolve_model(instrs, ops[1], fuel) {
                Err(e) => Err(e),
                Ok(col) => {
                    let count = ops[2];
                    let name = match name_of(instrs, id) {
                        Some(n) => n,
                        None => mat_default_name(count),
                    };
                    Ok(TypeModel::Mat { name, col_type: Box::new(col), col_count: count })
                },
            }
        }
    } else if ins.opcode == crate::OP_TYPE_STRUCT {
        match name_of(instrs, id) {
            None => Err(Error::NameMissing(id)),
            Some(name) => if ops.len() <= 1 {
                Ok(TypeModel::Struct { name, members: Seq::empty() })
            } else {
                let members = members_model(instrs, id, ops, 0, fuel);
                if members.len() < ops.len() - 1 {
                    Err(Error::InvalidType)
                } else {
                    Ok(TypeModel::Struct { name, members })
                }
            },
        }
    } else if ins.opcode == crate::OP_TYPE_POINTER {
        if ops.len() < 3 {
            Err(Error::InvalidType)
        } else {
            match resolve_model(instrs, ops[2], fuel) {
                Err(e) => Err(e),
                Ok(pointee) => Ok(TypeModel::Pointer { ptr_type: Box::new(pointee) }),
            }
        }
    } else if ins.opcode == crate::OP_TYPE_IMAGE {
        if ops.len() < 8 {
            Err(Error::InvalidType)
        } else {
            match resolve_model(instrs, ops[1], fuel) {
                Err(e) => Err(e),
                Ok(sampled_type) => Ok(TypeModel::Image {
                    sampled_type: Box::new(sampled_type),
                    format: ops[7],
                    depth: ops[3],
                    dim: ops[2],
                    arrayed: ops[4] == 1,
                    multisampled: ops[5] == 1,
                    sampled: ops[6],
                }),
            }
        }
    } else if ins.opcode == crate::OP_TYPE_SAMPLER {
        Ok(TypeModel::Sampler)
    } else if ins.opcode == crate::OP_TYPE_SAMPLED_IMAGE {
        if ops.len() < 2 {
            Err(Error::InvalidType)
        } else {
            match resolve_model(instrs, ops[1], fuel) {
                Err(e) => Err(e),
                Ok(image) => Ok(TypeModel::SampledImage { image_type: Box::new(image) }),
            }
        }
    } else if ins.opcode == crate::OP_TYPE_ARRAY {
        if ops.len() < 3 {
            Err(Error::InvalidType)
        } else {
            match resolve_model(instrs, ops[1], fuel) {
                Err(e) => Err(e),
                Ok(element) => Ok(TypeModel::Array {
                    element_type: Box::new(element),
                    element_count: ops[2],
                }),
            }
        }
    } else if ins.opcode == crate::OP_TYPE_RUNTIME_ARRAY {
        if ops.len() < 2 {
            Err(Error::InvalidType)
        } else {
            match resolve_model(instrs, ops[1], fuel) {
                Err(e) => Err(e),
                Ok(element) => Ok(TypeModel::RuntimeArray { element_type: Box::new(element) }),
            }
        }
    } else {
        Err(Error::InvalidType)
    }
}

/// What resolving `id` against the instruction stream yields: the tree built
/// by the first declaration of `id`, or the error that stops it. `fuel`
/// bounds how deep nested references may go; the stream's length plus one is
/// always deep enough for the cycle-free streams the format allows.
pub open spec fn resolve_model(instrs: Seq<Instr>, id: u32, fuel: nat) -> Result<TypeModel, Error>
    decreases fuel, 0int, 0int,
{
    if fuel == 0 {
        Err(Error::InvalidType)
    } else {
        match find_type_def(instrs, id) {
            None => Err(Error::InvalidType),
            Some(ins) => resolve_def(instrs, ins, id, (fuel - 1) as nat),
        }
    }
}

/// The fuel the resolver grants: one level per instruction, plus one.
pub open spec fn fuel_of(instrs: Seq<Instr>) -> nat {
    if instrs.len() + 1 <= usize::MAX {
        instrs.len() + 1
    } else {
        usize::MAX as nat
    }
}

impl Module {
    /// The name of member `idx` of structure `sid`, if the module has one.
    fn get_member_name(&self, sid: u32, idx: usize) -> (r: Option<String>)
        ensures
            r matches Some(s) ==> member_name_of(self@, sid, idx as int) == Some(s@),
            r is None ==> member_name_of(self@, sid, idx as int) is None,
    {
        let count = self.instructions.len();
        let mut k: usize = 0;
        while k < count
            invariant
                0 <= k <= count,
                count == self@.len(),
                member_name_of(self@, sid, idx as int) == member_name_from(
                    self@,
                    sid,
                    idx as int,
                    k as int,
                ),
            decreases count - k,
        {
            let ins = &self.instructions[k];
            if ins.opcode == crate::OP_MEMBER_NAME && ins.operands.len() >= 2 && ins.operands[0]
                == sid && ins.operands[1] as usize == idx {
                return Some(parse_string_literal(ins.operands.as_slice(), 2));
            }
            k = k + 1;
        }
        None
    }

    /// The byte offset of member `idx` of structure `sid`, if the module
    /// decorates it with one.
    fn get_member_offset(&self, sid: u32, idx: usize) -> (r: Option<u32>)
        ensures
            member_offset_of(self@, sid, idx as int) == r,
    {
        let count = self.instructions.len();
        let mut k: usize = 0;
        while k < count
            invariant
                0 <= k <= count,
                count == self@.len(),
                member_offset_of(self@, sid, idx as int) == member_offset_from(
                    self@,
                    sid,
                    idx as int,
                    k as int,
                ),
            decreases count - k,
        {
            let ins = &self.instructions[k];
            if ins.opcode == crate::OP_MEMBER_DECORATE && ins.operands.len() >= 4 && ins.operands[2]
                == crate::DECORATION_OFFSET && ins.operands[0] == sid && ins.operands[1] as usize
                == idx {
                return Some(ins.operands[3]);
            }
            k = k + 1;
        }
        None
    }

    /// Resolves `type_id` with an explicit bound on reference depth.
    fn resolve_with_fuel(&self, type_id: u32, fuel: usize) -> (r: Result<TypeInfo, Error>)
        ensures
            type_result_models(r, resolve_model(self@, type_id, fuel as nat)),
        decreases fuel,
    {
        if fuel == 0 {
            return Err(Error::InvalidType);
        }
        let inner_fuel = fuel - 1;
        let count = self.instructions.len();
        let mut k: usize = 0;
        while k < count
            invariant
                0 <= k <= count,
                count == self@.len(),
                fuel >= 1,
                inner_fuel == fuel - 1,
                find_type_def(self@, type_id) == find_type_def_from(self@, type_id, k as int),
            decreases count - k,
        {
            let ins = &self.instructions[k];
            let opslen = ins.operands.len();
            if opslen >= 1 && ins.operands[0] == type_id && type_opcode(ins.opcode) {
                assert(find_type_def(self@, type_id) == Some(self@[k as int]));
                let ghost def = self@[k as int];
                let ghost model = resolve_def(self@, def, type_id, inner_fuel as nat);
                assert(resolve_model(self@, type_id, fuel as nat) == model);
                if ins.opcode == crate::OP_TYPE_VOID {
                    return Ok(TypeInfo::Void);
                } else if ins.opcode == crate::OP_TYPE_BOOL {
                    return Ok(TypeInfo::Bool);
                } else if ins.opcode == crate::OP_TYPE_INT {
                    if opslen < 3 {
                        return Err(Error::InvalidType);
                    }
                    let width = ins.operands[1];
                    let signed = ins.operands[2] == 1;
                    let name: String = match self.get_type_name_from_id(type_id) {
                        Some(n) => n,
                        None => if width == 32 && signed {
                            "int".to_owned()
                        } else if width == 32 && !signed {
                            "uint".to_owned()
                        } else {
                            return Err(Error::NameMissing(type_id));
                        },
                    };
                    return Ok(TypeInfo::Int { name, width, signed });
                } else if ins.opcode == crate::OP_TYPE_FLOAT {
                    if opslen < 2 {
                        return Err(Error::InvalidType);
                    }
                    let width = ins.operands[1];
                    let name: String = match self.get_type_name_from_id(type_id) {
                        Some(n) => n,
                        None => if width == 32 {
                            "float".to_owned()
                        } else if width == 64 {
                            "double".to_owned()
                        } else {
                            return Err(Error::NameMissing(type_id));
                        },
                    };
                    return Ok(TypeInfo::Float { name, width });
                } else if ins.opcode == crate::OP_TYPE_VECTOR {
                    if opslen < 3 {
                        return Err(Error::InvalidType);
                    }
                    let component = match self.resolve_with_fuel(ins.operands[1], inner_fuel) {
                        Ok(t) => t,
                        Err(e) => {
                            return Err(e);
                        },
                    };
                    let count_ops = ins.operands[2];
                    let name: String = match self.get_type_name_from_id(type_id) {
                        Some(n) => n,
                        None => counted_name([118, 101, 99], count_ops),
                    };
                    return Ok(TypeInfo::Vec {
                        name,
                        component_type: Box::new(component),
                        component_count: count_ops,
                    });
                } else if ins.opcode == crate::OP_TYPE_MATRIX {
                    if opslen < 3 {
                        return Err(Error::InvalidType);
                    }
                    let col = match self.resolve_with_fuel(ins.operands[1], inner_fuel) {
                        Ok(t) => t,
                        Err(e) => {
                            return Err(e);
                        },
                    };
                    let count_ops = ins.operands[2];
                    let name: String = match self.get_type_name_from_id(type_id) {
                        Some(n) => n,
                        None => counted_name([109, 97, 116], count_ops),
                    };
                    return Ok(TypeInfo::Mat {
                        name,
                        col_type: Box::new(col),
                        col_count: count_ops,
                    });
                } else if ins.opcode == crate::OP_TYPE_STRUCT {
                    let name: String = match self.get_type_name_from_id(type_id) {
                        Some(n) => n,
                        None => {
                            return Err(Error::NameMissing(type_id));
                        },
                    };
                    if opslen <= 1 {
                        let empty_members: Vec<StructMemberInfo> = Vec::new();
                        let out = TypeInfo::Struct { name, members: empty_members };
                        proof {
                            lemma_members_seq_model(empty_members@);
                            assert(members_seq_model(empty_members@) =~= Seq::<
                                MemberModel,
                            >::empty());
                        }
                        return Ok(out);
                    }
                    let declared = opslen - 1;
                    let mut members: Vec<StructMemberInfo> = Vec::new();
                    let mut midx: usize = 0;
                    while midx < declared
                        invariant
                            0 <= midx <= declared,
                            fuel >= 1,
                            inner_fuel == fuel - 1,
                            declared == def.operands.len() - 1,
                            def.operands.len() >= 2,
                            self.instructions@.len() == self@.len(),
                            k < self@.len(),
                            self@[k as int] == def,
                            self.instructions@[k as int]@ == def,
                            members_model(self@, type_id, def.operands, 0, inner_fuel as nat)
                                == Seq::new(members@.len(), |q: int| members@[q].model())
                                + members_model(
                                self@,
                                type_id,
                                def.operands,
                                midx as int,
                                inner_fuel as nat,
                            ),
                        decreases declared - midx,
                    {
                        let ins2 = &self.instructions[k];
                        let member_type_id = ins2.operands[midx + 1];
                        let field_name = self.get_member_name(type_id, midx);
                        let field_offset = self.get_member_offset(type_id, midx);
                        let field_type = self.resolve_with_fuel(member_type_id, inner_fuel);
                        let ghost prev = Seq::new(members@.len(), |q: int| members@[q].model());
                        match (field_name, field_type, field_offset) {
                            (Some(n), Ok(ty), Some(o)) => {
                                members.push(
                                    StructMemberInfo {
                                        field_type: ty,
                                        field_offset: o,
                                        field_name: n,
                                    },
                                );
                                proof {
                                    let m = members_model(
                                        self@,
                                        type_id,
                                        def.operands,
                                        midx as int,
                                        inner_fuel as nat,
                                    );
                                    assert(m == seq![members@[members@.len() - 1].model()]
                                        + members_model(
                                        self@,
                                        type_id,
                                        def.operands,
                                        midx as int + 1,
                                        inner_fuel as nat,
                                    ));
                                    assert(Seq::new(members@.len(), |q: int| members@[q].model())
                                        =~= prev + seq![members@[members@.len() - 1].model()]);
                                    assert(prev + (seq![members@[members@.len() - 1].model()]
                                        + members_model(
                                        self@,
                                        type_id,
                                        def.operands,
                                        midx as int + 1,
                                        inner_fuel as nat,
                                    )) =~= (prev + seq![members@[members@.len() - 1].model()])
                                        + members_model(
                                        self@,
                                        type_id,
                                        def.operands,
                                        midx as int + 1,
                                        inner_fuel as nat,
                                    ));
                                }
                            },
                            _ => {
                                proof {
                                    assert(members_model(
                                        self@,
                                        type_id,
                                        def.operands,
                                        midx as int,
                                        inner_fuel as nat,
                                    ) == members_model(
                                        self@,
                                        type_id,
                                        def.operands,
                                        midx as int + 1,
                                        inner_fuel as nat,
                                    ));
                                }
                            },
                        }
                        midx = midx + 1;
                    }
                    proof {
                        assert(members_model(
                            self@,
                            type_id,
                            def.operands,
                            midx as int,
                            inner_fuel as nat,
                        ) =~= Seq::<MemberModel>::empty());
                        assert(members_model(self@, type_id, def.operands, 0, inner_fuel as nat)
                            =~= Seq::new(members@.len(), |q: int| members@[q].model()));
                    }
                    if members.len() < declared {
                        return Err(Error::InvalidType);
                    }
                    proof {
                        lemma_members_seq_model(members@);
                        assert(members_seq_model(members@) =~= Seq::new(
                            members@.len(),
                            |q: int| members@[q].model(),
                        ));
                    }
                    return Ok(TypeInfo::Struct { name, members });
                } else if ins.opcode == crate::OP_TYPE_POINTER {
                    if opslen < 3 {
                        return Err(Error::InvalidType);
                    }
                    let pointee = match self.resolve_with_fuel(ins.operands[2], inner_fuel) {
                        Ok(t) => t,
                        Err(e) => {
                            return Err(e);
                        },
                    };
                    return Ok(TypeInfo::Pointer { ptr_type: Box::new(pointee) });
                } else if ins.opcode == crate::OP_TYPE_IMAGE {
                    if opslen < 8 {
                        return Err(Error::InvalidType);
                    }
                    let sampled_type = match self.resolve_with_fuel(ins.operands[1], inner_fuel) {
                        Ok(t) => t,
                        Err(e) => {
                            return Err(e);
                        },
                    };
                    return Ok(TypeInfo::Image {
                        sampled_type: Box::new(sampled_type),
                        format: ins.operands[7],
                        depth: ins.operands[3],
                        dim: ins.operands[2],
                        arrayed: ins.operands[4] == 1,
                        multisampled: ins.operands[5] == 1,
                        sampled: ins.operands[6],
                    });
                } else if ins.opcode == crate::OP_TYPE_SAMPLER {
                    return Ok(TypeInfo::Sampler);
                } else if ins.opcode == crate::OP_TYPE_SAMPLED_IMAGE {
                    if opslen < 2 {
                        return Err(Error::InvalidType);
                    }
                    let image = match self.resolve_with_fuel(ins.operands[1], inner_fuel) {
                        Ok(t) => t,
                        Err(e) => {
                            return Err(e);
                        },
                    };
                    return Ok(TypeInfo::SampledImage { image_type: Box::new(image) });
                } else if ins.opcode == crate::OP_TYPE_ARRAY {
                    if opslen < 3 {
                        return Err(Error::InvalidType);
                    }
                    let element = match self.resolve_with_fuel(ins.operands[1], inner_fuel) {
                        Ok(t) => t,
                        Err(e) => {
                            return Err(e);
                        },
                    };
                    return Ok(TypeInfo::Array {
                        element_type: Box::new(element),
                        element_count: ins.operands[2],
                    });
                } else {
                    if opslen < 2 {
                        return Err(Error::InvalidType);
                    }
                    let element = match self.resolve_with_fuel(ins.operands[1], inner_fuel) {
                        Ok(t) => t,
                        Err(e) => {
                            return Err(e);
                        },
                    };
                    return Ok(TypeInfo::RuntimeArray { element_type: Box::new(element) });
                }
            }
            k = k + 1;
        }
        Err(Error::InvalidType)
    }

    /// Resolves the type with result id `type_id` into a fully owned tree,
    /// or says why it cannot be resolved.
    pub fn get_type_from_id(&self, type_id: u32) -> (r: Result<TypeInfo, Error>)
        ensures
            type_result_models(r, resolve_model(self@, type_id, fuel_of(self@))),
    {
        let count = self.instructions.len();
        let fuel = if count < usize::MAX {
            count + 1
        } else {
            count
        };
        self.resolve_with_fuel(type_id, fuel)
    }
}


/// The index of the member that byte-size calculation treats as last: the
/// one with the greatest offset, the earliest declared on ties.
pub open spec fn max_offset_index(ms: Seq<MemberModel>) -> int
    decreases ms.len(),
{
    if ms.len() <= 1 {
        0
    } else {
        let b = max_offset_index(ms.drop_last());
        if 0 <= b < ms.len() && ms.last().field_offset > ms[b].field_offset {
            ms.len() - 1
        } else {
            b
        }
    }
}

/// The index that byte-size calculation picks is always in range.
pub proof fn lemma_max_offset_index_in_range(ms: Seq<MemberModel>)
    requires
        ms.len() > 0,
    ensures
        0 <= max_offset_index(ms) < ms.len(),
    decreases ms.len(),
{
    if ms.len() > 1 {
        lemma_max_offset_index_in_range(ms.drop_last());
    }
}

/// The flat byte size of a type, where one is defined: scalars take their
/// width in bytes, vectors and matrices multiply their component size out,
/// and a structure ends where its highest-offset member ends. A size that
/// cannot fit the 32-bit result, and every other shape, has none.
pub open spec fn size_of_model(t: TypeModel) -> Option<u32>
    decreases t,
{
    match t {
        TypeModel::Bool => Some(1u32),
        TypeModel::Int { width, .. } => Some((width / 8) as u32),
        TypeModel::Float { width, .. } => Some((width / 8) as u32),
        TypeModel::Vec { component_type, component_count, .. } => {
            match size_of_model(*component_type) {
                None => None,
                Some(s) => if s * component_count <= u32::MAX {
                    Some((s * component_count) as u32)
                } else {
                    None
                },
            }
        },
        TypeModel::Mat { col_type, col_count, .. } => {
            match size_of_model(*col_type) {
                None => None,
                Some(s) => if s * col_count <= u32::MAX {
                    Some((s * col_count) as u32)
                } else {
                    None
                },
            }
        },
        TypeModel::Struct { members, .. } => {
            if members.len() == 0 {
                Some(0u32)
            } else {
                let raw = max_offset_index(members);
                let idx = if 0 <= raw < members.len() {
                    raw
                } else {
                    0
                };
                let last = members[idx];
                match size_of_model(last.field_type) {
                    None => None,
                    Some(s) => if last.field_offset + s <= u32::MAX {
                        Some((last.field_offset + s) as u32)
                    } else {
                        None
                    },
                }
            }
        },
        _ => None,
    }
}

/// How many consecutive descriptor slots a variable of this type occupies:
/// pointers are looked through, each sized array multiplies by its element
/// count, and everything else takes one slot. A count that cannot fit the
/// 32-bit result has none.
pub open spec fn descriptor_count_model(t: TypeModel) -> Option<u32>
    decreases t,
{
    match t {
        TypeModel::Array { element_type, element_count } => {
            match descriptor_count_model(*element_type) {
                None => None,
                Some(inner) => if element_count * inner <= u32::MAX {
                    Some((element_count * inner) as u32)
                } else {
                    None
                },
            }
        },
        TypeModel::Pointer { ptr_type } => descriptor_count_model(*ptr_type),
        _ => Some(1u32),
    }
}

impl TypeInfo {
    /// The flat byte size of this type, where one is defined: scalar,
    /// vector, matrix and structure shapes have one, unless it overflows
    /// the 32-bit result; every other shape has none.
    pub fn calc_size(&self) -> (r: Option<u32>)
        ensures
            r == size_of_model(self.model()),
        decreases *self,
    {
        match self {
            TypeInfo::Bool => Some(1),
            TypeInfo::Int { width, .. } => Some(*width / 8),
            TypeInfo::Float { width, .. } => Some(*width / 8),
            TypeInfo::Vec { component_type, component_count, .. } => {
                let component_size = match component_type.calc_size() {
                    Some(s) => s,
                    None => {
                        return None;
                    },
                };
                component_size.checked_mul(*component_count)
            },
            TypeInfo::Mat { col_type, col_count, .. } => {
                let col_size = match col_type.calc_size() {
                    Some(s) => s,
                    None => {
                        return None;
                    },
                };
                col_size.checked_mul(*col_count)
            },
            TypeInfo::Struct { members, .. } => {
                proof {
                    lemma_members_seq_model(members@);
                }
                if members.len() == 0 {
                    return Some(0);
                }
                let mut best: usize = 0;
                let mut i: usize = 1;
                proof {
                    lemma_members_seq_model(members@.subrange(0, 1));
                    assert(members_seq_model(members@.subrange(0, 1)).len() == 1);
                    assert(max_offset_index(members_seq_model(members@.subrange(0, 1))) == 0);
                }
                while i < members.len()
                    invariant
                        0 <= best < i <= members@.len(),
                        best as int == max_offset_index(
                            members_seq_model(members@.subrange(0, i as int)),
                        ),
                    decreases members@.len() - i,
                {
                    proof {
                        lemma_members_seq_model(members@.subrange(0, i as int));
                        lemma_members_seq_model(members@.subrange(0, i as int + 1));
                        let cur = members_seq_model(members@.subrange(0, i as int + 1));
                        assert(cur.drop_last() =~= members_seq_model(
                            members@.subrange(0, i as int),
                        )) by {
                            lemma_members_seq_model(members@.subrange(0, i as int + 1));
                            assert(cur.drop_last().len() == i);
                            assert forall|q: int| 0 <= q < i implies cur.drop_last()[q]
                                == members_seq_model(members@.subrange(0, i as int))[q] by {
                                assert(cur[q] == members@.subrange(0, i as int + 1)[q].model());
                                assert(members@.subrange(0, i as int + 1)[q] == members@[q]);
                                assert(members@.subrange(0, i as int)[q] == members@[q]);
                            }
                        }
                        assert(cur.last() == members@[i as int].model());
                    }
                    if members[i].field_offset > members[best].field_offset {
                        best = i;
                    }
                    i = i + 1;
                }
                proof {
                    assert(members@.subrange(0, i as int) =~= members@);
                    lemma_members_seq_model(members@);
                }
                let last_offset = members[best].field_offset;
                let last_size = match members[best].field_type.calc_size() {
                    Some(s) => s,
                    None => {
                        return None;
                    },
                };
                last_offset.checked_add(last_size)
            },
            _ => None,
        }
    }
}


/// Whether an instruction attaches decoration `dec` to `id` with at least
/// one value operand.
pub open spec fn is_decoration_for(ins: Instr, id: u32, dec: u32) -> bool {
    &&& ins.opcode == crate::OP_DECORATE
    &&& ins.operands.len() >= 3
    &&& ins.operands[0] == id
    &&& ins.operands[1] == dec
}

/// The value of decoration `dec` on `id` from the first matching record at
/// or after index `k`.
pub open spec fn decoration_from(instrs: Seq<Instr>, id: u32, dec: u32, k: int) -> Option<u32>
    decreases instrs.len() - k,
{
    if k < 0 || k >= instrs.len() {
        None
    } else if is_decoration_for(instrs[k], id, dec) {
        Some(instrs[k].operands[2])
    } else {
        decoration_from(instrs, id, dec, k + 1)
    }
}

/// The value the module's first matching record gives decoration `dec` on
/// `id`.
pub open spec fn decoration_of(instrs: Seq<Instr>, id: u32, dec: u32) -> Option<u32> {
    decoration_from(instrs, id, dec, 0)
}

/// Whether an instruction declares a variable: result type id, result id,
/// and storage class.
pub open spec fn is_variable(ins: Instr) -> bool {
    &&& ins.opcode == crate::OP_VARIABLE
    &&& ins.operands.len() >= 3
}

/// Whether a storage class marks a resource variable that uniform
/// extraction keeps.
pub open spec fn is_uniform_storage_class(sc: u32) -> bool {
    ||| sc == crate::STORAGE_CLASS_UNIFORM_CONSTANT
    ||| sc == crate::STORAGE_CLASS_UNIFORM
    ||| sc == crate::STORAGE_CLASS_IMAGE
    ||| sc == crate::STORAGE_CLASS_STORAGE_BUFFER
}

/// The mathematical shape of one extracted resource binding.
pub ghost struct UniformModel {
    pub set: u32,
    pub binding: u32,
    pub ty: TypeModel,
    pub storage_class: u32,
    pub descriptor_count: u32,
}

/// One extracted resource binding: its descriptor set and binding slot, its
/// resolved pointee-carrying type, its storage class, and how many
/// consecutive descriptor slots it occupies.
#[derive(Debug)]
pub struct UniformInfo {
    pub set: u32,
    pub binding: u32,
    pub ty: TypeInfo,
    pub storage_class: u32,
    pub descriptor_count: u32,
}

impl UniformInfo {
    /// The mathematical shape of this binding.
    pub open spec fn model(&self) -> UniformModel {
        UniformModel {
            set: self.set,
            binding: self.binding,
            ty: self.ty.model(),
            storage_class: self.storage_class,
            descriptor_count: self.descriptor_count,
        }
    }
}

/// The models of a sequence of extracted bindings, in order.
pub open spec fn uniforms_seq_model(us: Seq<UniformInfo>) -> Seq<UniformModel>
    decreases us.len(),
{
    if us.len() == 0 {
        Seq::empty()
    } else {
        seq![us[0].model()] + uniforms_seq_model(us.subrange(1, us.len() as int))
    }
}

/// `uniforms_seq_model` is the pointwise model of its argument.
pub proof fn lemma_uniforms_seq_model(us: Seq<UniformInfo>)
    ensures
        uniforms_seq_model(us).len() == us.len(),
        forall|k: int|
            0 <= k < us.len() ==> #[trigger] uniforms_seq_model(us)[k] == us[k].model(),
    decreases us.len(),
{
    if us.len() > 0 {
        lemma_uniforms_seq_model(us.subrange(1, us.len() as int));
    }
}

/// What extracting resource bindings from index `k` onward yields. A
/// variable whose storage class is not a resource class is skipped; a kept
/// variable must carry a binding decoration, its descriptor set falls back
/// to zero, its type must resolve, and its descriptor count must fit.
pub open spec fn uniforms_model(instrs: Seq<Instr>, k: int, fuel: nat) -> Result<
    Seq<UniformModel>,
    Error,
>
    decreases instrs.len() - k,
{
    if k < 0 || k >= instrs.len() {
        Ok(Seq::empty())
    } else if is_variable(instrs[k]) && is_uniform_storage_class(instrs[k].operands[2]) {
        let ops = instrs[k].operands;
        let var_id = ops[1];
        match decoration_of(instrs, var_id, crate::DECORATION_BINDING) {
            None => Err(Error::DecorationMissing(var_id)),
            Some(binding) => {
                let set = match decoration_of(instrs, var_id, crate::DECORATION_DESCRIPTOR_SET) {
                    Some(v) => v,
                    None => 0u32,
                };
                match resolve_model(instrs, ops[0], fuel) {
                    Err(e) => Err(e),
                    Ok(ty) => match descriptor_count_model(ty) {
                        None => Err(Error::InvalidType),
                        Some(dc) => match uniforms_model(instrs, k + 1, fuel) {
                            Err(e) => Err(e),
                            Ok(rest) => Ok(
                                seq![
                                    UniformModel {
                                        set,
                                        binding,
                                        ty,
                                        storage_class: ops[2],
                                        descriptor_count: dc,
                                    },
                                ] + rest,
                            ),
                        },
                    },
                }
            },
        }
    } else {
        uniforms_model(instrs, k + 1, fuel)
    }
}

/// The mathematical shape of one extracted shader input.
pub ghost struct IoModel {
    pub location: u32,
    pub name: Seq<char>,
    pub type_info: TypeModel,
}

/// One extracted shader input: its location, its name, and its resolved
/// pointer-carrying type.
#[derive(Debug)]
pub struct ShaderIoInfo {
    pub location: u32,
    pub name: String,
    pub type_info: TypeInfo,
}

impl ShaderIoInfo {
    /// The mathematical shape of this input.
    pub open spec fn model(&self) -> IoModel {
        IoModel {
            location: self.location,
            name: self.name@,
            type_info: self.type_info.model(),
        }
    }
}

/// The models of a sequence of extracted inputs, in order.
pub open spec fn ios_seq_model(ios: Seq<ShaderIoInfo>) -> Seq<IoModel>
    decreases ios.len(),
{
    if ios.len() == 0 {
        Seq::empty()
    } else {
        seq![ios[0].model()] + ios_seq_model(ios.subrange(1, ios.len() as int))
    }
}

/// `ios_seq_model` is the pointwise model of its argument.
pub proof fn lemma_ios_seq_model(ios: Seq<ShaderIoInfo>)
    ensures
        ios_seq_model(ios).len() == ios.len(),
        forall|k: int| 0 <= k < ios.len() ==> #[trigger] ios_seq_model(ios)[k] == ios[k].model(),
    decreases ios.len(),
{
    if ios.len() > 0 {
        lemma_ios_seq_model(ios.subrange(1, ios.len() as int));
    }
}

/// What extracting shader inputs from index `k` onward yields. Every
/// variable in the input storage class must carry a location decoration, a
/// name, and a resolvable type; the first one that does not stops the
/// extraction with the matching error.
pub open spec fn inputs_model(instrs: Seq<Instr>, k: int, fuel: nat) -> Result<
    Seq<IoModel>,
    Error,
>
    decreases instrs.len() - k,
{
    if k < 0 || k >= instrs.len() {
        Ok(Seq::empty())
    } else if is_variable(instrs[k]) && instrs[k].operands[2] == crate::STORAGE_CLASS_INPUT {
        let ops = instrs[k].operands;
        let var_id = ops[1];
        match decoration_of(instrs, var_id, crate::DECORATION_LOCATION) {
            None => Err(Error::LocationMissing(var_id)),
            Some(location) => match name_of(instrs, var_id) {
                None => Err(Error::NameMissing(var_id)),
                Some(name) => match resolve_model(instrs, ops[0], fuel) {
                    Err(e) => Err(e),
                    Ok(ty) => match inputs_model(instrs, k + 1, fuel) {
                        Err(e) => Err(e),
                        Ok(rest) => Ok(
                            seq![IoModel { location, name, type_info: ty }] + rest,
                        ),
                    },
                },
            },
        }
    } else {
        inputs_model(instrs, k + 1, fuel)
    }
}

/// The models of a sequence of resolved types, in order.
pub open spec fn types_seq_model(ts: Seq<TypeInfo>) -> Seq<TypeModel>
    decreases ts.len(),
{
    if ts.len() == 0 {
        Seq::empty()
    } else {
        seq![ts[0].model()] + types_seq_model(ts.subrange(1, ts.len() as int))
    }
}

/// `types_seq_model` is the pointwise model of its argument.
pub proof fn lemma_types_seq_model(ts: Seq<TypeInfo>)
    ensures
        types_seq_model(ts).len() == ts.len(),
        forall|k: int| 0 <= k < ts.len() ==> #[trigger] types_seq_model(ts)[k] == ts[k].model(),
    decreases ts.len(),
{
    if ts.len() > 0 {
        lemma_types_seq_model(ts.subrange(1, ts.len() as int));
    }
}

/// What resolving every type declaration from index `k` onward yields, in
/// declaration order; the first declaration that fails to resolve stops the
/// walk with its error.
pub open spec fn var_types_model(instrs: Seq<Instr>, k: int, fuel: nat) -> Result<
    Seq<TypeModel>,
    Error,
>
    decreases instrs.len() - k,
{
    if k < 0 || k >= instrs.len() {
        Ok(Seq::empty())
    } else if is_type_opcode(instrs[k].opcode) && instrs[k].operands.len() >= 1 {
        match resolve_model(instrs, instrs[k].operands[0], fuel) {
            Err(e) => Err(e),
            Ok(t) => match var_types_model(instrs, k + 1, fuel) {
                Err(e) => Err(e),
                Ok(rest) => Ok(seq![t] + rest),
            },
        }
    } else {
        var_types_model(instrs, k + 1, fuel)
    }
}

/// What resolving every structure declaration from index `k` onward yields,
/// in declaration order; a structure that fails to resolve is skipped.
pub open spec fn struct_types_model(instrs: Seq<Instr>, k: int, fuel: nat) -> Seq<TypeModel>
    decreases instrs.len() - k,
{
    if k < 0 || k >= instrs.len() {
        Seq::empty()
    } else if instrs[k].opcode == crate::OP_TYPE_STRUCT && instrs[k].operands.len() >= 1 {
        match resolve_model(instrs, instrs[k].operands[0], fuel) {
            Err(_) => struct_types_model(instrs, k + 1, fuel),
            Ok(t) => seq![t] + struct_types_model(instrs, k + 1, fuel),
        }
    } else {
        struct_types_model(instrs, k + 1, fuel)
    }
}

impl Module {
    /// The value of decoration `dec` on `id`, if the module has one.
    fn get_decoration(&self, id: u32, dec: u32) -> (r: Option<u32>)
        ensures
            decoration_of(self@, id, dec) == r,
    {
        let count = self.instructions.len();
        let mut k: usize = 0;
        while k < count
            invariant
                0 <= k <= count,
                count == self@.len(),
                decoration_of(self@, id, dec) == decoration_from(self@, id, dec, k as int),
            decreases count - k,
        {
            let ins = &self.instructions[k];
            if ins.opcode == crate::OP_DECORATE && ins.operands.len() >= 3 && ins.operands[0] == id
                && ins.operands[1] == dec {
                return Some(ins.operands[2]);
            }
            k = k + 1;
        }
        None
    }

    /// How many consecutive descriptor slots a variable of type `ty`
    /// occupies, unless the count overflows.
    fn descriptor_count_from_type(ty: &TypeInfo) -> (r: Option<u32>)
        ensures
            r == descriptor_count_model(ty.model()),
        decreases *ty,
    {
        match ty {
            TypeInfo::Array { element_type, element_count } => {
                let inner = match Self::descriptor_count_from_type(element_type) {
                    Some(v) => v,
                    None => {
                        return None;
                    },
                };
                element_count.checked_mul(inner)
            },
            TypeInfo::Pointer { ptr_type } => Self::descriptor_count_from_type(ptr_type),
            _ => Some(1),
        }
    }

    /// Extracts every resource binding: each variable in a resource storage
    /// class, with its mandatory binding slot, its descriptor set (zero when
    /// undecorated), its resolved type, and its descriptor count, in
    /// instruction order.
    pub fn get_uniform_info(&self) -> (r: Result<Vec<UniformInfo>, Error>)
        ensures
            r matches Ok(us) ==> uniforms_model(self@, 0, fuel_of(self@)) matches Ok(ms)
                && uniforms_seq_model(us@) == ms,
            r matches Err(e) ==> uniforms_model(self@, 0, fuel_of(self@)) matches Err(e2) && e
                == e2,
    {
        let count = self.instructions.len();
        let fuel = if count < usize::MAX {
            count + 1
        } else {
            count
        };
        let mut uniforms: Vec<UniformInfo> = Vec::new();
        let mut k: usize = 0;
        while k < count
            invariant
                0 <= k <= count,
                count == self@.len(),
                fuel as nat == fuel_of(self@),
                uniforms_model(self@, k as int, fuel as nat) matches Ok(rest) ==> uniforms_model(
                    self@,
                    0,
                    fuel as nat,
                ) matches Ok(whole) && whole == uniforms_seq_model(uniforms@) + rest,
                uniforms_model(self@, k as int, fuel as nat) matches Err(e) ==> uniforms_model(
                    self@,
                    0,
                    fuel as nat,
                ) == Err::<Seq<UniformModel>, Error>(e),
            decreases count - k,
        {
            let ins = &self.instructions[k];
            if ins.opcode == crate::OP_VARIABLE && ins.operands.len() >= 3 {
                let storage_class = ins.operands[2];
                if storage_class == crate::STORAGE_CLASS_UNIFORM_CONSTANT || storage_class
                    == crate::STORAGE_CLASS_UNIFORM || storage_class == crate::STORAGE_CLASS_IMAGE
                    || storage_class == crate::STORAGE_CLASS_STORAGE_BUFFER {
                    let variable_id = ins.operands[1];
                    let binding = match self.get_decoration(
                        variable_id,
                        crate::DECORATION_BINDING,
                    ) {
                        Some(b) => b,
                        None => {
                            return Err(Error::DecorationMissing(variable_id));
                        },
                    };
                    let set = match self.get_decoration(
                        variable_id,
                        crate::DECORATION_DESCRIPTOR_SET,
                    ) {
                        Some(v) => v,
                        None => 0,
                    };
                    let ty = match self.resolve_with_fuel(ins.operands[0], fuel) {
                        Ok(t) => t,
                        Err(e) => {
                            return Err(e);
                        },
                    };
                    let descriptor_count = match Self::descriptor_count_from_type(&ty) {
                        Some(d) => d,
                        None => {
                            return Err(Error::InvalidType);
                        },
                    };
                    let ghost prev_vec = uniforms@;
                    let ghost prev = uniforms_seq_model(uniforms@);
                    uniforms.push(
                        UniformInfo { set, binding, ty, storage_class, descriptor_count },
                    );
                    proof {
                        assert(uniforms_seq_model(uniforms@) =~= prev + seq![
                            uniforms@[uniforms@.len() - 1].model(),
                        ]) by {
                            lemma_uniforms_seq_model(uniforms@);
                            lemma_uniforms_seq_model(prev_vec);
                            assert(forall|q: int|
                                0 <= q < prev_vec.len() ==> uniforms@[q] == #[trigger] prev_vec[q]);
                        }
                    }
                }
            }
            k = k + 1;
        }
        Ok(uniforms)
    }

    /// Extracts every shader input: each variable in the input storage
    /// class, with its mandatory location, its name, and its resolved type,
    /// in instruction order.
    pub fn get_inputs(&self) -> (r: Result<Vec<ShaderIoInfo>, Error>)
        ensures
            r matches Ok(ios) ==> inputs_model(self@, 0, fuel_of(self@)) matches Ok(ms)
                && ios_seq_model(ios@) == ms,
            r matches Err(e) ==> inputs_model(self@, 0, fuel_of(self@)) matches Err(e2) && e == e2,
    {
        let count = self.instructions.len();
        let fuel = if count < usize::MAX {
            count + 1
        } else {
            count
        };
        let mut inputs: Vec<ShaderIoInfo> = Vec::new();
        let mut k: usize = 0;
        while k < count
            invariant
                0 <= k <= count,
                count == self@.len(),
                fuel as nat == fuel_of(self@),
                inputs_model(self@, k as int, fuel as nat) matches Ok(rest) ==> inputs_model(
                    self@,
                    0,
                    fuel as nat,
                ) matches Ok(whole) && whole == ios_seq_model(inputs@) + rest,
                inputs_model(self@, k as int, fuel as nat) matches Err(e) ==> inputs_model(
                    self@,
                    0,
                    fuel as nat,
                ) == Err::<Seq<IoModel>, Error>(e),
            decreases count - k,
        {
            let ins = &self.instructions[k];
            if ins.opcode == crate::OP_VARIABLE && ins.operands.len() >= 3 && ins.operands[2]
                == crate::STORAGE_CLASS_INPUT {
                let variable_id = ins.operands[1];
                let location = match self.get_decoration(
                    variable_id,
                    crate::DECORATION_LOCATION,
                ) {
                    Some(l) => l,
                    None => {
                        return Err(Error::LocationMissing(variable_id));
                    },
                };
                let name = match self.get_type_name_from_id(variable_id) {
                    Some(n) => n,
                    None => {
                        return Err(Error::NameMissing(variable_id));
                    },
                };
                let type_info = match self.resolve_with_fuel(ins.operands[0], fuel) {
                    Ok(t) => t,
                    Err(e) => {
                        return Err(e);
                    },
                };
                let ghost prev_vec = inputs@;
                let ghost prev = ios_seq_model(inputs@);
                inputs.push(ShaderIoInfo { location, name, type_info });
                proof {
                    assert(ios_seq_model(inputs@) =~= prev + seq![
                        inputs@[inputs@.len() - 1].model(),
                    ]) by {
                        lemma_ios_seq_model(inputs@);
                        lemma_ios_seq_model(prev_vec);
                        assert(forall|q: int|
                            0 <= q < prev_vec.len() ==> inputs@[q] == #[trigger] prev_vec[q]);
                    }
                }
            }
            k = k + 1;
        }
        Ok(inputs)
    }

    /// Resolves every type the module declares, in declaration order; the
    /// first declaration that fails to resolve stops the walk.
    pub fn get_variable_types(&self) -> (r: Result<Vec<TypeInfo>, Error>)
        ensures
            r matches Ok(ts) ==> var_types_model(self@, 0, fuel_of(self@)) matches Ok(ms)
                && types_seq_model(ts@) == ms,
            r matches Err(e) ==> var_types_model(self@, 0, fuel_of(self@)) matches Err(e2) && e
                == e2,
    {
        let count = self.instructions.len();
        let fuel = if count < usize::MAX {
            count + 1
        } else {
            count
        };
        let mut types: Vec<TypeInfo> = Vec::new();
        let mut k: usize = 0;
        while k < count
            invariant
                0 <= k <= count,
                count == self@.len(),
                fuel as nat == fuel_of(self@),
                var_types_model(self@, k as int, fuel as nat) matches Ok(rest) ==> var_types_model(
                    self@,
                    0,
                    fuel as nat,
                ) matches Ok(whole) && whole == types_seq_model(types@) + rest,
                var_types_model(self@, k as int, fuel as nat) matches Err(e) ==> var_types_model(
                    self@,
                    0,
                    fuel as nat,
                ) == Err::<Seq<TypeModel>, Error>(e),
            decreases count - k,
        {
            let ins = &self.instructions[k];
            if type_opcode(ins.opcode) && ins.operands.len() >= 1 {
                let t = match self.resolve_with_fuel(ins.operands[0], fuel) {
                    Ok(t) => t,
                    Err(e) => {
                        return Err(e);
                    },
                };
                let ghost prev_vec = types@;
                let ghost prev = types_seq_model(types@);
                types.push(t);
                proof {
                    assert(types_seq_model(types@) =~= prev + seq![
                        types@[types@.len() - 1].model(),
                    ]) by {
                        lemma_types_seq_model(types@);
                        lemma_types_seq_model(prev_vec);
                        assert(forall|q: int|
                            0 <= q < prev_vec.len() ==> types@[q] == #[trigger] prev_vec[q]);
                    }
                }
            }
            k = k + 1;
        }
        Ok(types)
    }

    /// Resolves every structure the module declares, in declaration order,
    /// skipping those that fail to resolve.
    pub fn get_struct_types(&self) -> (r: Vec<TypeInfo>)
        ensures
            types_seq_model(r@) == struct_types_model(self@, 0, fuel_of(self@)),
    {
        let count = self.instructions.len();
        let fuel = if count < usize::MAX {
            count + 1
        } else {
            count
        };
        let mut types: Vec<TypeInfo> = Vec::new();
        let mut k: usize = 0;
        while k < count
            invariant
                0 <= k <= count,
                count == self@.len(),
                fuel as nat == fuel_of(self@),
                struct_types_model(self@, 0, fuel as nat) == types_seq_model(types@)
                    + struct_types_model(self@, k as int, fuel as nat),
            decreases count - k,
        {
            let ins = &self.instructions[k];
            if ins.opcode == crate::OP_TYPE_STRUCT && ins.operands.len() >= 1 {
                match self.resolve_with_fuel(ins.operands[0], fuel) {
                    Ok(t) => {
                        let ghost prev_vec = types@;
                        let ghost prev = types_seq_model(types@);
                        types.push(t);
                        proof {
                            assert(types_seq_model(types@) =~= prev + seq![
                                types@[types@.len() - 1].model(),
                            ]) by {
                                lemma_types_seq_model(types@);
                                lemma_types_seq_model(prev_vec);
                                assert(forall|q: int|
                                    0 <= q < prev_vec.len() ==> types@[q] == #[trigger] prev_vec[
                                        q
                                    ]);
                            }
                            assert(prev + (seq![types@[types@.len() - 1].model()]
                                + struct_types_model(self@, k as int + 1, fuel as nat)) =~= (prev
                                + seq![types@[types@.len() - 1].model()]) + struct_types_model(
                                self@,
                                k as int + 1,
                                fuel as nat,
                            ));
                        }
                    },
                    Err(_) => {},
                }
            }
            k = k + 1;
        }
        proof {
            assert(struct_types_model(self@, k as int, fuel as nat) =~= Seq::<TypeModel>::empty());
        }
        types
    }
}


/// Whether a word packs a nul byte somewhere in its four bytes.
pub open spec fn has_zero_byte(w: u32) -> bool {
    ||| w & 0xFF == 0
    ||| (w >> 8) & 0xFF == 0
    ||| (w >> 16) & 0xFF == 0
    ||| (w >> 24) & 0xFF == 0
}

/// How many operand words from index `j` onward a packed nul-terminated
/// string occupies: everything up to and including the word that carries
/// the terminating nul, or all remaining words when none does.
pub open spec fn nul_word_count(ops: Seq<u32>, j: int) -> int
    decreases ops.len() - j,
{
    if j < 0 || j >= ops.len() {
        0
    } else if has_zero_byte(ops[j]) {
        1
    } else {
        1 + nul_word_count(ops, j + 1)
    }
}

/// The packed string never occupies more words than remain.
pub proof fn lemma_nul_word_count_bound(ops: Seq<u32>, j: int)
    requires
        0 <= j <= ops.len(),
    ensures
        0 <= nul_word_count(ops, j) <= ops.len() - j,
    decreases ops.len() - j,
{
    if j < ops.len() && !has_zero_byte(ops[j]) {
        lemma_nul_word_count_bound(ops, j + 1);
    }
}

/// Whether an instruction declares an entry point.
pub open spec fn is_entry_point(ins: Instr) -> bool {
    &&& ins.opcode == crate::OP_ENTRY_POINT
    &&& ins.operands.len() >= 2
}

/// The mathematical shape of one entry point.
pub ghost struct EntryModel {
    pub execution_model: u32,
    pub entry_point_id: u32,
    pub name: Seq<char>,
    pub interface_ids: Seq<u32>,
}

/// One declared entry point: its execution model, the id of its function,
/// its name, and the interface ids that follow the name.
#[derive(Debug, PartialEq)]
pub struct EntryPointInfo {
    pub execution_model: u32,
    pub entry_point_id: u32,
    pub name: String,
    pub interface_ids: Vec<u32>,
}

impl EntryPointInfo {
    /// The mathematical shape of this entry point.
    pub open spec fn model(&self) -> EntryModel {
        EntryModel {
            execution_model: self.execution_model,
            entry_point_id: self.entry_point_id,
            name: self.name@,
            interface_ids: self.interface_ids@,
        }
    }
}

/// What one entry-point instruction declares: the execution model and the
/// entry function id from its first two operands, the nul-terminated name
/// packed from the third operand onward, and the interface ids in every
/// operand after the name's terminating word.
pub open spec fn entry_model_of(ins: Instr) -> EntryModel {
    let ops = ins.operands;
    let start = 2 + nul_word_count(ops, 2);
    EntryModel {
        execution_model: ops[0],
        entry_point_id: ops[1],
        name: str_lit_chars(ops, 2),
        interface_ids: ops.subrange(start, ops.len() as int),
    }
}

/// The models of a sequence of entry points, in order.
pub open spec fn entries_seq_model(es: Seq<EntryPointInfo>) -> Seq<EntryModel>
    decreases es.len(),
{
    if es.len() == 0 {
        Seq::empty()
    } else {
        seq![es[0].model()] + entries_seq_model(es.subrange(1, es.len() as int))
    }
}

/// `entries_seq_model` is the pointwise model of its argument.
pub proof fn lemma_entries_seq_model(es: Seq<EntryPointInfo>)
    ensures
        entries_seq_model(es).len() == es.len(),
        forall|k: int|
            0 <= k < es.len() ==> #[trigger] entries_seq_model(es)[k] == es[k].model(),
    decreases es.len(),
{
    if es.len() > 0 {
        lemma_entries_seq_model(es.subrange(1, es.len() as int));
    }
}

/// The entry points declared from index `k` onward, in instruction order;
/// there is no failure path.
pub open spec fn entries_model(instrs: Seq<Instr>, k: int) -> Seq<EntryModel>
    decreases instrs.len() - k,
{
    if k < 0 || k >= instrs.len() {
        Seq::empty()
    } else if is_entry_point(instrs[k]) {
        seq![entry_model_of(instrs[k])] + entries_model(instrs, k + 1)
    } else {
        entries_model(instrs, k + 1)
    }
}

/// Whether a word packs a nul byte somewhere in its four bytes.
fn word_has_zero_byte(w: u32) -> (b: bool)
    ensures
        b == has_zero_byte(w),
{
    w & 0xFF == 0 || (w >> 8) & 0xFF == 0 || (w >> 16) & 0xFF == 0 || (w >> 24) & 0xFF == 0
}

impl Module {
    /// Extracts every declared entry point, in instruction order. A module
    /// with none yields an empty list.
    pub fn get_entry_points(&self) -> (r: Vec<EntryPointInfo>)
        ensures
            entries_seq_model(r@) == entries_model(self@, 0),
    {
        let count = self.instructions.len();
        let mut entries: Vec<EntryPointInfo> = Vec::new();
        let mut k: usize = 0;
        while k < count
            invariant
                0 <= k <= count,
                count == self@.len(),
                entries_model(self@, 0) == entries_seq_model(entries@) + entries_model(
                    self@,
                    k as int,
                ),
            decreases count - k,
        {
            let ins = &self.instructions[k];
            if ins.opcode == crate::OP_ENTRY_POINT && ins.operands.len() >= 2 {
                let ops_len = ins.operands.len();
                let name = parse_string_literal(ins.operands.as_slice(), 2);
                let mut j: usize = 2;
                while j < ops_len && !word_has_zero_byte(ins.operands[j])
                    invariant
                        2 <= j <= ops_len,
                        ops_len == ins.operands@.len(),
                        nul_word_count(ins.operands@, 2) == (j - 2) + nul_word_count(
                            ins.operands@,
                            j as int,
                        ),
                    decreases ops_len - j,
                {
                    j = j + 1;
                }
                let start = if j < ops_len {
                    j + 1
                } else {
                    ops_len
                };
                proof {
                    lemma_nul_word_count_bound(ins.operands@, j as int);
                    assert(start as int == 2 + nul_word_count(ins.operands@, 2));
                }
                let mut interface_ids: Vec<u32> = Vec::new();
                let mut m: usize = start;
                while m < ops_len
                    invariant
                        start <= m <= ops_len,
                        ops_len == ins.operands@.len(),
                        interface_ids@ == ins.operands@.subrange(start as int, m as int),
                    decreases ops_len - m,
                {
                    proof {
                        assert(ins.operands@.subrange(start as int, m as int).push(
                            ins.operands@[m as int],
                        ) =~= ins.operands@.subrange(start as int, m as int + 1));
                    }
                    interface_ids.push(ins.operands[m]);
                    m = m + 1;
                }
                let ghost prev_vec = entries@;
                let ghost prev = entries_seq_model(entries@);
                entries.push(
                    EntryPointInfo {
                        execution_model: ins.operands[0],
                        entry_point_id: ins.operands[1],
                        name,
                        interface_ids,
                    },
                );
                proof {
                    assert(entries_seq_model(entries@) =~= prev + seq![
                        entries@[entries@.len() - 1].model(),
                    ]) by {
                        lemma_entries_seq_model(entries@);
                        lemma_entries_seq_model(prev_vec);
                        assert(forall|q: int|
                            0 <= q < prev_vec.len() ==> entries@[q] == #[trigger] prev_vec[q]);
                    }
                    assert(entries@[entries@.len() - 1].model() == entry_model_of(
                        self@[k as int],
                    ));
                    assert(prev + (seq![entry_model_of(self@[k as int])] + entries_model(
                        self@,
                        k as int + 1,
                    )) =~= (prev + seq![entry_model_of(self@[k as int])]) + entries_model(
                        self@,
                        k as int + 1,
                    ));
                }
            }
            k = k + 1;
        }
        proof {
            assert(entries_model(self@, k as int) =~= Seq::<EntryModel>::empty());
        }
        entries
    }
}

/// Resolution is idempotent: two results of resolving the same id against
/// the same module carry the same shape - equal trees on success, equal
/// errors on failure.
pub proof fn lemma_resolve_idempotent(
    instrs: Seq<Instr>,
    id: u32,
    r1: Result<TypeInfo, Error>,
    r2: Result<TypeInfo, Error>,
)
    requires
        type_result_models(r1, resolve_model(instrs, id, fuel_of(instrs))),
        type_result_models(r2, resolve_model(instrs, id, fuel_of(instrs))),
    ensures
        match (r1, r2) {
            (Ok(t1), Ok(t2)) => t1.model() == t2.model(),
            (Err(e1), Err(e2)) => e1 == e2,
            _ => false,
        },
{
}

/// A short or ragged buffer is always rejected as an invalid file length,
/// and a whole buffer whose first word is not the magic constant is always
/// rejected as an incorrect magic word.
pub proof fn lemma_decode_rejects(bytes: Seq<u8>)
    ensures
        bytes.len() < 20 || bytes.len() % 4 != 0 ==> decode_err(bytes) == Some(
            Error::InvalidFileLength(bytes.len() as usize),
        ),
        bytes.len() >= 20 && bytes.len() % 4 == 0 && words_of(bytes)[0] != crate::MAGIC_NUMBER
            ==> decode_err(bytes) == Some(Error::IncorrectMagicWord(words_of(bytes)[0])),
{
}

/// Joined members never outnumber the declared member list.
pub proof fn lemma_members_model_bounded(
    instrs: Seq<Instr>,
    sid: u32,
    ops: Seq<u32>,
    k: int,
    fuel: nat,
)
    requires
        0 <= k,
    ensures
        members_model(instrs, sid, ops, k, fuel).len() <= ops.len() - 1 - k
            || members_model(instrs, sid, ops, k, fuel).len() == 0,
    decreases ops.len() - k,
{
    if k + 1 < ops.len() {
        lemma_members_model_bounded(instrs, sid, ops, k + 1, fuel);
    }
}

/// A structure whose declared members do not all join a name, an offset and
/// a resolvable type never resolves: resolution either fails or yields a
/// structure with exactly as many members as the declaration lists.
pub proof fn lemma_struct_members_complete(instrs: Seq<Instr>, id: u32, fuel: nat, t: TypeModel)
    requires
        resolve_model(instrs, id, fuel) == Ok::<TypeModel, Error>(t),
        find_type_def(instrs, id) matches Some(ins) && ins.opcode == crate::OP_TYPE_STRUCT,
    ensures
        t matches TypeModel::Struct { members, .. } && members.len() == find_type_def(
            instrs,
            id,
        ).unwrap().operands.len() - 1,
{
    lemma_find_type_def_is_def(instrs, id, 0);
    let ins = find_type_def(instrs, id).unwrap();
    let ops = ins.operands;
    assert(fuel > 0);
    assert(resolve_model(instrs, id, fuel) == resolve_def(instrs, ins, id, (fuel - 1) as nat));
    if ops.len() > 1 {
        lemma_members_model_bounded(instrs, id, ops, 0, (fuel - 1) as nat);
        let members = members_model(instrs, id, ops, 0, (fuel - 1) as nat);
        assert(members.len() >= ops.len() - 1);
    }
}

/// What the type-definition scan finds always declares the id it was asked
/// about.
pub proof fn lemma_find_type_def_is_def(instrs: Seq<Instr>, id: u32, k: int)
    ensures
        find_type_def_from(instrs, id, k) matches Some(ins) ==> is_type_def_for(ins, id),
    decreases instrs.len() - k,
{
    if 0 <= k < instrs.len() && !is_type_def_for(instrs[k], id) {
        lemma_find_type_def_is_def(instrs, id, k + 1);
    }
}

/// An input variable without a location decoration poisons the whole input
/// extraction: whenever any variable in the input storage class lacks a
/// location, extraction fails - such a variable is never silently skipped
/// or given a default.
pub proof fn lemma_inputs_require_location(instrs: Seq<Instr>, fuel: nat, bad: int, j: int)
    requires
        0 <= j <= bad < instrs.len(),
        is_variable(instrs[bad]),
        instrs[bad].operands[2] == crate::STORAGE_CLASS_INPUT,
        decoration_of(instrs, instrs[bad].operands[1], crate::DECORATION_LOCATION) is None,
    ensures
        inputs_model(instrs, j, fuel) is Err,
        inputs_model(instrs, bad, fuel) == Err::<Seq<IoModel>, Error>(
            Error::LocationMissing(instrs[bad].operands[1]),
        ),
    decreases bad - j,
{
    if j < bad {
        lemma_inputs_require_location(instrs, fuel, bad, j + 1);
    }
}


/// What `str::to_lowercase` turns a character sequence into.
pub uninterp spec fn lower_of(s: Seq<char>) -> Seq<char>;

/// What `char::to_uppercase` turns one character into.
pub uninterp spec fn upper_of(c: char) -> Seq<char>;

/// Relies on str::to_lowercase: the result depends on the characters alone,
/// and an empty string stays empty.
#[verifier::external_body]
fn lowercase(s: &str) -> (r: String)
    ensures
        r@ == lower_of(s@),
        s@.len() == 0 ==> r@.len() == 0,
{
    s.to_lowercase()
}

/// Relies on char::to_uppercase: the uppercase mapping of one character
/// depends on that character alone.
#[verifier::external_body]
fn upper_char(c: char) -> (r: String)
    ensures
        r@ == upper_of(c),
{
    c.to_uppercase().collect::<String>()
}

/// A segment of a file name, case-normalized: the whole segment lowered,
/// then its first character uppercased.
pub open spec fn capitalized(s: Seq<char>) -> Seq<char> {
    let low = lower_of(s);
    if low.len() == 0 {
        Seq::empty()
    } else {
        upper_of(low[0]) + low.subrange(1, low.len() as int)
    }
}

/// The position of the first dot at or after index `k`, or the length when
/// there is none.
pub open spec fn first_dot_from(s: Seq<char>, k: int) -> int
    decreases s.len() - k,
{
    if k < 0 || k >= s.len() {
        s.len() as int
    } else if s[k] == '.' {
        k
    } else {
        first_dot_from(s, k + 1)
    }
}

/// The display name a module takes from a file name: the name is split on
/// dots, each segment is case-normalized, and the segments are joined.
pub open spec fn module_name_of(s: Seq<char>) -> Seq<char>
    decreases s.len(),
{
    let found = first_dot_from(s, 0);
    let d = if 0 <= found <= s.len() {
        found
    } else {
        s.len() as int
    };
    if d >= s.len() {
        capitalized(s)
    } else {
        capitalized(s.subrange(0, d)) + module_name_of(s.subrange(d + 1, s.len() as int))
    }
}

/// Where the characters from `k` to `d` hold no dot and `d` is the end or a
/// dot, the first dot at or after `k` is at `d`.
proof fn lemma_first_dot_at(s: Seq<char>, k: int, d: int)
    requires
        0 <= k <= d <= s.len(),
        forall|m: int| k <= m < d ==> s[m] != '.',
        d < s.len() ==> s[d] == '.',
    ensures
        first_dot_from(s, k) == if d < s.len() {
            d
        } else {
            s.len() as int
        },
    decreases d - k,
{
    if k < d {
        lemma_first_dot_at(s, k + 1, d);
    }
}

/// Case-normalizes one file-name segment: lowers it whole, then uppercases
/// the first character of the lowered form.
fn capitalize_first(input: &str) -> (r: String)
    ensures
        r@ == capitalized(input@),
{
    let lowercased = lowercase(input);
    let len = lowercased.as_str().unicode_len();
    if len == 0 {
        String::new()
    } else {
        let first = lowercased.as_str().get_char(0);
        let mut out = upper_char(first);
        let rest = lowercased.as_str().substring_char(1, len);
        out.append(rest);
        out
    }
}

/// The display name a module takes from the file it was read from: the file
/// name split on dots, each segment case-normalized, the segments joined.
pub fn module_name_from_file_name(file_name: &str) -> (r: String)
    ensures
        r@ == module_name_of(file_name@),
{
    let n = file_name.unicode_len();
    let mut result = String::new();
    let mut seg_start: usize = 0;
    let mut i: usize = 0;
    proof {
        assert(file_name@.subrange(0, n as int) =~= file_name@);
        assert(result@ + module_name_of(file_name@) =~= module_name_of(file_name@));
    }
    while i < n
        invariant
            0 <= seg_start <= i <= n,
            n == file_name@.len(),
            forall|m: int| seg_start <= m < i ==> file_name@[m] != '.',
            module_name_of(file_name@) == result@ + module_name_of(
                file_name@.subrange(seg_start as int, n as int),
            ),
        decreases n - i,
    {
        let c = file_name.get_char(i);
        if c == '.' {
            let segment = file_name.substring_char(seg_start, i);
            let cap = capitalize_first(segment);
            proof {
                let rest = file_name@.subrange(seg_start as int, n as int);
                lemma_first_dot_at(rest, 0, i - seg_start);
                assert(rest.subrange(0, i - seg_start) =~= file_name@.subrange(
                    seg_start as int,
                    i as int,
                ));
                assert(rest.subrange(i - seg_start + 1, rest.len() as int) =~= file_name@.subrange(
                    i as int + 1,
                    n as int,
                ));
            }
            result.append(cap.as_str());
            seg_start = i + 1;
        }
        i = i + 1;
    }
    let segment = file_name.substring_char(seg_start, n);
    let cap = capitalize_first(segment);
    proof {
        let rest = file_name@.subrange(seg_start as int, n as int);
        lemma_first_dot_at(rest, 0, n - seg_start);
        assert(rest =~= file_name@.subrange(seg_start as int, n as int));
    }
    result.append(cap.as_str());
    result
}


/// Whether every cached tree is exactly what resolving its id against the
/// instruction stream yields.
pub open spec fn cache_consistent(c: Map<u32, TypeInfo>, instrs: Seq<Instr>) -> bool {
    forall|k: u32|
        #[trigger] c.contains_key(k) ==> (resolve_model(instrs, k, fuel_of(instrs)) matches Ok(tm)
            && c[k].model() == tm)
}

/// A lazily filled id-to-type cache: repeated resolution of the same id
/// against the same module reads the tree built the first time, with no
/// change to what resolution returns.
pub struct TypeCache {
    map: std::collections::HashMap<u32, TypeInfo>,
}

impl View for TypeCache {
    type V = Map<u32, TypeInfo>;

    closed spec fn view(&self) -> Map<u32, TypeInfo> {
        self.map@
    }
}

impl TypeCache {
    /// An empty cache, consistent with every module.
    pub fn new() -> (r: TypeCache)
        ensures
            r@ == Map::<u32, TypeInfo>::empty(),
    {
        TypeCache { map: std::collections::HashMap::new() }
    }
}

impl Module {
    /// Resolves `type_id` through the cache: a hit hands the stored tree
    /// back, a miss resolves the id, stores the tree, and hands it back.
    /// Errors are not cached. What comes back is exactly what
    /// `get_type_from_id` returns.
    pub fn get_type_cached<'a>(&self, cache: &'a mut TypeCache, type_id: u32) -> (r: Result<
        &'a TypeInfo,
        Error,
    >)
        requires
            cache_consistent(old(cache)@, self@),
        ensures
            cache_consistent(final(cache)@, self@),
            r matches Ok(t) ==> resolve_model(self@, type_id, fuel_of(self@)) matches Ok(tm)
                && t.model() == tm && final(cache)@.contains_key(type_id),
            r matches Err(e) ==> resolve_model(self@, type_id, fuel_of(self@)) matches Err(e2) && e
                == e2 && final(cache)@ == old(cache)@,
    {
        if cache.map.contains_key(&type_id) {
            let t = cache.map.get(&type_id).unwrap();
            return Ok(t);
        }
        match self.get_type_from_id(type_id) {
            Ok(t) => {
                cache.map.insert(type_id, t);
                let t = cache.map.get(&type_id).unwrap();
                Ok(t)
            },
            Err(e) => Err(e),
        }
    }
}

} // verus!
