//! The symbol records of the CodeView format.

use vstd::prelude::*;
use vstd::slice::slice_subrange;
use vstd::slice::slice_to_vec;
use vstd::utf8::decode_utf8;
use vstd::utf8::valid_utf8;

use crate::memory::le_u16;
use crate::memory::le_u32;
use crate::memory::read_le_u16;
use crate::memory::read_le_u32;
use crate::memory::zero_index;

verus! {

/// The index of a type in the type stream of a symbol file.
#[derive(Debug, Default, Clone, Copy, PartialEq, Eq, Structural)]
pub struct TypeId(pub u32);

/// A kind of record that can be told by the type field of a record and read
/// from the record's bytes.
pub trait RecordEntry: Sized {
    /// What a record of this kind holds.
    type Model;

    /// What this record holds.
    spec fn model(&self) -> Self::Model;

    /// Whether a record with this type field is of this kind.
    spec fn accepts(record_type: u16) -> bool;

    /// What the bytes of a record hold, where they are a record of this
    /// kind. The bytes begin with the length and the type of the record.
    spec fn parsed(bytes: Seq<u8>) -> Option<Self::Model>;

    fn is_valid_record_type(record_type: u16) -> (valid: bool)
        ensures
            valid == Self::accepts(record_type),
    ;

    /// Reads a record from its bytes.
    fn read(bytes: &[u8]) -> (record: Option<Self>)
        ensures
            match Self::parsed(bytes@) {
                Some(model) => record matches Some(read) && read.model() == model,
                None => record is None,
            },
    ;
}

/// A text that is stored behind its length, in sixteen bits.
#[derive(Debug, Default, Clone, PartialEq, Eq)]
pub struct CodeViewString(pub Vec<u8>);

/// The bytes of the text that lies behind its length at `at`, where the
/// length and the text lie whole in `bytes`.
pub open spec fn counted_text(bytes: Seq<u8>, at: int) -> Option<Seq<u8>> {
    if at + 2 <= bytes.len() && at + 2 + le_u16(bytes, at) <= bytes.len() {
        Some(bytes.subrange(at + 2, at + 2 + le_u16(bytes, at)))
    } else {
        None
    }
}

/// The bytes of the text that lies at `at` and ends before a zero byte,
/// where there is such a byte.
pub open spec fn terminated_text(bytes: Seq<u8>, at: int) -> Option<Seq<u8>> {
    if 0 <= at <= bytes.len() && zero_index(bytes.skip(at)) < bytes.len() - at {
        Some(bytes.skip(at).take(zero_index(bytes.skip(at))))
    } else {
        None
    }
}

/// Reads the text that lies at `at` and ends before a zero byte.
pub fn read_terminated_text(bytes: &[u8], at: usize) -> (text: Option<Vec<u8>>)
    ensures
        match terminated_text(bytes@, at as int) {
            Some(found) => text matches Some(read) && read@ == found,
            None => text is None,
        },
{
    if at > bytes.len() {
        return None;
    }
    let ghost rest = bytes@.skip(at as int);
    let mut end: usize = at;
    assert(rest.skip(0) =~= rest);
    while end < bytes.len() && bytes[end] != 0
        invariant
            at <= end <= bytes.len(),
            rest == bytes@.skip(at as int),
            zero_index(rest) == (end - at) + zero_index(rest.skip(end - at)),
        decreases bytes.len() - end,
    {
        let ghost tail = rest.skip(end - at);
        assert(tail[0] == bytes@[end as int]);
        assert(tail.drop_first() =~= rest.skip(end - at + 1));
        end += 1;
    }
    proof {
        let tail = rest.skip(end - at);
        if end < bytes.len() {
            assert(tail[0] == bytes@[end as int]);
        }
        assert(rest.skip(0) =~= rest);
    }
    if end == bytes.len() {
        return None;
    }
    let text = slice_to_vec(slice_subrange(bytes, at, end));
    assert(bytes@.subrange(at as int, end as int) =~= rest.take(end - at));
    Some(text)
}

/// The text that bytes stand for in UTF-8, with U+FFFD in place of what is
/// no UTF-8, as `String::from_utf8_lossy` gives it.
pub uninterp spec fn utf8_lossy(bytes: Seq<u8>) -> Seq<char>;

/// Decodes UTF-8 with `String::from_utf8_lossy`, which gives the text that
/// the bytes stand for where they are well-formed UTF-8, and else puts
/// U+FFFD in place of what is no UTF-8.
#[verifier::external_body]
fn string_from_utf8_lossy(bytes: &[u8]) -> (text: String)
    ensures
        text@ == utf8_lossy(bytes@),
        valid_utf8(bytes@) ==> text@ == decode_utf8(bytes@),
{
    String::from_utf8_lossy(bytes).into_owned()
}

impl CodeViewString {
    pub fn new(bytes: Vec<u8>) -> (text: CodeViewString)
        ensures
            text.0 == bytes,
    {
        Self(bytes)
    }

    /// The text as a string.
    pub fn to_string(&self) -> (text: String)
        ensures
            text@ == utf8_lossy(self.0@),
            valid_utf8(self.0@) ==> text@ == decode_utf8(self.0@),
    {
        string_from_utf8_lossy(self.0.as_slice())
    }

    /// Reads the text that lies behind its length at `at`.
    pub fn read(bytes: &[u8], at: usize) -> (text: Option<CodeViewString>)
        ensures
            match counted_text(bytes@, at as int) {
                Some(found) => text matches Some(read) && read.0@ == found,
                None => text is None,
            },
    {
        if bytes.len() < 2 || at > bytes.len() - 2 {
            return None;
        }
        let length = read_le_u16(bytes, at) as usize;
        if bytes.len() - at - 2 < length {
            return None;
        }
        Some(CodeViewString(slice_to_vec(slice_subrange(bytes, at + 2, at + 2 + length))))
    }
}

/// The language and the flags with which a compilation unit was compiled.
#[derive(Debug, Default, Clone, Copy, PartialEq, Eq, Structural)]
pub struct CompileSym3Flags {
    pub language: u8,
    pub flags: u16,
    pub pad: u8,
}

/// The language and the flags with which a compilation unit was compiled,
/// as older compilers note them.
#[derive(Debug, Default, Clone, Copy, PartialEq, Eq, Structural)]
pub struct CompileSym1Flags {
    pub language: u8,
    pub flags: u16,
    pub pad: u8,
}

/// The compiler of a compilation unit.
#[derive(Debug, Default)]
pub struct CompileSym3 {
    pub reclen: u16,
    pub rectyp: u16,
    pub flags: CompileSym3Flags,
    pub machine: u16,
    pub ver_frontend_major: u16,
    pub ver_frontend_eminor: u16,
    pub ver_frontend_build: u16,
    pub ver_frontend_qfe: u16,
    pub ver_major: u16,
    pub ver_minor: u16,
    pub ver_build: u16,
    pub ver_qfe: u16,
    /// The compiler's version text.
    pub version: Vec<u8>,
}

pub struct CompileSym3View {
    pub reclen: u16,
    pub rectyp: u16,
    pub flags: CompileSym3Flags,
    pub machine: u16,
    pub ver_frontend_major: u16,
    pub ver_frontend_eminor: u16,
    pub ver_frontend_build: u16,
    pub ver_frontend_qfe: u16,
    pub ver_major: u16,
    pub ver_minor: u16,
    pub ver_build: u16,
    pub ver_qfe: u16,
    pub version: Seq<u8>,
}

impl RecordEntry for CompileSym3 {
    type Model = CompileSym3View;

    open spec fn model(&self) -> CompileSym3View {
        CompileSym3View {
            reclen: self.reclen,
            rectyp: self.rectyp,
            flags: self.flags,
            machine: self.machine,
            ver_frontend_major: self.ver_frontend_major,
            ver_frontend_eminor: self.ver_frontend_eminor,
            ver_frontend_build: self.ver_frontend_build,
            ver_frontend_qfe: self.ver_frontend_qfe,
            ver_major: self.ver_major,
            ver_minor: self.ver_minor,
            ver_build: self.ver_build,
            ver_qfe: self.ver_qfe,
            version: self.version@,
        }
    }

    open spec fn accepts(record_type: u16) -> bool {
        record_type == 0x113c
    }

    open spec fn parsed(bytes: Seq<u8>) -> Option<CompileSym3View> {
        if bytes.len() < 26 {
            None
        } else {
            match terminated_text(bytes, 26) {
                None => None,
                Some(version) => Some(
                    CompileSym3View {
                        reclen: le_u16(bytes, 0),
                        rectyp: le_u16(bytes, 2),
                        flags: CompileSym3Flags {
                            language: bytes[4],
                            flags: le_u16(bytes, 5),
                            pad: bytes[7],
                        },
                        machine: le_u16(bytes, 8),
                        ver_frontend_major: le_u16(bytes, 10),
                        ver_frontend_eminor: le_u16(bytes, 12),
                        ver_frontend_build: le_u16(bytes, 14),
                        ver_frontend_qfe: le_u16(bytes, 16),
                        ver_major: le_u16(bytes, 18),
                        ver_minor: le_u16(bytes, 20),
                        ver_build: le_u16(bytes, 22),
                        ver_qfe: le_u16(bytes, 24),
                        version,
                    },
                ),
            }
        }
    }

    fn is_valid_record_type(record_type: u16) -> (valid: bool) {
        record_type == 0x113c
    }

    fn read(bytes: &[u8]) -> (record: Option<CompileSym3>) {
        if bytes.len() < 26 {
            return None;
        }
        let version = match read_terminated_text(bytes, 26) {
            Some(version) => version,
            None => {
                return None;
            },
        };
        Some(
            CompileSym3 {
                reclen: read_le_u16(bytes, 0),
                rectyp: read_le_u16(bytes, 2),
                flags: CompileSym3Flags {
                    language: bytes[4],
                    flags: read_le_u16(bytes, 5),
                    pad: bytes[7],
                },
                machine: read_le_u16(bytes, 8),
                ver_frontend_major: read_le_u16(bytes, 10),
                ver_frontend_eminor: read_le_u16(bytes, 12),
                ver_frontend_build: read_le_u16(bytes, 14),
                ver_frontend_qfe: read_le_u16(bytes, 16),
                ver_major: read_le_u16(bytes, 18),
                ver_minor: read_le_u16(bytes, 20),
                ver_build: read_le_u16(bytes, 22),
                ver_qfe: read_le_u16(bytes, 24),
                version,
            },
        )
    }
}

/// The compiler of a compilation unit, as older compilers note it.
#[derive(Debug)]
pub struct CompileSym1 {
    pub reclen: u16,
    pub rectyp: u16,
    pub flags: CompileSym1Flags,
    pub machine: u16,
    pub ver_frontend_major: u16,
    pub ver_frontend_eminor: u16,
    pub ver_frontend_build: u16,
    pub ver_major: u16,
    pub ver_minor: u16,
    pub ver_build: u16,
    /// The compiler's version text.
    pub version: Vec<u8>,
}

pub struct CompileSym1View {
    pub reclen: u16,
    pub rectyp: u16,
    pub flags: CompileSym1Flags,
    pub machine: u16,
    pub ver_frontend_major: u16,
    pub ver_frontend_eminor: u16,
    pub ver_frontend_build: u16,
    pub ver_major: u16,
    pub ver_minor: u16,
    pub ver_build: u16,
    pub version: Seq<u8>,
}

impl RecordEntry for CompileSym1 {
    type Model = CompileSym1View;

    open spec fn model(&self) -> CompileSym1View {
        CompileSym1View {
            reclen: self.reclen,
            rectyp: self.rectyp,
            flags: self.flags,
            machine: self.machine,
            ver_frontend_major: self.ver_frontend_major,
            ver_frontend_eminor: self.ver_frontend_eminor,
            ver_frontend_build: self.ver_frontend_build,
            ver_major: self.ver_major,
            ver_minor: self.ver_minor,
            ver_build: self.ver_build,
            version: self.version@,
        }
    }

    open spec fn accepts(record_type: u16) -> bool {
        record_type == 0x1116
    }

    open spec fn parsed(bytes: Seq<u8>) -> Option<CompileSym1View> {
        if bytes.len() < 22 {
            None
        } else {
            match terminated_text(bytes, 22) {
                None => None,
                Some(version) => Some(
                    CompileSym1View {
                        reclen: le_u16(bytes, 0),
                        rectyp: le_u16(bytes, 2),
                        flags: CompileSym1Flags {
                            language: bytes[4],
                            flags: le_u16(bytes, 5),
                            pad: bytes[7],
                        },
                        machine: le_u16(bytes, 8),
                        ver_frontend_major: le_u16(bytes, 10),
                        ver_frontend_eminor: le_u16(bytes, 12),
                        ver_frontend_build: le_u16(bytes, 14),
                        ver_major: le_u16(bytes, 16),
                        ver_minor: le_u16(bytes, 18),
                        ver_build: le_u16(bytes, 20),
                        version,
                    },
                ),
            }
        }
    }

    fn is_valid_record_type(record_type: u16) -> (valid: bool) {
        record_type == 0x1116
    }

    fn read(bytes: &[u8]) -> (record: Option<CompileSym1>) {
        if bytes.len() < 22 {
            return None;
        }
        let version = match read_terminated_text(bytes, 22) {
            Some(version) => version,
            None => {
                return None;
            },
        };
        Some(
            CompileSym1 {
                reclen: read_le_u16(bytes, 0),
                rectyp: read_le_u16(bytes, 2),
                flags: CompileSym1Flags {
                    language: bytes[4],
                    flags: read_le_u16(bytes, 5),
                    pad: bytes[7],
                },
                machine: read_le_u16(bytes, 8),
                ver_frontend_major: read_le_u16(bytes, 10),
                ver_frontend_eminor: read_le_u16(bytes, 12),
                ver_frontend_build: read_le_u16(bytes, 14),
                ver_major: read_le_u16(bytes, 16),
                ver_minor: read_le_u16(bytes, 18),
                ver_build: read_le_u16(bytes, 20),
                version,
            },
        )
    }
}

/// The compiler of a compilation unit, in either form.
#[derive(Debug)]
pub enum CompileSym {
    Symbol1(CompileSym1),
    Symbol3(CompileSym3),
}

pub enum CompileSymView {
    Symbol1(CompileSym1View),
    Symbol3(CompileSym3View),
}

impl RecordEntry for CompileSym {
    type Model = CompileSymView;

    open spec fn model(&self) -> CompileSymView {
        match self {
            CompileSym::Symbol1(symbol) => CompileSymView::Symbol1(symbol.model()),
            CompileSym::Symbol3(symbol) => CompileSymView::Symbol3(symbol.model()),
        }
    }

    open spec fn accepts(record_type: u16) -> bool {
        CompileSym1::accepts(record_type) || CompileSym3::accepts(record_type)
    }

    /// The record in the form that its type field names.
    open spec fn parsed(bytes: Seq<u8>) -> Option<CompileSymView> {
        if bytes.len() < 4 {
            None
        } else if CompileSym1::accepts(le_u16(bytes, 2)) {
            match CompileSym1::parsed(bytes) {
                Some(symbol) => Some(CompileSymView::Symbol1(symbol)),
                None => None,
            }
        } else if CompileSym3::accepts(le_u16(bytes, 2)) {
            match CompileSym3::parsed(bytes) {
                Some(symbol) => Some(CompileSymView::Symbol3(symbol)),
                None => None,
            }
        } else {
            None
        }
    }

    fn is_valid_record_type(record_type: u16) -> (valid: bool) {
        CompileSym1::is_valid_record_type(record_type) || CompileSym3::is_valid_record_type(
            record_type,
        )
    }

    fn read(bytes: &[u8]) -> (record: Option<CompileSym>) {
        if bytes.len() < 4 {
            return None;
        }
        let record_type = read_le_u16(bytes, 2);
        if CompileSym1::is_valid_record_type(record_type) {
            match CompileSym1::read(bytes) {
                Some(symbol) => Some(Self::Symbol1(symbol)),
                None => None,
            }
        } else if CompileSym3::is_valid_record_type(record_type) {
            match CompileSym3::read(bytes) {
                Some(symbol) => Some(Self::Symbol3(symbol)),
                None => None,
            }
        } else {
            None
        }
    }
}

/// A namespace that a compilation unit uses.
#[derive(Debug)]
pub struct Namespace {
    pub reclen: u16,
    pub rectyp: u16,
    pub name: Vec<u8>,
}

pub struct NamespaceView {
    pub reclen: u16,
    pub rectyp: u16,
    pub name: Seq<u8>,
}

impl RecordEntry for Namespace {
    type Model = NamespaceView;

    open spec fn model(&self) -> NamespaceView {
        NamespaceView { reclen: self.reclen, rectyp: self.rectyp, name: self.name@ }
    }

    open spec fn accepts(record_type: u16) -> bool {
        record_type == 0x1124
    }

    open spec fn parsed(bytes: Seq<u8>) -> Option<NamespaceView> {
        if bytes.len() < 4 {
            None
        } else {
            match terminated_text(bytes, 4) {
                None => None,
                Some(name) => Some(
                    NamespaceView { reclen: le_u16(bytes, 0), rectyp: le_u16(bytes, 2), name },
                ),
            }
        }
    }

    fn is_valid_record_type(record_type: u16) -> (valid: bool) {
        record_type == 0x1124
    }

    fn read(bytes: &[u8]) -> (record: Option<Namespace>) {
        if bytes.len() < 4 {
            return None;
        }
        let name = match read_terminated_text(bytes, 4) {
            Some(name) => name,
            None => {
                return None;
            },
        };
        Some(Namespace { reclen: read_le_u16(bytes, 0), rectyp: read_le_u16(bytes, 2), name })
    }
}

/// A named constant.
#[derive(Debug)]
pub struct ConstantSymbol {
    pub reclen: u16,
    pub rectyp: u16,
    pub type_index: TypeId,
    pub value: u16,
    pub name: CodeViewString,
}

pub struct ConstantSymbolView {
    pub reclen: u16,
    pub rectyp: u16,
    pub type_index: TypeId,
    pub value: u16,
    pub name: Seq<u8>,
}

impl RecordEntry for ConstantSymbol {
    type Model = ConstantSymbolView;

    open spec fn model(&self) -> ConstantSymbolView {
        ConstantSymbolView {
            reclen: self.reclen,
            rectyp: self.rectyp,
            type_index: self.type_index,
            value: self.value,
            name: self.name.0@,
        }
    }

    open spec fn accepts(record_type: u16) -> bool {
        record_type == 0x1107
    }

    open spec fn parsed(bytes: Seq<u8>) -> Option<ConstantSymbolView> {
        if bytes.len() < 10 {
            None
        } else {
            match counted_text(bytes, 10) {
                None => None,
                Some(name) => Some(
                    ConstantSymbolView {
                        reclen: le_u16(bytes, 0),
                        rectyp: le_u16(bytes, 2),
                        type_index: TypeId(le_u32(bytes, 4)),
                        value: le_u16(bytes, 8),
                        name,
                    },
                ),
            }
        }
    }

    fn is_valid_record_type(record_type: u16) -> (valid: bool) {
        record_type == 0x1107
    }

    fn read(bytes: &[u8]) -> (record: Option<ConstantSymbol>) {
        if bytes.len() < 10 {
            return None;
        }
        let name = match CodeViewString::read(bytes, 10) {
            Some(name) => name,
            None => {
                return None;
            },
        };
        Some(
            ConstantSymbol {
                reclen: read_le_u16(bytes, 0),
                rectyp: read_le_u16(bytes, 2),
                type_index: TypeId(read_le_u32(bytes, 4)),
                value: read_le_u16(bytes, 8),
                name,
            },
        )
    }
}

} // verus!
