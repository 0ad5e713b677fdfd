//! Reading the symbol records of the streams of a symbol file.

use vstd::prelude::*;
use vstd::string::StringExecFns;
use vstd::utf8::decode_utf8;
use vstd::utf8::valid_utf8;

use crate::memory::le_u16;
use crate::memory::le_u32;
use crate::query_pdb::parser::trim_zeros;
use crate::query_pdb::parser::trimmed;
use crate::search::first_from;
use crate::search::first_true;
use crate::text::same_text;

use crate::query_pdb::code_view::CompileSym;
use crate::query_pdb::code_view::CompileSymView;
use crate::query_pdb::code_view::ConstantSymbol;
use crate::query_pdb::code_view::ConstantSymbolView;
use crate::query_pdb::code_view::Namespace;
use crate::query_pdb::code_view::NamespaceView;
use crate::query_pdb::code_view::RecordEntry;
use crate::query_pdb::parser::record_parsed;
use crate::query_pdb::parser::Parser;

pub mod code_view;
pub mod parser;

verus! {

/// The kind of stream that holds the symbols of one source file.
pub const SYMBOL_STREAM_KIND: u32 = 4;

/// The type of the record that ends the symbols of a stream.
pub const S_END: u16 = 0x6;

/// The path of the source file that a stream of symbols is about, where
/// the stream is such a stream: it begins with its kind, which is four, the
/// length of what follows, and ten bytes behind which the path lies, filled
/// up with zero characters.
pub open spec fn stream_file_path(stream: Seq<u8>) -> Option<Seq<char>> {
    if stream.len() < 12 || le_u32(stream, 0) != SYMBOL_STREAM_KIND || le_u16(stream, 4) < 6
        || 12 + (le_u16(stream, 4) - 6) > stream.len() || !valid_utf8(
        stream.subrange(12, 12 + (le_u16(stream, 4) - 6)),
    ) {
        None
    } else {
        Some(trimmed(decode_utf8(stream.subrange(12, 12 + (le_u16(stream, 4) - 6)))))
    }
}

/// One symbol of a source file.
#[derive(Debug)]
pub enum SymbolRecord {
    Compile(CompileSym),
    Constant(ConstantSymbol),
    Namespace(Namespace),
}

pub enum SymbolRecordView {
    Compile(CompileSymView),
    Constant(ConstantSymbolView),
    Namespace(NamespaceView),
}

impl SymbolRecord {
    pub open spec fn model(&self) -> SymbolRecordView {
        match self {
            SymbolRecord::Compile(record) => SymbolRecordView::Compile(record.model()),
            SymbolRecord::Constant(record) => SymbolRecordView::Constant(record.model()),
            SymbolRecord::Namespace(record) => SymbolRecordView::Namespace(record.model()),
        }
    }
}

/// What the models of a list of records are.
pub open spec fn models(records: Seq<SymbolRecord>) -> Seq<SymbolRecordView> {
    Seq::new(records.len(), |i: int| records[i].model())
}

/// Where the symbol records of a stream begin: behind the kind of the
/// stream, a length, and as many bytes as the length says.
pub open spec fn records_start(stream: Seq<u8>) -> int {
    if 6 + le_u16(stream, 4) <= stream.len() {
        6 + le_u16(stream, 4)
    } else {
        stream.len() as int
    }
}

/// The constants and namespaces among the records from `position` on,
/// behind those that are `done`. Reading ends at the end record, at a record
/// that cannot be read, and where no bytes are left. A record of another
/// kind is passed over by its length less two.
pub open spec fn symbols_from(stream: Seq<u8>, position: int, done: Seq<SymbolRecordView>) -> Seq<
    SymbolRecordView,
>
    decreases stream.len() - position,
{
    if position < 0 || position + 4 > stream.len() {
        done
    } else {
        let length = le_u16(stream, position);
        let kind = le_u16(stream, position + 2);
        if kind == S_END {
            done
        } else if kind == 0x1107 {
            match record_parsed::<ConstantSymbol>(stream, position) {
                Some(parsed) => if parsed.1 > position {
                    symbols_from(stream, parsed.1, done.push(SymbolRecordView::Constant(parsed.0)))
                } else {
                    done
                },
                None => done,
            }
        } else if kind == 0x1124 {
            match record_parsed::<Namespace>(stream, position) {
                Some(parsed) => if parsed.1 > position {
                    symbols_from(
                        stream,
                        parsed.1,
                        done.push(SymbolRecordView::Namespace(parsed.0)),
                    )
                } else {
                    done
                },
                None => done,
            }
        } else if length > 2 && position + (length - 2) <= stream.len() {
            symbols_from(stream, position + (length - 2), done)
        } else {
            done
        }
    }
}

/// The symbols of a stream: the record of the compiler first, and then the
/// constants and namespaces. `None` where the stream is too short for its
/// head or does not begin with the record of the compiler.
pub open spec fn stream_symbols(stream: Seq<u8>) -> Option<Seq<SymbolRecordView>> {
    if stream.len() < 6 {
        None
    } else {
        match record_parsed::<CompileSym>(stream, records_start(stream)) {
            None => None,
            Some(parsed) => Some(
                symbols_from(stream, parsed.1, seq![SymbolRecordView::Compile(parsed.0)]),
            ),
        }
    }
}

/// The symbols of one source file.
#[derive(Debug)]
pub struct DebugSymbolsFromFile {
    /// The stream of the symbol file that holds the symbols.
    pub stream_index: u16,
    /// The source file.
    pub file_path: String,
}

impl DebugSymbolsFromFile {
    /// Reads the symbols of the source file from its stream.
    pub fn read(&self, stream: &[u8]) -> (symbols: Option<Vec<SymbolRecord>>)
        ensures
            match stream_symbols(stream@) {
                Some(found) => symbols matches Some(read) && models(read@) == found,
                None => symbols is None,
            },
    {
        let mut parser = Parser::new(stream);
        if parser.remaining() < 6 {
            return None;
        }
        parser.read_u32();
        let length = parser.read_u16();
        parser.skip(length as usize);
        let version = match parser.try_parse::<CompileSym>() {
            Some(version) => version,
            None => {
                return None;
            },
        };
        let mut records: Vec<SymbolRecord> = Vec::new();
        records.push(SymbolRecord::Compile(version));
        assert(models(records@) =~= seq![SymbolRecordView::Compile(version.model())]);
        let ghost all = stream_symbols(stream@)->0;
        loop
            invariant
                parser.buffer() == stream@,
                0 <= parser.position() <= stream@.len(),
                all == symbols_from(stream@, parser.position(), models(records@)),
            ensures
                all == models(records@),
            decreases stream@.len() - parser.position(),
        {
            if parser.remaining() < 4 {
                break ;
            }
            let mut peek = parser.peek();
            let length = peek.read_u16();
            let kind = peek.read_u16();
            let ghost before = models(records@);
            let ghost position = parser.position();
            if kind == S_END {
                break ;
            } else if kind == 0x1107 {
                match parser.try_parse::<ConstantSymbol>() {
                    Some(constant) => {
                        records.push(SymbolRecord::Constant(constant));
                        assert(models(records@) =~= before.push(
                            SymbolRecordView::Constant(constant.model()),
                        ));
                    },
                    None => {
                        break ;
                    },
                }
            } else if kind == 0x1124 {
                match parser.try_parse::<Namespace>() {
                    Some(namespace) => {
                        records.push(SymbolRecord::Namespace(namespace));
                        assert(models(records@) =~= before.push(
                            SymbolRecordView::Namespace(namespace.model()),
                        ));
                    },
                    None => {
                        break ;
                    },
                }
            } else if length > 2 && (length as usize - 2) <= parser.remaining() {
                parser.skip(length as usize - 2);
            } else {
                break ;
            }
        }
        Some(records)
    }
}

/// Reads the head of a stream of a symbol file and says of which source
/// file the stream holds the symbols, where it holds those of one.
pub fn read_symbols_for_file(stream: &[u8], stream_index: u16) -> (symbols: Option<
    DebugSymbolsFromFile,
>)
    ensures
        match stream_file_path(stream@) {
            Some(path) => symbols matches Some(found) && found.stream_index == stream_index
                && found.file_path@ == path,
            None => symbols is None,
        },
{
    let mut parser = Parser::new(stream);
    if parser.remaining() < 12 {
        return None;
    }
    let kind = parser.read_u32();
    let length = parser.read_u16();
    if kind != SYMBOL_STREAM_KIND {
        return None;
    }
    let _padding = parser.read_u16();
    let _sbz = parser.read_u32();
    if length < 6 {
        return None;
    }
    match parser.try_read_string_with_length(length as usize - 6) {
        Some(text) => Some(
            DebugSymbolsFromFile { stream_index, file_path: String::from_str(trim_zeros(text)) },
        ),
        None => None,
    }
}

/// The symbols of the source files of a symbol file, one entry for each
/// source file.
#[derive(Debug)]
pub struct DebugSymbolsCollection {
    files: Vec<DebugSymbolsFromFile>,
}

/// The entries after a further one has been noted: it takes the place of
/// the entry for the same source file, where there is one, and else comes
/// last.
pub open spec fn noted(entries: Seq<(Seq<char>, u16)>, path: Seq<char>, index: u16) -> Seq<
    (Seq<char>, u16),
> {
    match first_true(Seq::new(entries.len(), |i: int| entries[i].0 == path)) {
        Some(at) => entries.update(at, (path, index)),
        None => entries.push((path, index)),
    }
}

/// The entries for the streams from `from` on, behind the entries `done`.
pub open spec fn collected(streams: Seq<Seq<u8>>, from: int, done: Seq<(Seq<char>, u16)>) -> Seq<
    (Seq<char>, u16),
>
    decreases streams.len() - from,
{
    if from < 0 || from >= streams.len() || from > u16::MAX {
        done
    } else {
        match stream_file_path(streams[from]) {
            Some(path) => collected(streams, from + 1, noted(done, path, from as u16)),
            None => collected(streams, from + 1, done),
        }
    }
}

impl DebugSymbolsCollection {
    /// The entries as pairs of a source file and the index of its stream.
    pub closed spec fn view(&self) -> Seq<(Seq<char>, u16)> {
        Seq::new(
            self.files@.len(),
            |i: int| (self.files@[i].file_path@, self.files@[i].stream_index),
        )
    }

    /// Goes through the streams of a symbol file, which are given in the
    /// order of their indices, and notes for each source file the stream
    /// that holds its symbols.
    pub fn read_from_streams(streams: &Vec<Vec<u8>>) -> (collection: DebugSymbolsCollection)
        ensures
            collection@ == collected(streams.deep_view(), 0, Seq::empty()),
    {
        let mut collection = DebugSymbolsCollection { files: Vec::new() };
        let mut index: usize = 0;
        assert(collection@ =~= Seq::<(Seq<char>, u16)>::empty());
        while index < streams.len() && index <= 0xffff
            invariant
                index <= streams.len(),
                collected(streams.deep_view(), 0, Seq::empty()) == collected(
                    streams.deep_view(),
                    index as int,
                    collection@,
                ),
            decreases streams.len() - index,
        {
            assert(streams.deep_view()[index as int] == streams@[index as int]@);
            match read_symbols_for_file(streams[index].as_slice(), index as u16) {
                Some(file) => {
                    collection.insert(file);
                },
                None => {},
            }
            index += 1;
        }
        collection
    }

    /// Notes the symbols of a source file, in place of those that were
    /// noted for the same source file before.
    pub fn insert(&mut self, file: DebugSymbolsFromFile)
        ensures
            final(self)@ == noted(old(self)@, file.file_path@, file.stream_index),
    {
        let ghost flags = Seq::new(old(self)@.len(), |i: int| old(self)@[i].0 == file.file_path@);
        let mut at: usize = 0;
        while at < self.files.len()
            invariant
                at <= self.files.len(),
                *self == *old(self),
                flags == Seq::new(old(self)@.len(), |i: int| old(self)@[i].0 == file.file_path@),
                first_true(flags) == first_from(flags, at as int),
            decreases self.files.len() - at,
        {
            let same = same_text(self.files[at].file_path.as_str(), file.file_path.as_str());
            assert(same == flags[at as int]);
            if same {
                let ghost path = file.file_path@;
                let ghost stream = file.stream_index;
                self.files.remove(at);
                self.files.insert(at, file);
                assert(self@ =~= old(self)@.update(at as int, (path, stream)));
                return ;
            }
            at += 1;
        }
        let ghost path = file.file_path@;
        let ghost stream = file.stream_index;
        self.files.push(file);
        assert(self@ =~= old(self)@.push((path, stream)));
    }

    /// The entries, in the order in which their source files were noted
    /// first.
    pub fn files(&self) -> (files: &Vec<DebugSymbolsFromFile>)
        ensures
            Seq::new(files@.len(), |i: int| (files@[i].file_path@, files@[i].stream_index))
                == self@,
    {
        &self.files
    }
}

} // verus!
