//! The modules and threads of the target, and the names of its addresses.

use vstd::prelude::*;
use vstd::string::StringExecFns;

use crate::error::Error;
use crate::error::ErrorView;
use crate::memory::data_read;
use crate::memory::full_array_read;
use crate::memory::string_read;
use crate::memory::MemorySource;
use crate::pe::DataDirectory;
use crate::pe::DebugDirectory;
use crate::pe::DosHeader;
use crate::pe::ExportDirectory;
use crate::pe::NtHeaders;
use crate::pe::PdbInfo;
use crate::pe::IMAGE_DEBUG_TYPE_CODEVIEW;
use crate::pe::IMAGE_FILE_MACHINE_AMD64;
use crate::search::first_from;
use crate::search::first_true;
use crate::search::lemma_first_from;
use crate::text::ascii_chars;
use crate::text::decimal_digits;
use crate::text::chars_of;
use crate::text::hex_digits;
use crate::text::same_text;
use crate::text::with_decimal_suffix;
use crate::text::with_hex_suffix;

verus! {

/// Where an export leads.
#[derive(Debug)]
pub enum ExportTarget {
    /// The address of the exported code or data in the target.
    Rva(u64),
    /// The export stands for a symbol of another module, named here as
    /// `module.symbol`.
    Forwarder(String),
}

pub enum ExportTargetView {
    Rva(u64),
    Forwarder(Seq<char>),
}

impl DeepView for ExportTarget {
    type V = ExportTargetView;

    open spec fn deep_view(&self) -> ExportTargetView {
        match self {
            ExportTarget::Rva(address) => ExportTargetView::Rva(*address),
            ExportTarget::Forwarder(name) => ExportTargetView::Forwarder(name@),
        }
    }
}

impl ExportTargetView {
    /// The address that the export leads to, unless it is a forwarder.
    pub open spec fn as_rva(self) -> Option<u64> {
        match self {
            ExportTargetView::Rva(address) => Some(address),
            ExportTargetView::Forwarder(_) => None,
        }
    }
}

impl ExportTarget {
    /// The address that the export leads to, unless it is a forwarder.
    pub fn as_rva(&self) -> (address: Option<u64>)
        ensures
            address == self.deep_view().as_rva(),
    {
        match self {
            ExportTarget::Rva(it) => Some(*it),
            _ => None,
        }
    }
}

/// A symbol that a module offers to other modules.
#[derive(Debug)]
pub struct Export {
    pub name: Option<String>,
    /// The ordinal as other modules use it: the ordinal base of the module
    /// plus the index of the export in the module's function table.
    pub ordinal: u32,
    pub target: ExportTarget,
}

pub struct ExportView {
    pub name: Option<Seq<char>>,
    pub ordinal: u32,
    pub target: ExportTargetView,
}

impl DeepView for Export {
    type V = ExportView;

    open spec fn deep_view(&self) -> ExportView {
        ExportView {
            name: self.name.deep_view(),
            ordinal: self.ordinal,
            target: self.target.deep_view(),
        }
    }
}

/// A public symbol of a module's symbol file. `rva` is where the symbol
/// lies, relative to the module's base, where the symbol file can tell.
#[derive(Debug)]
pub struct PublicSymbol {
    pub name: String,
    pub function: bool,
    pub rva: Option<u32>,
}

pub struct PublicSymbolView {
    pub name: Seq<char>,
    pub function: bool,
    pub rva: Option<u32>,
}

impl DeepView for PublicSymbol {
    type V = PublicSymbolView;

    open spec fn deep_view(&self) -> PublicSymbolView {
        PublicSymbolView { name: self.name@, function: self.function, rva: self.rva }
    }
}

/// A procedure of one of the compilation units of a module's symbol file.
#[derive(Debug)]
pub struct ProcedureSymbol {
    pub name: String,
    pub rva: Option<u32>,
}

pub struct ProcedureSymbolView {
    pub name: Seq<char>,
    pub rva: Option<u32>,
}

impl DeepView for ProcedureSymbol {
    type V = ProcedureSymbolView;

    open spec fn deep_view(&self) -> ProcedureSymbolView {
        ProcedureSymbolView { name: self.name@, rva: self.rva }
    }
}

/// What a module's symbol file says of its addresses: the public symbols, in
/// the order of the file's global symbol table, and the procedures of its
/// compilation units, unit by unit.
#[derive(Debug)]
pub struct PdbSymbols {
    pub publics: Vec<PublicSymbol>,
    pub procedures: Vec<ProcedureSymbol>,
}

pub struct PdbSymbolsView {
    pub publics: Seq<PublicSymbolView>,
    pub procedures: Seq<ProcedureSymbolView>,
}

impl DeepView for PdbSymbols {
    type V = PdbSymbolsView;

    open spec fn deep_view(&self) -> PdbSymbolsView {
        PdbSymbolsView {
            publics: self.publics.deep_view(),
            procedures: self.procedures.deep_view(),
        }
    }
}

/// One image that is loaded in the target.
#[derive(Debug)]
pub struct Module {
    pub name: Option<String>,
    pub address: u64,
    pub size: u64,
    pub exports: Vec<Export>,
    pub pdb_name: Option<String>,
    pub pdb_info: Option<PdbInfo>,
    pub symbols: Option<PdbSymbols>,
    pub pe_header: NtHeaders,
}

pub struct ModuleView {
    pub name: Option<Seq<char>>,
    pub address: u64,
    pub size: u64,
    pub exports: Seq<ExportView>,
    pub pdb_name: Option<Seq<char>>,
    pub pdb_info: Option<PdbInfo>,
    pub symbols: Option<PdbSymbolsView>,
    pub pe_header: NtHeaders,
}

impl DeepView for Module {
    type V = ModuleView;

    open spec fn deep_view(&self) -> ModuleView {
        ModuleView {
            name: self.name.deep_view(),
            address: self.address,
            size: self.size,
            exports: self.exports.deep_view(),
            pdb_name: self.pdb_name.deep_view(),
            pdb_info: self.pdb_info,
            symbols: self.symbols.deep_view(),
            pe_header: self.pe_header,
        }
    }
}

/// The data directories of an image that the debugger reads.
#[derive(Debug, Clone, Copy, PartialEq, Eq, Structural)]
pub enum DirectoryEntry {
    Export,
    Exception,
    Debug,
}

/// The data directory of the given kind, unless it is empty: one of no size,
/// or one that lies nowhere.
pub open spec fn data_directory(header: NtHeaders, entry: DirectoryEntry) -> Option<DataDirectory> {
    let directory = match entry {
        DirectoryEntry::Export => header.export_directory,
        DirectoryEntry::Exception => header.exception_directory,
        DirectoryEntry::Debug => header.debug_directory,
    };
    if directory.size == 0 || directory.virtual_address == 0 {
        None
    } else {
        Some(directory)
    }
}

impl ModuleView {
    /// The name under which the module is shown: the name that was found
    /// when it was loaded, or `module_` and its base address in base sixteen.
    pub open spec fn name(self) -> Seq<char> {
        match self.name {
            Some(name) => name,
            None => "module_"@ + ascii_chars(hex_digits(self.address as nat, true)),
        }
    }

    /// Whether an address lies in the image.
    pub open spec fn contains_address(self, address: u64) -> bool {
        self.address <= address < self.address + self.size
    }

    /// For each export, whether it has the given name.
    pub open spec fn exports_named(self, name: Seq<char>) -> Seq<bool> {
        Seq::new(self.exports.len(), |i: int| self.exports[i].name == Some(name))
    }

    /// For each procedure of the symbol file, whether it has the given name.
    pub open spec fn procedures_named(self, name: Seq<char>) -> Seq<bool> {
        match self.symbols {
            Some(symbols) => Seq::new(
                symbols.procedures.len(),
                |i: int| symbols.procedures[i].name == name,
            ),
            None => Seq::empty(),
        }
    }

    /// The address of a procedure of the symbol file: that of the first
    /// procedure of the given name, where the symbol file can place it.
    pub open spec fn resolve_symbol(self, name: Seq<char>) -> Option<u64> {
        match first_true(self.procedures_named(name)) {
            Some(index) => match self.symbols->0.procedures[index].rva {
                Some(rva) => Some(self.address.wrapping_add(rva as u64)),
                None => None,
            },
            None => None,
        }
    }

    /// The address of a function: that of the first export of the given
    /// name, unless there is none or it is a forwarder, and then that of the
    /// procedure of that name.
    pub open spec fn resolve_function(self, name: Seq<char>) -> Option<u64> {
        match first_true(self.exports_named(name)) {
            Some(index) => match self.exports[index].target.as_rva() {
                Some(address) => Some(address),
                None => self.resolve_symbol(name),
            },
            None => self.resolve_symbol(name),
        }
    }
}

impl Module {
    /// The name under which the module is shown.
    pub fn name(&self) -> (name: String)
        ensures
            name@ == self.deep_view().name(),
    {
        match &self.name {
            Some(name) => name.clone(),
            None => with_hex_suffix("module_", self.address),
        }
    }

    pub fn contains_address(&self, address: u64) -> (contained: bool)
        ensures
            contained == self.deep_view().contains_address(address),
    {
        self.address <= address && address - self.address < self.size
    }

    pub fn resolve_function(&self, function_name: &str) -> (address: Option<u64>)
        ensures
            address == self.deep_view().resolve_function(function_name@),
    {
        let ghost flags = self.deep_view().exports_named(function_name@);
        let mut index: usize = 0;
        while index < self.exports.len()
            invariant
                index <= self.exports.len(),
                flags == self.deep_view().exports_named(function_name@),
                first_true(flags) == first_from(flags, index as int),
            decreases self.exports.len() - index,
        {
            let export = &self.exports[index];
            let named = match &export.name {
                Some(name) => same_text(name.as_str(), function_name),
                None => false,
            };
            assert(named == flags[index as int]);
            if named {
                match export.target.as_rva() {
                    Some(address) => {
                        return Some(address);
                    },
                    None => {
                        return self.resolve_symbol(function_name);
                    },
                }
            }
            index += 1;
        }
        self.resolve_symbol(function_name)
    }

    pub fn resolve_symbol(&self, function_name: &str) -> (address: Option<u64>)
        ensures
            address == self.deep_view().resolve_symbol(function_name@),
    {
        match &self.symbols {
            None => None,
            Some(symbols) => {
                let ghost flags = self.deep_view().procedures_named(function_name@);
                let mut index: usize = 0;
                while index < symbols.procedures.len()
                    invariant
                        index <= symbols.procedures.len(),
                        self.symbols == Some(*symbols),
                        flags == self.deep_view().procedures_named(function_name@),
                        first_true(flags) == first_from(flags, index as int),
                    decreases symbols.procedures.len() - index,
                {
                    let procedure = &symbols.procedures[index];
                    let named = same_text(procedure.name.as_str(), function_name);
                    assert(named == flags[index as int]);
                    if named {
                        return match procedure.rva {
                            Some(rva) => Some(self.address.wrapping_add(rva as u64)),
                            None => None,
                        };
                    }
                    index += 1;
                }
                None
            },
        }
    }

    pub fn get_data_directory(&self, entry: DirectoryEntry) -> (directory: Option<DataDirectory>)
        ensures
            directory == data_directory(self.pe_header, entry),
    {
        directory_of(&self.pe_header, entry)
    }
}

/// The data directory of the given kind, unless it is empty.
pub fn directory_of(header: &NtHeaders, entry: DirectoryEntry) -> (directory: Option<
    DataDirectory,
>)
    ensures
        directory == data_directory(*header, entry),
{
    let result = match entry {
        DirectoryEntry::Export => header.export_directory,
        DirectoryEntry::Exception => header.exception_directory,
        DirectoryEntry::Debug => header.debug_directory,
    };
    if result.size == 0 || result.virtual_address == 0 {
        None
    } else {
        Some(result)
    }
}

/// The lower-case form of a text, as `str::to_lowercase` gives it.
pub uninterp spec fn lowercased(text: Seq<char>) -> Seq<char>;

/// Turns a text to lower case with `str::to_lowercase`, which goes by the
/// Unicode lower-case mapping of each character.
#[verifier::external_body]
fn lowercase(text: &str) -> (lower: String)
    ensures
        lower@ == lowercased(text@),
{
    text.to_lowercase()
}

/// Where the last component of a path begins, looking at its first `upto`
/// characters: behind the last backslash among them, or at the start.
pub open spec fn last_component_start(path: Seq<char>, upto: int) -> int
    decreases upto,
{
    if upto <= 0 {
        0
    } else if path[upto - 1] == '\\' {
        upto
    } else {
        last_component_start(path, upto - 1)
    }
}

/// What follows the last backslash of a path, or the whole path where it has
/// none.
pub open spec fn last_component(path: Seq<char>) -> Seq<char> {
    path.skip(last_component_start(path, path.len() as int))
}

/// Whether a module name is the name looked for: as a whole, or by its last
/// path component. Both are in lower case already.
pub open spec fn names_match(module_lower: Seq<char>, needle_lower: Seq<char>) -> bool {
    module_lower == needle_lower || last_component(module_lower) == needle_lower
}

/// Whether a module name is the name looked for, whatever the case of
/// either.
pub open spec fn names_equal(module_name: Seq<char>, needle_name: Seq<char>) -> bool {
    names_match(lowercased(module_name), lowercased(needle_name))
}

/// Whether a module name is the name looked for, where both are in lower
/// case already.
pub fn name_matches(module_lower: &str, needle_lower: &str) -> (matches: bool)
    ensures
        matches == names_match(module_lower@, needle_lower@),
{
    let module = chars_of(module_lower);
    let needle = chars_of(needle_lower);
    let mut start: usize = module.len();
    while start > 0 && module[start - 1] != '\\'
        invariant
            start <= module.len(),
            last_component_start(module@, module.len() as int) == last_component_start(
                module@,
                start as int,
            ),
        decreases start,
    {
        start -= 1;
    }
    let ghost component = last_component(module@);
    assert(component == module@.skip(start as int));
    let whole = same_text(module_lower, needle_lower);
    if whole {
        return true;
    }
    if module.len() - start != needle.len() {
        return false;
    }
    let mut i: usize = 0;
    while i < needle.len()
        invariant
            i <= needle.len(),
            start <= module.len(),
            module.len() - start == needle.len(),
            component == module@.skip(start as int),
            component == last_component(module_lower@),
            needle@ == needle_lower@,
            module_lower@ != needle_lower@,
            forall|k: int| 0 <= k < i ==> component[k] == needle@[k],
        decreases needle.len() - i,
    {
        if module[start + i] != needle[i] {
            assert(component[i as int] != needle@[i as int]);
            return false;
        }
        i += 1;
    }
    assert(component =~= needle@);
    true
}

/// Whether a module name is the name looked for: as a whole, or by its last
/// path component, whatever the case of either.
pub fn name_equals(module_name: &str, needle_name: &str) -> (equal: bool)
    ensures
        equal == names_equal(module_name@, needle_name@),
{
    let module_lower = lowercase(module_name);
    let needle_lower = lowercase(needle_name);
    name_matches(module_lower.as_str(), needle_lower.as_str())
}

/// A symbol with the address at which it lies.
pub struct SymbolMatch {
    pub address: u64,
    pub name: Seq<char>,
}

/// The name under which an export is shown: its own, or `Ordinal` and its
/// ordinal in base ten.
pub open spec fn export_symbol_name(export: ExportView) -> Seq<char> {
    match export.name {
        Some(name) => name,
        None => "Ordinal"@ + ascii_chars(decimal_digits(export.ordinal as nat)),
    }
}

/// The better of the best symbol so far and a further one for `address`:
/// the further one, where it does not lie behind `address` and not before
/// the best so far.
pub open spec fn closer(
    best: Option<SymbolMatch>,
    candidate: SymbolMatch,
    address: u64,
) -> Option<SymbolMatch> {
    if candidate.address <= address && (best is None || best->0.address <= candidate.address) {
        Some(candidate)
    } else {
        best
    }
}

/// The closest symbol at or before `address` among the first `upto`
/// exports. Forwarders lie nowhere and are passed over.
pub open spec fn closest_export(exports: Seq<ExportView>, address: u64, upto: int) -> Option<
    SymbolMatch,
>
    decreases upto,
{
    if upto <= 0 {
        None
    } else {
        let best = closest_export(exports, address, upto - 1);
        match exports[upto - 1].target.as_rva() {
            Some(target) => closer(
                best,
                SymbolMatch { address: target, name: export_symbol_name(exports[upto - 1]) },
                address,
            ),
            None => best,
        }
    }
}

/// Where a public symbol lies in the target. A symbol that the symbol file
/// cannot place lies at the module's base.
pub open spec fn public_address(base: u64, symbol: PublicSymbolView) -> u64 {
    match symbol.rva {
        Some(rva) => base.wrapping_add(rva as u64),
        None => base,
    }
}

/// The closest symbol at or before `address` among `start` and the first
/// `upto` public symbols, of which only functions count.
pub open spec fn closest_public(
    publics: Seq<PublicSymbolView>,
    base: u64,
    address: u64,
    upto: int,
    start: Option<SymbolMatch>,
) -> Option<SymbolMatch>
    decreases upto,
{
    if upto <= 0 {
        start
    } else {
        let best = closest_public(publics, base, address, upto - 1, start);
        if publics[upto - 1].function {
            closer(
                best,
                SymbolMatch {
                    address: public_address(base, publics[upto - 1]),
                    name: publics[upto - 1].name,
                },
                address,
            )
        } else {
            best
        }
    }
}

/// The closest export does not lie behind the address.
pub proof fn lemma_closest_export_bound(exports: Seq<ExportView>, address: u64, upto: int)
    ensures
        closest_export(exports, address, upto) matches Some(symbol) ==> symbol.address <= address,
    decreases upto,
{
    if upto > 0 {
        lemma_closest_export_bound(exports, address, upto - 1);
    }
}

/// The closest public symbol does not lie behind the address, where the
/// symbol to start from does not.
pub proof fn lemma_closest_public_bound(
    publics: Seq<PublicSymbolView>,
    base: u64,
    address: u64,
    upto: int,
    start: Option<SymbolMatch>,
)
    requires
        start matches Some(symbol) ==> symbol.address <= address,
    ensures
        closest_public(publics, base, address, upto, start) matches Some(symbol)
            ==> symbol.address <= address,
    decreases upto,
{
    if upto > 0 {
        lemma_closest_public_bound(publics, base, address, upto - 1, start);
    }
}

impl ModuleView {
    /// The public symbols of the module's symbol file, or none where it has
    /// no symbol file.
    pub open spec fn publics(self) -> Seq<PublicSymbolView> {
        match self.symbols {
            Some(symbols) => symbols.publics,
            None => Seq::empty(),
        }
    }

    /// The closest symbol of the module at or before `address`: an export
    /// that is no forwarder, or a public function of the symbol file. Of
    /// two symbols at one address the later one is taken, and public
    /// symbols come after exports.
    pub open spec fn closest_symbol(self, address: u64) -> Option<SymbolMatch> {
        closest_public(
            self.publics(),
            self.address,
            address,
            self.publics().len() as int,
            closest_export(self.exports, address, self.exports.len() as int),
        )
    }

    /// The name of `address`: the module, an exclamation mark and the
    /// closest symbol, and where the address lies behind the symbol, `+0x`
    /// and the distance in base sixteen.
    pub open spec fn address_to_name(self, address: u64) -> Option<Seq<char>> {
        match self.closest_symbol(address) {
            Some(symbol) => Some(
                self.name() + "!"@ + symbol.name + if symbol.address == address {
                    Seq::<char>::empty()
                } else {
                    "+0x"@ + ascii_chars(hex_digits((address - symbol.address) as nat, true))
                },
            ),
            None => None,
        }
    }
}

impl Module {
    /// The closest symbol of the module at or before `address`, with the
    /// address at which it lies.
    pub fn closest_symbol(&self, address: u64) -> (closest: Option<(u64, String)>)
        ensures
            match self.deep_view().closest_symbol(address) {
                Some(symbol) => closest matches Some(found) && found.0 == symbol.address
                    && found.1@ == symbol.name && found.0 <= address,
                None => closest is None,
            },
    {
        proof {
            let view = self.deep_view();
            lemma_closest_export_bound(view.exports, address, view.exports.len() as int);
            lemma_closest_public_bound(
                view.publics(),
                view.address,
                address,
                view.publics().len() as int,
                closest_export(view.exports, address, view.exports.len() as int),
            );
        }
        let mut closest: Option<(u64, String)> = None;
        let ghost exports = self.deep_view().exports;
        let mut i: usize = 0;
        while i < self.exports.len()
            invariant
                i <= self.exports.len(),
                exports == self.deep_view().exports,
                match closest_export(exports, address, i as int) {
                    Some(symbol) => closest matches Some(found) && found.0 == symbol.address
                        && found.1@ == symbol.name,
                    None => closest is None,
                },
            decreases self.exports.len() - i,
        {
            let export = &self.exports[i];
            assert(exports[i as int] == export.deep_view());
            match export.target.as_rva() {
                Some(target) => {
                    let closer = target <= address && match &closest {
                        Some(found) => found.0 <= target,
                        None => true,
                    };
                    if closer {
                        let name = match &export.name {
                            Some(name) => name.clone(),
                            None => with_decimal_suffix("Ordinal", export.ordinal as u64),
                        };
                        closest = Some((target, name));
                    }
                },
                None => {},
            }
            i += 1;
        }
        match &self.symbols {
            None => {},
            Some(symbols) => {
                let ghost publics = self.deep_view().publics();
                let ghost start = closest_export(exports, address, exports.len() as int);
                let mut k: usize = 0;
                while k < symbols.publics.len()
                    invariant
                        k <= symbols.publics.len(),
                        publics == symbols.publics.deep_view(),
                        match closest_public(publics, self.address, address, k as int, start) {
                            Some(symbol) => closest matches Some(found) && found.0
                                == symbol.address && found.1@ == symbol.name,
                            None => closest is None,
                        },
                    decreases symbols.publics.len() - k,
                {
                    let symbol = &symbols.publics[k];
                    assert(publics[k as int] == symbol.deep_view());
                    if symbol.function {
                        let global_addr = match symbol.rva {
                            Some(rva) => self.address.wrapping_add(rva as u64),
                            None => self.address,
                        };
                        let closer = global_addr <= address && match &closest {
                            Some(found) => found.0 <= global_addr,
                            None => true,
                        };
                        if closer {
                            closest = Some((global_addr, symbol.name.clone()));
                        }
                    }
                    k += 1;
                }
            },
        }
        closest
    }

    /// The name of an address in the module, or `None` where no symbol of
    /// the module lies at or before it.
    pub fn address_to_name(&self, address: u64) -> (name: Option<String>)
        ensures
            name.deep_view() == self.deep_view().address_to_name(address),
    {
        match self.closest_symbol(address) {
            None => None,
            Some((symbol_address, symbol_name)) => {
                let mut text = self.name();
                text.append("!");
                text.append(symbol_name.as_str());
                if symbol_address != address {
                    let offset = with_hex_suffix("+0x", address - symbol_address);
                    text.append(offset.as_str());
                    assert(text@ =~= self.deep_view().name() + "!"@ + symbol_name@ + ("+0x"@
                        + ascii_chars(hex_digits((address - symbol_address) as nat, true))));
                } else {
                    assert(text@ =~= self.deep_view().name() + "!"@ + symbol_name@ + Seq::<
                        char,
                    >::empty());
                }
                Some(text)
            },
        }
    }
}

/// How many bytes the path of a symbol file may take up, given the size of
/// the debug data that holds the record and the path.
pub open spec fn path_limit(size_of_data: u32) -> usize {
    if size_of_data >= 24 {
        (size_of_data - 24) as usize
    } else {
        0
    }
}

/// How many entries of a debug directory are looked at: those that fit in
/// its size, and at most twenty.
pub open spec fn debug_entry_count(directory: DataDirectory) -> nat {
    if directory.size / 28 <= 20 {
        (directory.size / 28) as nat
    } else {
        20
    }
}

/// Where entry `index` of a debug directory lies.
pub open spec fn debug_entry_address(base: u64, directory: DataDirectory, index: nat) -> u64 {
    base.wrapping_add(directory.virtual_address as u64).wrapping_add((index * 28) as u64)
}

/// The record of a symbol file and the path behind it, to which a debug
/// directory entry refers.
pub open spec fn code_view_read<M: MemorySource>(
    memory: &M,
    base: u64,
    entry: DebugDirectory,
) -> Result<(PdbInfo, Seq<char>), Error> {
    let info_address = base.wrapping_add(entry.address_of_raw_data as u64);
    match data_read::<M, PdbInfo>(memory, info_address) {
        Err(e) => Err(e),
        Ok(info) => match string_read(
            memory,
            info_address.wrapping_add(24),
            path_limit(entry.size_of_data),
            false,
        ) {
            Err(e) => Err(e),
            Ok(path) => Ok((info, path)),
        },
    }
}

/// What the entries of a debug directory from `index` on say of the
/// module's symbol file, given what the entries before said: the record and
/// path of the last entry that refers to one.
pub open spec fn debug_info_from<M: MemorySource>(
    memory: &M,
    base: u64,
    directory: DataDirectory,
    index: nat,
    found: Option<(PdbInfo, Seq<char>)>,
) -> Result<Option<(PdbInfo, Seq<char>)>, Error>
    decreases debug_entry_count(directory) - index,
{
    if index >= debug_entry_count(directory) {
        Ok(found)
    } else {
        match data_read::<M, DebugDirectory>(memory, debug_entry_address(base, directory, index)) {
            Err(e) => Err(e),
            Ok(entry) => if entry.debug_type == IMAGE_DEBUG_TYPE_CODEVIEW {
                match code_view_read(memory, base, entry) {
                    Err(e) => Err(e),
                    Ok(record) => debug_info_from(
                        memory,
                        base,
                        directory,
                        index + 1,
                        Some(record),
                    ),
                }
            } else {
                debug_info_from(memory, base, directory, index + 1, found)
            },
        }
    }
}

/// What the debug directory of an image says of the image's symbol file. An
/// image whose debug directory is empty says nothing.
pub open spec fn debug_info<M: MemorySource>(memory: &M, base: u64, header: NtHeaders) -> Result<
    Option<(PdbInfo, Seq<char>)>,
    Error,
> {
    match data_directory(header, DirectoryEntry::Debug) {
        None => Ok(None),
        Some(directory) => debug_info_from(memory, base, directory, 0, None),
    }
}

/// The tables of an export directory.
pub struct ExportTables {
    /// Where the export directory begins in the target.
    pub start: u64,
    /// How many bytes the export directory takes up.
    pub size: u32,
    /// The ordinal of the first entry of the function table.
    pub ordinal_base: u32,
    /// For each name, the index of its function in the function table.
    pub ordinals: Seq<u16>,
    /// For each name, where it lies, relative to the image's base.
    pub names: Seq<u32>,
    /// For each function, where it lies, relative to the image's base.
    pub functions: Seq<u32>,
}

impl ExportTables {
    /// Where function `index` lies in the target.
    pub open spec fn target(self, base: u64, index: int) -> u64 {
        base.wrapping_add(self.functions[index] as u64)
    }

    /// Whether function `index` is a forwarder: its address lies inside the
    /// export directory.
    pub open spec fn is_forwarder(self, base: u64, index: int) -> bool {
        self.start <= self.target(base, index) < self.start + self.size
    }

    /// For each name, whether it is the name of function `index`.
    pub open spec fn names_of(self, index: int) -> Seq<bool> {
        names_of_function(self.ordinals, index)
    }
}

/// For each entry of the name ordinal table, whether it refers to function
/// `index`. The table holds sixteen bits of the index.
pub open spec fn names_of_function(ordinals: Seq<u16>, index: int) -> Seq<bool> {
    Seq::new(ordinals.len(), |k: int| ordinals[k] as int == index % 0x1_0000)
}

/// The first entry of the name ordinal table that refers to function
/// `index`.
fn name_index_of(ordinals: &Vec<u16>, index: usize) -> (name_index: Option<usize>)
    ensures
        match first_true(names_of_function(ordinals@, index as int)) {
            Some(found) => name_index matches Some(position) && position == found && position
                < ordinals.len(),
            None => name_index is None,
        },
{
    let wanted = (index % 0x1_0000) as u16;
    let ghost flags = names_of_function(ordinals@, index as int);
    let mut k: usize = 0;
    while k < ordinals.len()
        invariant
            k <= ordinals.len(),
            wanted == index % 0x1_0000,
            flags == names_of_function(ordinals@, index as int),
            first_true(flags) == first_from(flags, k as int),
        decreases ordinals.len() - k,
    {
        if ordinals[k] == wanted {
            return Some(k);
        }
        k += 1;
    }
    None
}

/// The name of function `index`, where it has one.
pub open spec fn export_name_read<M: MemorySource>(
    memory: &M,
    base: u64,
    tables: ExportTables,
    index: int,
) -> Result<Option<Seq<char>>, Error> {
    match first_true(tables.names_of(index)) {
        None => Ok(None),
        Some(k) => match string_read(
            memory,
            base.wrapping_add(tables.names[k] as u64),
            4096,
            false,
        ) {
            Err(e) => Err(e),
            Ok(name) => Ok(Some(name)),
        },
    }
}

/// The export that function `index` of an export directory stands for.
pub open spec fn export_read<M: MemorySource>(
    memory: &M,
    base: u64,
    tables: ExportTables,
    index: int,
) -> Result<ExportView, Error> {
    let ordinal = tables.ordinal_base.wrapping_add((index % 0x1_0000_0000) as u32);
    match export_name_read(memory, base, tables, index) {
        Err(e) => Err(e),
        Ok(name) => if tables.is_forwarder(base, index) {
            match string_read(memory, tables.target(base, index), 4096, false) {
                Err(e) => Err(e),
                Ok(forward) => Ok(
                    ExportView { name, ordinal, target: ExportTargetView::Forwarder(forward) },
                ),
            }
        } else {
            Ok(
                ExportView {
                    name,
                    ordinal,
                    target: ExportTargetView::Rva(tables.target(base, index)),
                },
            )
        },
    }
}

/// The exports that the functions from `index` on stand for, behind those
/// that are `done`.
pub open spec fn exports_from<M: MemorySource>(
    memory: &M,
    base: u64,
    tables: ExportTables,
    index: int,
    done: Seq<ExportView>,
) -> Result<Seq<ExportView>, Error>
    decreases tables.functions.len() - index,
{
    if index < 0 || index >= tables.functions.len() {
        Ok(done)
    } else {
        match export_read(memory, base, tables, index) {
            Err(e) => Err(e),
            Ok(export) => exports_from(memory, base, tables, index + 1, done.push(export)),
        }
    }
}

/// The three tables to which an export directory refers, each read whole.
pub open spec fn export_tables_read<M: MemorySource>(
    memory: &M,
    base: u64,
    directory: DataDirectory,
    head: ExportDirectory,
) -> Result<ExportTables, Error> {
    match full_array_read::<M, u16>(
        memory,
        base.wrapping_add(head.address_of_name_ordinals as u64),
        head.number_of_names as usize,
    ) {
        Err(e) => Err(e),
        Ok(ordinals) => match full_array_read::<M, u32>(
            memory,
            base.wrapping_add(head.address_of_names as u64),
            head.number_of_names as usize,
        ) {
            Err(e) => Err(e),
            Ok(names) => match full_array_read::<M, u32>(
                memory,
                base.wrapping_add(head.address_of_functions as u64),
                head.number_of_functions as usize,
            ) {
                Err(e) => Err(e),
                Ok(functions) => Ok(
                    ExportTables {
                        start: base.wrapping_add(directory.virtual_address as u64),
                        size: directory.size,
                        ordinal_base: head.base,
                        ordinals,
                        names,
                        functions,
                    },
                ),
            },
        },
    }
}

/// The name of a module after its export directory has been read: the name
/// that it had, or else the name that the export directory gives.
pub open spec fn export_module_name<M: MemorySource>(
    memory: &M,
    base: u64,
    head: ExportDirectory,
    name: Option<Seq<char>>,
) -> Result<Option<Seq<char>>, Error> {
    if head.name != 0 && name is None {
        match string_read(memory, base.wrapping_add(head.name as u64), 512, false) {
            Err(e) => Err(e),
            Ok(found) => Ok(Some(found)),
        }
    } else {
        Ok(name)
    }
}

/// What the export directory of an image gives: the name of the module and
/// its exports, one for each entry of the function table and in its order.
/// An image whose export directory is empty keeps its name and has no
/// exports.
pub open spec fn export_table<M: MemorySource>(
    memory: &M,
    base: u64,
    header: NtHeaders,
    name: Option<Seq<char>>,
) -> Result<(Option<Seq<char>>, Seq<ExportView>), Error> {
    match data_directory(header, DirectoryEntry::Export) {
        None => Ok((name, Seq::empty())),
        Some(directory) => match data_read::<M, ExportDirectory>(
            memory,
            base.wrapping_add(directory.virtual_address as u64),
        ) {
            Err(e) => Err(e),
            Ok(head) => match export_module_name(memory, base, head, name) {
                Err(e) => Err(e),
                Ok(named) => match export_tables_read(memory, base, directory, head) {
                    Err(e) => Err(e),
                    Ok(tables) => match exports_from(memory, base, tables, 0, Seq::empty()) {
                        Err(e) => Err(e),
                        Ok(exports) => Ok((named, exports)),
                    },
                },
            },
        },
    }
}

/// A module as its image in memory describes it, without what a symbol file
/// adds. A debug directory or an export directory that cannot be read is
/// taken as absent.
pub open spec fn module_read<M: MemorySource>(memory: &M, address: u64, name: Option<Seq<char>>)
    -> Result<ModuleView, Error> {
    match data_read::<M, DosHeader>(memory, address) {
        Err(e) => Err(e),
        Ok(dos_header) => match data_read::<M, NtHeaders>(
            memory,
            address.wrapping_add(dos_header.e_lfanew as u64),
        ) {
            Err(e) => Err(e),
            Ok(pe_header) => if pe_header.machine != IMAGE_FILE_MACHINE_AMD64 {
                Err(Error::UnsupportedMachine)
            } else {
                let debug = match debug_info(memory, address, pe_header) {
                    Ok(found) => found,
                    Err(_) => None,
                };
                let exported = match export_table(
                    memory,
                    address,
                    pe_header,
                    name,
                ) {
                    Ok(table) => table,
                    Err(_) => (name, Seq::empty()),
                };
                Ok(
                    ModuleView {
                        name: exported.0,
                        address,
                        size: pe_header.size_of_image as u64,
                        exports: exported.1,
                        pdb_name: match debug {
                            Some(record) => Some(record.1),
                            None => None,
                        },
                        pdb_info: match debug {
                            Some(record) => Some(record.0),
                            None => None,
                        },
                        symbols: None,
                        pe_header,
                    },
                )
            },
        },
    }
}

/// Reads the exports for which the function table of an export directory
/// stands, one for each entry and in its order.
#[verifier::loop_isolation(false)]
fn read_export_list<M: MemorySource>(
    memory: &M,
    base: u64,
    export_table_addr: u64,
    export_table_size: u32,
    ordinal_base: u32,
    ordinal_array: &Vec<u16>,
    name_array: &Vec<u32>,
    address_table: &Vec<u32>,
) -> (list: Result<Vec<Export>, Error>)
    requires
        ordinal_array@.len() == name_array@.len(),
        address_table@.len() <= u32::MAX,
    ensures
        match exports_from(
            memory,
            base,
            ExportTables {
                start: export_table_addr,
                size: export_table_size,
                ordinal_base,
                ordinals: ordinal_array@,
                names: name_array@,
                functions: address_table@,
            },
            0,
            Seq::empty(),
        ) {
            Ok(exports) => list matches Ok(read) && read.deep_view() == exports,
            Err(e) => list matches Err(err) && err == e,
        },
{
    let ghost tables = ExportTables {
        start: export_table_addr,
        size: export_table_size,
        ordinal_base,
        ordinals: ordinal_array@,
        names: name_array@,
        functions: address_table@,
    };
    let mut exports: Vec<Export> = Vec::new();
    let mut unbiased_ordinal: usize = 0;
    assert(exports.deep_view() =~= Seq::<ExportView>::empty());
    while unbiased_ordinal < address_table.len()
        invariant
            unbiased_ordinal <= address_table.len(),
            exports_from(memory, base, tables, 0, Seq::empty()) == exports_from(
                memory,
                base,
                tables,
                unbiased_ordinal as int,
                exports.deep_view(),
            ),
        decreases address_table.len() - unbiased_ordinal,
    {
        let ordinal = ordinal_base.wrapping_add(unbiased_ordinal as u32);
        let target_address = base.wrapping_add(address_table[unbiased_ordinal] as u64);
        let name_index = name_index_of(ordinal_array, unbiased_ordinal);
        let export_name: Option<String> = match name_index {
            None => None,
            Some(idx) => {
                let name_address = base.wrapping_add(name_array[idx] as u64);
                match memory.read_memory_string(name_address, 4096, false) {
                    Ok(name) => Some(name),
                    Err(e) => {
                        return Err(e);
                    },
                }
            },
        };
        // An address inside the export directory is a forwarder.
        let export = if target_address >= export_table_addr && target_address
            - export_table_addr < export_table_size as u64 {
            let forwarding_name = match memory.read_memory_string(target_address, 4096, false) {
                Ok(name) => name,
                Err(e) => {
                    return Err(e);
                },
            };
            Export { name: export_name, ordinal, target: ExportTarget::Forwarder(forwarding_name) }
        } else {
            Export { name: export_name, ordinal, target: ExportTarget::Rva(target_address) }
        };
        assert(Ok::<ExportView, Error>(export.deep_view()) == export_read(
            memory,
            base,
            tables,
            unbiased_ordinal as int,
        ));
        let ghost before = exports.deep_view();
        exports.push(export);
        assert(exports.deep_view() =~= before.push(export.deep_view()));
        unbiased_ordinal += 1;
    }
    Ok(exports)
}

/// A record of a symbol file and its path, with the path as text.
pub open spec fn record_view(record: Option<(PdbInfo, String)>) -> Option<(PdbInfo, Seq<char>)> {
    match record {
        Some(found) => Some((found.0, found.1@)),
        None => None,
    }
}

/// A module that is being put together from its image in memory.
#[derive(Debug)]
pub struct ModuleBuilder {
    pub name: Option<String>,
    pub address: u64,
    pub size: u64,
    pub exports: Vec<Export>,
    pub pdb_name: Option<String>,
    pub pdb_info: Option<PdbInfo>,
    pub pe_header: NtHeaders,
}

impl DeepView for ModuleBuilder {
    type V = ModuleView;

    open spec fn deep_view(&self) -> ModuleView {
        ModuleView {
            name: self.name.deep_view(),
            address: self.address,
            size: self.size,
            exports: self.exports.deep_view(),
            pdb_name: self.pdb_name.deep_view(),
            pdb_info: self.pdb_info,
            symbols: None,
            pe_header: self.pe_header,
        }
    }
}

impl ModuleBuilder {
    /// Reads the debug directory and notes the symbol file that it names.
    /// Where a read fails, nothing is noted.
    #[verifier::loop_isolation(false)]
    pub fn read_debug_info<M: MemorySource>(&mut self, pe_header: NtHeaders, memory: &M) -> (done:
        Result<(), Error>)
        ensures
            match debug_info(memory, old(self).address, pe_header) {
                Ok(Some(record)) => done is Ok && final(self).deep_view() == (ModuleView {
                    pdb_info: Some(record.0),
                    pdb_name: Some(record.1),
                    ..old(self).deep_view()
                }),
                Ok(None) => done is Ok && final(self).deep_view() == old(self).deep_view(),
                Err(e) => {
                    &&& done == Err::<(), Error>(e)
                    &&& final(self).deep_view() == old(self).deep_view()
                },
            },
    {
        let debug_table_info = match directory_of(&pe_header, DirectoryEntry::Debug) {
            Some(directory) => directory,
            None => {
                return Ok(());
            },
        };
        let count: u64 = if debug_table_info.size / 28 <= 20 {
            (debug_table_info.size / 28) as u64
        } else {
            20
        };
        let base = self.address;
        let table_address = base.wrapping_add(debug_table_info.virtual_address as u64);
        let mut found: Option<(PdbInfo, String)> = None;
        let mut dir_index: u64 = 0;
        while dir_index < count
            invariant
                dir_index <= count,
                count == debug_entry_count(debug_table_info),
                count <= 20,
                table_address == base.wrapping_add(debug_table_info.virtual_address as u64),
                debug_info_from(memory, base, debug_table_info, 0, None) == debug_info_from(
                    memory,
                    base,
                    debug_table_info,
                    dir_index as nat,
                    record_view(found),
                ),
            decreases count - dir_index,
        {
            let debug_directory_address = table_address.wrapping_add(dir_index * 28);
            let debug_directory = match memory.read_memory_data::<DebugDirectory>(
                debug_directory_address,
            ) {
                Ok(entry) => entry,
                Err(e) => {
                    return Err(e);
                },
            };
            if debug_directory.debug_type == IMAGE_DEBUG_TYPE_CODEVIEW {
                let pdb_info_address = base.wrapping_add(
                    debug_directory.address_of_raw_data as u64,
                );
                let pdb_info = match memory.read_memory_data::<PdbInfo>(pdb_info_address) {
                    Ok(info) => info,
                    Err(e) => {
                        return Err(e);
                    },
                };
                let pdb_name_address = pdb_info_address.wrapping_add(24);
                let max_size: usize = if debug_directory.size_of_data >= 24 {
                    (debug_directory.size_of_data - 24) as usize
                } else {
                    0
                };
                let pdb_name = match memory.read_memory_string(
                    pdb_name_address,
                    max_size,
                    false,
                ) {
                    Ok(path) => path,
                    Err(e) => {
                        return Err(e);
                    },
                };
                found = Some((pdb_info, pdb_name));
            }
            dir_index += 1;
        }
        match found {
            Some((info, path)) => {
                self.pdb_info = Some(info);
                self.pdb_name = Some(path);
            },
            None => {},
        }
        Ok(())
    }

    /// Reads the export directory: the exports of the module and, where the
    /// module has no name yet, its name. Where a read fails, nothing is
    /// changed.
    pub fn read_exports<M: MemorySource>(&mut self, pe_header: NtHeaders, memory: &M) -> (done:
        Result<(), Error>)
        ensures
            match export_table(
                memory,
                old(self).address,
                pe_header,
                old(self).name.deep_view(),
            ) {
                Ok(table) => done is Ok && final(self).deep_view() == (ModuleView {
                    name: table.0,
                    exports: old(self).deep_view().exports + table.1,
                    ..old(self).deep_view()
                }),
                Err(e) => {
                    &&& done == Err::<(), Error>(e)
                    &&& final(self).deep_view() == old(self).deep_view()
                },
            },
    {
        let export_table_info = match directory_of(&pe_header, DirectoryEntry::Export) {
            Some(directory) => directory,
            None => {
                assert(self.exports.deep_view() + Seq::<ExportView>::empty()
                    =~= self.exports.deep_view());
                return Ok(());
            },
        };
        let base = self.address;
        let export_table_addr = base.wrapping_add(export_table_info.virtual_address as u64);
        let export_directory = match memory.read_memory_data::<ExportDirectory>(
            export_table_addr,
        ) {
            Ok(head) => head,
            Err(e) => {
                return Err(e);
            },
        };
        // The directory's own name is a fallback, for a module that has none.
        let fallback_name: Option<String> = if export_directory.name != 0 && self.name.is_none() {
            let name_addr = base.wrapping_add(export_directory.name as u64);
            match memory.read_memory_string(name_addr, 512, false) {
                Ok(name) => Some(name),
                Err(e) => {
                    return Err(e);
                },
            }
        } else {
            None
        };
        let ghost named = export_module_name(
            memory,
            base,
            export_directory,
            self.name.deep_view(),
        )->Ok_0;
        let ordinal_array = match memory.read_memory_full_array::<u16>(
            base.wrapping_add(export_directory.address_of_name_ordinals as u64),
            export_directory.number_of_names as usize,
        ) {
            Ok(array) => array,
            Err(e) => {
                return Err(e);
            },
        };
        let name_array = match memory.read_memory_full_array::<u32>(
            base.wrapping_add(export_directory.address_of_names as u64),
            export_directory.number_of_names as usize,
        ) {
            Ok(array) => array,
            Err(e) => {
                return Err(e);
            },
        };
        let address_table = match memory.read_memory_full_array::<u32>(
            base.wrapping_add(export_directory.address_of_functions as u64),
            export_directory.number_of_functions as usize,
        ) {
            Ok(array) => array,
            Err(e) => {
                return Err(e);
            },
        };
        let mut exports = match read_export_list(
            memory,
            base,
            export_table_addr,
            export_table_info.size,
            export_directory.base,
            &ordinal_array,
            &name_array,
            &address_table,
        ) {
            Ok(exports) => exports,
            Err(e) => {
                return Err(e);
            },
        };
        match fallback_name {
            Some(name) => {
                self.name = Some(name);
            },
            None => {},
        }
        let ghost earlier = self.exports.deep_view();
        let ghost read = exports.deep_view();
        self.exports.append(&mut exports);
        assert(self.exports.deep_view() =~= earlier + read);
        Ok(())
    }

    /// The module that has been put together.
    pub fn build(self) -> (module: Module)
        ensures
            module.deep_view() == self.deep_view(),
    {
        Module {
            name: self.name,
            address: self.address,
            size: self.size,
            exports: self.exports,
            pdb_name: self.pdb_name,
            pdb_info: self.pdb_info,
            symbols: None,
            pe_header: self.pe_header,
        }
    }
}

impl Module {
    /// Describes the image that is loaded at `address`, from its headers and
    /// directories in the target's memory.
    ///
    /// Fails where the headers cannot be read and where the image is not
    /// built for AMD64. A debug directory or an export directory that cannot
    /// be read is passed over.
    pub fn from_memory_view<M: MemorySource>(address: u64, name: Option<String>, memory: &M) -> (
    module: Result<Module, Error>)
        ensures
            match module_read(memory, address, name.deep_view()) {
                Ok(view) => module matches Ok(built) && built.deep_view() == view,
                Err(e) => module matches Err(err) && err == e,
            },
    {
        let dos_header = match memory.read_memory_data::<DosHeader>(address) {
            Ok(header) => header,
            Err(e) => {
                return Err(e);
            },
        };
        let pe_header_addr = address.wrapping_add(dos_header.e_lfanew as u64);
        let pe_header = match memory.read_memory_data::<NtHeaders>(pe_header_addr) {
            Ok(header) => header,
            Err(e) => {
                return Err(e);
            },
        };
        let size = pe_header.size_of_image as u64;
        if pe_header.machine != IMAGE_FILE_MACHINE_AMD64 {
            return Err(Error::UnsupportedMachine);
        }
        let mut result = ModuleBuilder {
            name,
            address,
            size,
            exports: Vec::new(),
            pdb_name: None,
            pdb_info: None,
            pe_header,
        };
        assert(result.exports.deep_view() =~= Seq::<ExportView>::empty());
        let _ = result.read_debug_info(pe_header, memory);
        let _ = result.read_exports(pe_header, memory);
        proof {
            if let Ok(table) = export_table(
                memory,
                address,
                pe_header,
                name.deep_view(),
            ) {
                assert(Seq::<ExportView>::empty() + table.1 =~= table.1);
            }
        }
        Ok(result.build())
    }

    /// Adds what the module's symbol file says of its addresses.
    pub fn attach_symbols(&mut self, symbols: PdbSymbols)
        ensures
            final(self).deep_view() == (ModuleView {
                symbols: Some(symbols.deep_view()),
                ..old(self).deep_view()
            }),
    {
        self.symbols = Some(symbols);
    }
}

/// An export is a forwarder exactly when its address lies inside the export
/// directory.
pub proof fn law_forwarder_detection<M: MemorySource>(
    memory: &M,
    base: u64,
    tables: ExportTables,
    index: int,
)
    ensures
        export_read(memory, base, tables, index) matches Ok(export) ==> (export.target
            is Forwarder <==> tables.start <= tables.target(base, index) < tables.start
            + tables.size),
        export_read(memory, base, tables, index) matches Ok(export) ==> (export.target
            matches ExportTargetView::Rva(address) ==> address == tables.target(base, index)),
{
}

/// Every export that is read stands for the function at its own index.
pub proof fn lemma_exports_from<M: MemorySource>(
    memory: &M,
    base: u64,
    tables: ExportTables,
    index: int,
    done: Seq<ExportView>,
)
    requires
        0 <= index <= tables.functions.len(),
        done.len() == index,
        forall|i: int|
            0 <= i < index ==> Ok::<ExportView, Error>(done[i]) == #[trigger] export_read(
                memory,
                base,
                tables,
                i,
            ),
    ensures
        exports_from(memory, base, tables, index, done) matches Ok(exports) ==> {
            &&& exports.len() == tables.functions.len()
            &&& forall|i: int|
                0 <= i < exports.len() ==> Ok::<ExportView, Error>(exports[i])
                    == #[trigger] export_read(memory, base, tables, i)
        },
    decreases tables.functions.len() - index,
{
    if index < tables.functions.len() {
        match export_read(memory, base, tables, index) {
            Err(e) => {},
            Ok(export) => {
                lemma_exports_from(memory, base, tables, index + 1, done.push(export));
            },
        }
    }
}

/// Of the exports of an export directory that could be read, each one whose
/// address lies inside the directory is a forwarder, and no other is.
pub proof fn law_forwarders_of_a_table<M: MemorySource>(
    memory: &M,
    base: u64,
    tables: ExportTables,
)
    ensures
        exports_from(memory, base, tables, 0, Seq::empty()) matches Ok(exports) ==> {
            &&& exports.len() == tables.functions.len()
            &&& forall|i: int|
                0 <= i < exports.len() ==> ((#[trigger] exports[i]).target is Forwarder
                    <==> tables.is_forwarder(base, i))
        },
{
    lemma_exports_from(memory, base, tables, 0, Seq::empty());
    if let Ok(exports) = exports_from(memory, base, tables, 0, Seq::empty()) {
        assert forall|i: int| 0 <= i < exports.len() implies ((#[trigger] exports[i]).target
            is Forwarder <==> tables.is_forwarder(base, i)) by {
            law_forwarder_detection(memory, base, tables, i);
            assert(Ok::<ExportView, Error>(exports[i]) == export_read(memory, base, tables, i));
        }
    }
}

/// The modules and the live threads of the target.
#[derive(Debug, Default)]
pub struct Process {
    modules: Vec<Module>,
    threads: Vec<u32>,
}

pub struct ProcessView {
    /// The loaded modules, in the order in which they were loaded.
    pub modules: Seq<ModuleView>,
    /// The threads that are alive, in the order in which they began.
    pub threads: Seq<u32>,
}

/// A sequence without the entries that equal `value`.
pub open spec fn without(values: Seq<u32>, value: u32) -> Seq<u32>
    decreases values.len(),
{
    if values.len() == 0 {
        Seq::empty()
    } else if values.last() == value {
        without(values.drop_last(), value)
    } else {
        without(values.drop_last(), value).push(values.last())
    }
}

/// The modules whose base address is not `address`.
pub open spec fn without_module(modules: Seq<ModuleView>, address: u64) -> Seq<ModuleView>
    decreases modules.len(),
{
    if modules.len() == 0 {
        Seq::empty()
    } else if modules.last().address == address {
        without_module(modules.drop_last(), address)
    } else {
        without_module(modules.drop_last(), address).push(modules.last())
    }
}

impl ProcessView {
    /// For each module, whether it holds `address`.
    pub open spec fn holding(self, address: u64) -> Seq<bool> {
        Seq::new(self.modules.len(), |i: int| self.modules[i].contains_address(address))
    }

    /// For each module, whether it goes by the name `name`.
    pub open spec fn named(self, name: Seq<char>) -> Seq<bool> {
        Seq::new(self.modules.len(), |i: int| names_equal(self.modules[i].name(), name))
    }

    /// The module that holds `address`: the first one that does, in the
    /// order of loading.
    pub open spec fn module_by_address(self, address: u64) -> Option<ModuleView> {
        match first_true(self.holding(address)) {
            Some(index) => Some(self.modules[index]),
            None => None,
        }
    }

    /// The module of the given name: the first one that goes by it.
    pub open spec fn module_by_name(self, name: Seq<char>) -> Option<ModuleView> {
        match first_true(self.named(name)) {
            Some(index) => Some(self.modules[index]),
            None => None,
        }
    }

    /// The address of a symbol of a module.
    pub open spec fn name_to_address(self, module_name: Seq<char>, function_name: Seq<char>)
        -> Result<u64, ErrorView> {
        match self.module_by_name(module_name) {
            None => Err(ErrorView::UnknownModuleName(module_name)),
            Some(module) => match module.resolve_function(function_name) {
                Some(address) => Ok(address),
                None => Err(ErrorView::UnknownSymbol(module_name, function_name)),
            },
        }
    }

    /// The name of an address: that which the module that holds the address
    /// gives it.
    pub open spec fn address_to_name(self, address: u64) -> Option<Seq<char>> {
        match self.module_by_address(address) {
            Some(module) => module.address_to_name(address),
            None => None,
        }
    }

    /// The names under which the modules are shown.
    pub open spec fn module_names(self) -> Seq<Seq<char>> {
        Seq::new(self.modules.len(), |i: int| self.modules[i].name())
    }

    /// No two modules hold the same address.
    pub open spec fn modules_are_disjoint(self) -> bool {
        forall|i: int, j: int, address: u64|
            0 <= i < j < self.modules.len() ==> !(#[trigger] self.modules[i].contains_address(
                address,
            ) && #[trigger] self.modules[j].contains_address(address))
    }
}

impl DeepView for Process {
    type V = ProcessView;

    closed spec fn deep_view(&self) -> ProcessView {
        ProcessView { modules: self.modules.deep_view(), threads: self.threads@ }
    }
}

impl Process {
    pub fn new() -> (process: Process)
        ensures
            process.deep_view().modules.len() == 0,
            process.deep_view().threads.len() == 0,
    {
        let process = Process { modules: Vec::new(), threads: Vec::new() };
        assert(process.modules.deep_view().len() == 0);
        process
    }

    /// Describes the image that is loaded at `address` and adds it to the
    /// modules. Where the image cannot be described, nothing is added.
    pub fn add_module<M: MemorySource>(&mut self, address: u64, name: Option<String>, memory: &M)
        -> (added: Result<&Module, Error>)
        ensures
            match module_read(memory, address, name.deep_view()) {
                Ok(view) => {
                    &&& added matches Ok(module) && module.deep_view() == view
                    &&& final(self).deep_view() == (ProcessView {
                        modules: old(self).deep_view().modules.push(view),
                        ..old(self).deep_view()
                    })
                },
                Err(e) => {
                    &&& added matches Err(err) && err == e
                    &&& final(self).deep_view() == old(self).deep_view()
                },
            },
    {
        let module = match Module::from_memory_view(address, name, memory) {
            Ok(module) => module,
            Err(e) => {
                return Err(e);
            },
        };
        let ghost before = self.modules.deep_view();
        self.modules.push(module);
        assert(self.modules.deep_view() =~= before.push(module.deep_view()));
        let last = self.modules.len() - 1;
        Ok(&self.modules[last])
    }

    /// Takes the modules that are loaded at `address` out of the process.
    pub fn remove_module(&mut self, address: u64)
        ensures
            final(self).deep_view() == (ProcessView {
                modules: without_module(old(self).deep_view().modules, address),
                ..old(self).deep_view()
            }),
    {
        let ghost all = self.modules.deep_view();
        let mut kept: Vec<Module> = Vec::new();
        assert(all.take(all.len() as int) =~= all);
        assert(kept.deep_view() =~= Seq::<ModuleView>::empty());
        while self.modules.len() > 0
            invariant
                self.threads == old(self).threads,
                self.modules.deep_view() == all.take(self.modules.len() as int),
                self.modules.len() <= all.len(),
                without_module(all, address) == without_module(
                    all.take(self.modules.len() as int),
                    address,
                ) + kept.deep_view(),
            decreases self.modules.len(),
        {
            let ghost rest = all.take(self.modules.len() as int);
            let ghost behind = kept.deep_view();
            let module = self.modules.pop().unwrap();
            assert(rest.drop_last() =~= all.take(self.modules.len() as int));
            assert(self.modules.deep_view() =~= rest.drop_last());
            assert(rest.last() == module.deep_view());
            if module.address != address {
                kept.insert(0, module);
                assert(kept.deep_view() =~= seq![module.deep_view()] + behind);
                assert(without_module(rest.drop_last(), address).push(module.deep_view())
                    + behind =~= without_module(rest.drop_last(), address) + kept.deep_view());
            }
        }
        assert(without_module(all.take(0), address) + kept.deep_view() =~= kept.deep_view());
        self.modules = kept;
    }

    /// Adds to the module that is loaded at `address` what its symbol file
    /// says: to the first such module, in the order of loading. Returns
    /// whether there is such a module.
    pub fn attach_symbols(&mut self, address: u64, symbols: PdbSymbols) -> (attached: bool)
        ensures
            match first_true(module_bases(old(self).deep_view().modules, address)) {
                Some(index) => attached && final(self).deep_view() == (ProcessView {
                    modules: old(self).deep_view().modules.update(
                        index,
                        ModuleView {
                            symbols: Some(symbols.deep_view()),
                            ..old(self).deep_view().modules[index]
                        },
                    ),
                    ..old(self).deep_view()
                }),
                None => !attached && final(self).deep_view() == old(self).deep_view(),
            },
    {
        let ghost flags = module_bases(self.modules.deep_view(), address);
        let mut index: usize = 0;
        while index < self.modules.len()
            invariant
                index <= self.modules.len(),
                *self == *old(self),
                flags == module_bases(self.modules.deep_view(), address),
                first_true(flags) == first_from(flags, index as int),
            decreases self.modules.len() - index,
        {
            if self.modules[index].address == address {
                let ghost before = self.modules.deep_view();
                let mut module = self.modules.remove(index);
                module.attach_symbols(symbols);
                self.modules.insert(index, module);
                assert(self.modules.deep_view() =~= before.update(
                    index as int,
                    module.deep_view(),
                ));
                return true;
            }
            index += 1;
        }
        false
    }

    pub fn add_thread(&mut self, thread_id: u32)
        ensures
            final(self).deep_view() == (ProcessView {
                threads: old(self).deep_view().threads.push(thread_id),
                ..old(self).deep_view()
            }),
    {
        self.threads.push(thread_id);
    }

    pub fn remove_thread(&mut self, thread_id: u32)
        ensures
            final(self).deep_view() == (ProcessView {
                threads: without(old(self).deep_view().threads, thread_id),
                ..old(self).deep_view()
            }),
    {
        let ghost all = self.threads@;
        let mut kept: Vec<u32> = Vec::new();
        let mut index: usize = 0;
        assert(all.take(0) =~= Seq::<u32>::empty());
        while index < self.threads.len()
            invariant
                index <= self.threads.len(),
                *self == *old(self),
                all == self.threads@,
                kept@ == without(all.take(index as int), thread_id),
            decreases self.threads.len() - index,
        {
            let id = self.threads[index];
            assert(all.take(index + 1).drop_last() =~= all.take(index as int));
            assert(all.take(index + 1).last() == id);
            if id != thread_id {
                kept.push(id);
            }
            index += 1;
        }
        assert(all.take(index as int) =~= all);
        self.threads = kept;
    }

    pub fn threads(&self) -> (threads: &[u32])
        ensures
            threads@ == self.deep_view().threads,
    {
        self.threads.as_slice()
    }

    /// The address of the function `function_name` of the module
    /// `module_name`.
    pub fn name_to_address(&self, module_name: &str, function_name: &str) -> (address: Result<
        u64,
        Error,
    >)
        ensures
            match self.deep_view().name_to_address(module_name@, function_name@) {
                Ok(found) => address == Ok::<u64, Error>(found),
                Err(e) => address matches Err(err) && err.deep_view() == e,
            },
    {
        match self.get_module_by_name(module_name) {
            None => Err(Error::UnknownModuleName(String::from_str(module_name))),
            Some(module) => match module.resolve_function(function_name) {
                Some(address) => Ok(address),
                None => Err(
                    Error::UnknownSymbol(
                        String::from_str(module_name),
                        String::from_str(function_name),
                    ),
                ),
            },
        }
    }

    /// The name of an address: its module, the closest symbol of the module
    /// at or before it, and its distance from that symbol.
    pub fn address_to_name(&self, address: u64) -> (name: Option<String>)
        ensures
            name.deep_view() == self.deep_view().address_to_name(address),
    {
        match self.get_module_by_address(address) {
            Some(module) => module.address_to_name(address),
            None => None,
        }
    }

    pub fn get_module_by_name(&self, module_name: &str) -> (module: Option<&Module>)
        ensures
            module.deep_view() == self.deep_view().module_by_name(module_name@),
    {
        let ghost flags = self.deep_view().named(module_name@);
        let mut index: usize = 0;
        while index < self.modules.len()
            invariant
                index <= self.modules.len(),
                flags == self.deep_view().named(module_name@),
                first_true(flags) == first_from(flags, index as int),
            decreases self.modules.len() - index,
        {
            let name = self.modules[index].name();
            if name_equals(name.as_str(), module_name) {
                return Some(&self.modules[index]);
            }
            index += 1;
        }
        None
    }

    pub fn module_names(&self) -> (names: Vec<String>)
        ensures
            names.deep_view() == self.deep_view().module_names(),
    {
        let mut names: Vec<String> = Vec::new();
        let mut index: usize = 0;
        while index < self.modules.len()
            invariant
                index <= self.modules.len(),
                names.len() == index,
                forall|i: int|
                    0 <= i < index ==> (#[trigger] names@[i])@
                        == self.modules.deep_view()[i].name(),
            decreases self.modules.len() - index,
        {
            names.push(self.modules[index].name());
            index += 1;
        }
        assert(names.deep_view() =~= self.deep_view().module_names());
        names
    }

    pub fn get_module_by_address(&self, address: u64) -> (module: Option<&Module>)
        ensures
            module.deep_view() == self.deep_view().module_by_address(address),
    {
        let ghost flags = self.deep_view().holding(address);
        let mut index: usize = 0;
        while index < self.modules.len()
            invariant
                index <= self.modules.len(),
                flags == self.deep_view().holding(address),
                first_true(flags) == first_from(flags, index as int),
            decreases self.modules.len() - index,
        {
            if self.modules[index].contains_address(address) {
                return Some(&self.modules[index]);
            }
            index += 1;
        }
        None
    }
}

/// For each module, whether it is loaded at `address`.
pub open spec fn module_bases(modules: Seq<ModuleView>, address: u64) -> Seq<bool> {
    Seq::new(modules.len(), |i: int| modules[i].address == address)
}

/// An address that a module holds is looked up as that module, where no
/// module that was loaded before holds it too.
pub proof fn law_lookup_finds_the_module(process: ProcessView, index: int, address: u64)
    requires
        0 <= index < process.modules.len(),
        process.modules[index].contains_address(address),
        forall|i: int| 0 <= i < index ==> !process.modules[i].contains_address(address),
    ensures
        process.module_by_address(address) == Some(process.modules[index]),
{
    lemma_first_from(process.holding(address), 0);
    assert(process.holding(address)[index]);
    assert(forall|i: int| 0 <= i < index ==> !process.holding(address)[i]);
}

/// In a process whose modules do not overlap, every address of a module is
/// looked up as that module.
pub proof fn law_lookup_in_disjoint_modules(process: ProcessView, index: int, address: u64)
    requires
        process.modules_are_disjoint(),
        0 <= index < process.modules.len(),
        process.modules[index].contains_address(address),
    ensures
        process.module_by_address(address) == Some(process.modules[index]),
{
    lemma_first_from(process.holding(address), 0);
    assert(process.holding(address)[index]);
    let found = first_true(process.holding(address))->0;
    if found < index {
        assert(process.holding(address)[found]);
        assert(process.modules[found].contains_address(address)
            && process.modules[index].contains_address(address));
    }
}

/// An address that no module holds is looked up as nothing, and has no name.
pub proof fn law_lookup_outside_modules(process: ProcessView, address: u64)
    requires
        forall|i: int|
            0 <= i < process.modules.len() ==> !process.modules[i].contains_address(address),
    ensures
        process.module_by_address(address) is None,
        process.address_to_name(address) is None,
{
    lemma_first_from(process.holding(address), 0);
}

/// The name of an export that is no forwarder resolves to the address of the
/// export, where no export before it has the same name.
pub proof fn law_export_resolves(module: ModuleView, index: int, name: Seq<char>)
    requires
        0 <= index < module.exports.len(),
        module.exports[index].name == Some(name),
        module.exports[index].target is Rva,
        forall|i: int| 0 <= i < index ==> module.exports[i].name != Some(name),
    ensures
        module.resolve_function(name) == Some(module.exports[index].target->Rva_0),
{
    lemma_first_from(module.exports_named(name), 0);
    assert(module.exports_named(name)[index]);
    assert(forall|i: int| 0 <= i < index ==> !module.exports_named(name)[i]);
}

/// The name of an export of a module resolves through the process, where
/// the module is the first that goes by its name.
pub proof fn law_export_resolves_in_process(
    process: ProcessView,
    module_index: int,
    module_name: Seq<char>,
    export_index: int,
    name: Seq<char>,
)
    requires
        0 <= module_index < process.modules.len(),
        names_equal(process.modules[module_index].name(), module_name),
        forall|i: int|
            0 <= i < module_index ==> !names_equal(process.modules[i].name(), module_name),
        0 <= export_index < process.modules[module_index].exports.len(),
        process.modules[module_index].exports[export_index].name == Some(name),
        process.modules[module_index].exports[export_index].target is Rva,
        forall|i: int|
            0 <= i < export_index ==> process.modules[module_index].exports[i].name != Some(name),
    ensures
        process.name_to_address(module_name, name) == Ok::<u64, ErrorView>(
            process.modules[module_index].exports[export_index].target->Rva_0,
        ),
{
    lemma_first_from(process.named(module_name), 0);
    assert(process.named(module_name)[module_index]);
    assert(forall|i: int| 0 <= i < module_index ==> !process.named(module_name)[i]);
    law_export_resolves(process.modules[module_index], export_index, name);
}

/// A module without a symbol file names its addresses by its exports.
pub proof fn law_names_without_symbol_file(module: ModuleView, address: u64)
    requires
        module.symbols is None,
    ensures
        module.closest_symbol(address) == closest_export(
            module.exports,
            address,
            module.exports.len() as int,
        ),
{
}

/// The closest symbol lies at or before the address, and no export that is
/// no forwarder lies between the two.
pub proof fn law_closest_export_is_closest(
    exports: Seq<ExportView>,
    address: u64,
    upto: int,
    index: int,
)
    requires
        0 <= index < upto <= exports.len(),
        exports[index].target matches ExportTargetView::Rva(target) && target <= address,
    ensures
        closest_export(exports, address, upto) matches Some(symbol) && exports[index].target->Rva_0
            <= symbol.address <= address,
    decreases upto,
{
    lemma_closest_export_bound(exports, address, upto);
    lemma_closest_export_bound(exports, address, upto - 1);
    if index < upto - 1 {
        law_closest_export_is_closest(exports, address, upto - 1, index);
    }
}

} // verus!
