use vstd::prelude::*;

use crate::boxed::{zeroed_addresses, zeroed_counters, zeros_u8, zeros_usize};

verus! {

/// The address of a symbol, as held in a symbol table. Zero means "not resolved".
pub type Address = usize;

/// The raw handle of a loaded dynamic library. Zero is never a loaded library.
#[derive(Clone, Copy, Debug, PartialEq, Eq, Structural)]
pub struct DylibHandle(pub usize);

/// Why loading or resolution failed.
#[derive(Clone, Debug, PartialEq, Eq)]
pub enum Error {
    /// A handle is already present: the library was loaded or its handle set.
    AlreadyLoaded,
    /// None of the configured library names could be opened.
    LibraryNotFound,
    /// A symbol group failed to resolve.
    GroupUnresolved,
    /// The platform loader reported an error, with its message.
    System(String),
    /// A stub of checked mode was called for this symbol while it was asserted
    /// as resolved neither for all threads nor for the calling thread.
    NotAsserted(&'static str),
}

impl Error {
    /// The text of the error, as the user sees it.
    pub open spec fn message_view(&self) -> Seq<char> {
        match self {
            Error::AlreadyLoaded => "Already loaded."@,
            Error::LibraryNotFound => "Library not found."@,
            Error::GroupUnresolved => "Symbol group could not be resolved"@,
            Error::System(m) => m@,
            Error::NotAsserted(name) => "Symbol \""@ + name@
                + "\" was used without having been asserted as resolved."@,
        }
    }

    /// A copy of the error.
    pub fn duplicate(&self) -> (res: Error)
        ensures
            res == *self,
    {
        match self {
            Error::AlreadyLoaded => Error::AlreadyLoaded,
            Error::LibraryNotFound => Error::LibraryNotFound,
            Error::GroupUnresolved => Error::GroupUnresolved,
            Error::System(m) => Error::System(m.clone()),
            Error::NotAsserted(name) => Error::NotAsserted(name),
        }
    }

    /// The text of the error.
    pub fn message(&self) -> (res: String)
        ensures
            res@ == self.message_view(),
    {
        match self {
            Error::AlreadyLoaded => String::from_str("Already loaded."),
            Error::LibraryNotFound => String::from_str("Library not found."),
            Error::GroupUnresolved => String::from_str("Symbol group could not be resolved"),
            Error::System(m) => m.clone(),
            Error::NotAsserted(name) => {
                let mut text = String::from_str("Symbol \"");
                text.append(name);
                text.append("\" was used without having been asserted as resolved.");
                text
            },
        }
    }
}

/// The state of checked mode: a shadow symbol table that caches resolved
/// addresses, and the symbols asserted as resolved for all threads.
struct CheckedState {
    shadow_symbol_table: Box<[Address]>,
    global_asserted: Box<[u8]>,
}

/// The state of checked mode, as values.
pub struct CheckedModel {
    pub shadow_symbol_table: Seq<Address>,
    pub global_asserted: Seq<u8>,
}

/// A weakly linked dynamic library: the names it may be loaded under, its
/// handle once loaded, and the table that the stubs read symbol addresses from.
pub struct Library {
    handle: usize,
    dylib_names: &'static [&'static str],
    symbol_names: &'static [&'static str],
    symbol_table: Vec<Address>,
    checked_state: Option<CheckedState>,
}

/// A library, as values.
pub struct LibraryModel {
    /// The raw handle; zero while no library is loaded.
    pub handle: usize,
    pub dylib_names: Seq<&'static str>,
    pub symbol_names: Seq<&'static str>,
    pub symbol_table: Seq<Address>,
    /// `Some` exactly in checked mode.
    pub checked: Option<CheckedModel>,
}

impl LibraryModel {
    /// The tables of checked mode have one entry per symbol.
    pub open spec fn well_formed(self) -> bool {
        self.checked matches Some(c) ==> {
            &&& c.shadow_symbol_table.len() == self.symbol_table.len()
            &&& c.global_asserted.len() == self.symbol_table.len()
        }
    }

    /// The number of symbols of the library.
    pub open spec fn symbol_count(self) -> nat {
        self.symbol_table.len()
    }

    /// `sym_index` names a symbol of the library.
    pub open spec fn valid_symbol(self, sym_index: int) -> bool {
        0 <= sym_index < self.symbol_table.len() && sym_index < self.symbol_names.len()
    }

    /// The handle, if a library is loaded.
    pub open spec fn loaded_handle(self) -> Option<DylibHandle> {
        if self.handle != 0 {
            Some(DylibHandle(self.handle))
        } else {
            None
        }
    }

    /// The entry where a resolved address of `sym_index` is kept: the shadow
    /// table in checked mode, the symbol table otherwise.
    pub open spec fn entry(self, sym_index: int) -> Address {
        match self.checked {
            Some(c) => c.shadow_symbol_table[sym_index],
            None => self.symbol_table[sym_index],
        }
    }

    /// The library with `address` written to the entry of `sym_index`.
    pub open spec fn with_entry(self, sym_index: int, address: Address) -> LibraryModel {
        match self.checked {
            Some(c) => LibraryModel {
                checked: Some(
                    CheckedModel {
                        shadow_symbol_table: c.shadow_symbol_table.update(sym_index, address),
                        ..c
                    },
                ),
                ..self
            },
            None => LibraryModel {
                symbol_table: self.symbol_table.update(sym_index, address),
                ..self
            },
        }
    }

    /// The library with its handle replaced.
    pub open spec fn with_handle(self, handle: usize) -> LibraryModel {
        LibraryModel { handle, ..self }
    }

    /// The library with every symbol of `sym_indices` asserted as resolved for
    /// all threads (checked mode only).
    pub open spec fn with_global_asserted(self, sym_indices: Seq<u32>) -> LibraryModel {
        match self.checked {
            Some(c) => LibraryModel {
                checked: Some(
                    CheckedModel {
                        global_asserted: mark_all(c.global_asserted, sym_indices),
                        ..c
                    },
                ),
                ..self
            },
            None => self,
        }
    }

    /// The first step of loading under the configured names.
    pub open spec fn load_step(self) -> LoadStep {
        if self.handle != 0 {
            LoadStep::Failed(Error::AlreadyLoaded)
        } else if self.dylib_names.len() == 0 {
            LoadStep::Failed(Error::LibraryNotFound)
        } else {
            LoadStep::Open(0)
        }
    }

    /// The library and the step after the name at `index` was tried.
    pub open spec fn load_next_step(self, index: int, opened: Option<DylibHandle>) -> (
        LibraryModel,
        LoadStep,
    ) {
        match opened {
            Some(h) => (self.with_handle(h.0), LoadStep::Loaded(h)),
            None => (
                self,
                if index + 1 < self.dylib_names.len() {
                    LoadStep::Open((index + 1) as usize)
                } else {
                    LoadStep::Failed(Error::LibraryNotFound)
                },
            ),
        }
    }

    /// The first step of resolving the symbol `sym_index`.
    pub open spec fn resolve_step(self, sym_index: int) -> SymbolStep {
        if self.checked is Some && self.entry(sym_index) != 0 {
            SymbolStep::Cached(self.entry(sym_index))
        } else if self.handle != 0 {
            SymbolStep::Lookup(DylibHandle(self.handle))
        } else {
            SymbolStep::Load
        }
    }

    /// The answer of the check that a stub makes before it resolves
    /// `sym_index`, given the counters of the calling thread, if it has any.
    pub open spec fn asserted(self, sym_index: int, thread_counts: Option<Seq<u8>>) -> bool {
        match self.checked {
            None => true,
            Some(c) => c.global_asserted[sym_index] != 0 || match thread_counts {
                Some(t) => t[sym_index] != 0,
                None => false,
            },
        }
    }
}

/// How often `j` occurs in `s`.
pub open spec fn occurrences(s: Seq<u32>, j: int) -> nat
    decreases s.len(),
{
    if s.len() == 0 {
        0
    } else {
        occurrences(s.drop_last(), j) + if s.last() == j {
            1nat
        } else {
            0nat
        }
    }
}

/// Every index of `s` is below `len`.
pub open spec fn indices_below(s: Seq<u32>, len: nat) -> bool {
    forall|k: int| 0 <= k < s.len() ==> #[trigger] s[k] < len
}

/// `counts` with the counter of each index of `s` raised once per occurrence.
pub open spec fn raise_all(counts: Seq<u8>, s: Seq<u32>) -> Seq<u8> {
    Seq::new(counts.len(), |j: int| (counts[j] + occurrences(s, j)) as u8)
}

/// `counts` with the counter of each index of `s` lowered once per occurrence.
pub open spec fn lower_all(counts: Seq<u8>, s: Seq<u32>) -> Seq<u8> {
    Seq::new(counts.len(), |j: int| (counts[j] - occurrences(s, j)) as u8)
}

/// `flags` with the flag of each index of `s` set to one.
pub open spec fn mark_all(flags: Seq<u8>, s: Seq<u32>) -> Seq<u8> {
    Seq::new(flags.len(), |j: int| if occurrences(s, j) > 0 { 1u8 } else { flags[j] })
}

/// Raising each index of `s` keeps every counter within a byte.
pub open spec fn can_raise(counts: Seq<u8>, s: Seq<u32>) -> bool {
    &&& indices_below(s, counts.len())
    &&& forall|j: int| 0 <= j < counts.len() ==> counts[j] + occurrences(s, j) <= u8::MAX
}

/// Lowering each index of `s` keeps every counter at zero or above.
pub open spec fn can_lower(counts: Seq<u8>, s: Seq<u32>) -> bool {
    &&& indices_below(s, counts.len())
    &&& forall|j: int| 0 <= j < counts.len() ==> counts[j] >= occurrences(s, j)
}

/// The occurrences in a prefix one longer.
proof fn lemma_occurrences_step(s: Seq<u32>, i: int, j: int)
    requires
        0 <= i < s.len(),
    ensures
        occurrences(s.take(i + 1), j) == occurrences(s.take(i), j) + if s[i] == j {
            1nat
        } else {
            0nat
        },
{
    assert(s.take(i + 1).drop_last() =~= s.take(i));
}

/// An index occurs in a sequence no more often than in a longer prefix.
proof fn lemma_occurrences_prefix(s: Seq<u32>, i: int, j: int)
    requires
        0 <= i <= s.len(),
    ensures
        occurrences(s.take(i), j) <= occurrences(s, j),
    decreases s.len() - i,
{
    if i < s.len() {
        lemma_occurrences_step(s, i, j);
        lemma_occurrences_prefix(s, i + 1, j);
    } else {
        assert(s.take(i) =~= s);
    }
}

/// Sets to one the flag of each index of `sym_indices`.
fn mark_flags(flags: &mut Box<[u8]>, sym_indices: &[u32], count: usize)
    requires
        count == sym_indices@.len(),
        indices_below(sym_indices@, old(flags)@.len()),
    ensures
        final(flags)@ == mark_all(old(flags)@, sym_indices@),
    no_unwind
{
    let ghost flags0 = flags@;
    let ghost s = sym_indices@;
    let mut i: usize = 0;
    while i < count
        invariant
            i <= s.len(),
            s == sym_indices@,
            count == s.len(),
            indices_below(s, flags0.len()),
            flags@ == mark_all(flags0, s.take(i as int)),
        decreases s.len() - i,
    {
        let j = sym_indices[i] as usize;
        assert(s[i as int] < flags0.len());
        flags[j] = 1;
        proof {
            assert forall|k: int| 0 <= k < flags0.len() implies flags@[k] == (if occurrences(
                s.take(i + 1),
                k,
            ) > 0 {
                1u8
            } else {
                flags0[k]
            }) by {
                lemma_occurrences_step(s, i as int, k);
            }
            assert(flags@ =~= mark_all(flags0, s.take(i + 1)));
        }
        i = i + 1;
    }
    assert(s.take(s.len() as int) =~= s);
}

/// Writes `address` to the entry of `sym_index` in `table`.
fn set_table_entry(table: &mut Vec<Address>, sym_index: u32, address: Address)
    requires
        sym_index < old(table)@.len(),
    ensures
        final(table)@ == old(table)@.update(sym_index as int, address),
    no_unwind
{
    table[sym_index as usize] = address;
}

/// Writes `address` to the shadow entry of `sym_index`.
fn set_shadow_entry(state: &mut Option<CheckedState>, sym_index: u32, address: Address)
    requires
        *old(state) matches Some(c) && sym_index < c.shadow_symbol_table@.len(),
    ensures
        *final(state) matches Some(c) && {
            &&& c.shadow_symbol_table@ == (*old(state))->0.shadow_symbol_table@.update(
                sym_index as int,
                address,
            )
            &&& c.global_asserted@ == (*old(state))->0.global_asserted@
        },
    no_unwind
{
    match state {
        Some(c) => {
            c.shadow_symbol_table[sym_index as usize] = address;
        },
        None => {},
    }
}

/// Sets to one the global flag of each index of `sym_indices`.
fn mark_global_flags(state: &mut Option<CheckedState>, sym_indices: &[u32], count: usize)
    requires
        count == sym_indices@.len(),
        *old(state) matches Some(c) && indices_below(sym_indices@, c.global_asserted@.len()),
    ensures
        *final(state) matches Some(c) && {
            &&& c.global_asserted@ == mark_all((*old(state))->0.global_asserted@, sym_indices@)
            &&& c.shadow_symbol_table@ == (*old(state))->0.shadow_symbol_table@
        },
    no_unwind
{
    match state {
        Some(c) => mark_flags(&mut c.global_asserted, sym_indices, count),
        None => {},
    }
}

/// What one step of loading under the configured names asks for, or how it ended.
#[derive(Clone, Debug, PartialEq, Eq)]
pub enum LoadStep {
    /// Try to open the library under the name at this index.
    Open(usize),
    /// The library is loaded, with this handle.
    Loaded(DylibHandle),
    /// Loading failed.
    Failed(Error),
}

/// What resolving a symbol asks for next.
#[derive(Clone, Copy, Debug, PartialEq, Eq)]
pub enum SymbolStep {
    /// The address was resolved before (checked mode keeps it).
    Cached(Address),
    /// Look the symbol up in the library with this handle.
    Lookup(DylibHandle),
    /// No library is loaded: load it, then hand the end of the load to
    /// `ensure_loaded` (or `lazy_resolve_loaded` in a stub call).
    Load,
}

/// How resolving goes on once the library was to be loaded.
#[derive(Clone, Debug, PartialEq, Eq)]
pub enum Ensured {
    /// Go on resolving with this step.
    Resolve(SymbolStep),
    /// Loading failed: the resolution panics with the error's message.
    Panic(Error),
}

/// How a stub call that found its symbol unresolved goes on, or ends.
#[derive(Clone, Debug, PartialEq, Eq)]
pub enum LazyStep {
    /// Go on resolving with this step.
    Resolve(SymbolStep),
    /// The symbol's address: the stub jumps to it.
    Resolved(Address),
    /// The process aborts with this error: a stub cannot unwind into its caller.
    Abort(Error),
}

impl View for Library {
    type V = LibraryModel;

    closed spec fn view(&self) -> LibraryModel {
        LibraryModel {
            handle: self.handle,
            dylib_names: self.dylib_names@,
            symbol_names: self.symbol_names@,
            symbol_table: self.symbol_table@,
            checked: match self.checked_state {
                Some(c) => Some(
                    CheckedModel {
                        shadow_symbol_table: c.shadow_symbol_table@,
                        global_asserted: c.global_asserted@,
                    },
                ),
                None => None,
            },
        }
    }
}

impl Library {
    /// The tables of checked mode have one entry per symbol.
    #[verifier::type_invariant]
    spec fn inv(self) -> bool {
        self@.well_formed()
    }

    /// A library in plain mode: resolved addresses go straight into the symbol table.
    pub fn new(
        dylib_names: &'static [&'static str],
        symbol_names: &'static [&'static str],
        symbol_table: Vec<Address>,
    ) -> (res: Library)
        ensures
            res@ == (LibraryModel {
                handle: 0,
                dylib_names: dylib_names@,
                symbol_names: symbol_names@,
                symbol_table: symbol_table@,
                checked: None,
            }),
            res@.well_formed(),
    {
        Library { handle: 0, dylib_names, symbol_names, symbol_table, checked_state: None }
    }

    /// A library in checked mode: resolved addresses go into a shadow table, so
    /// that every call goes through the check that its symbol was asserted as
    /// resolved; nothing is asserted yet.
    pub fn new_checked(
        dylib_names: &'static [&'static str],
        symbol_names: &'static [&'static str],
        symbol_table: Vec<Address>,
    ) -> (res: Library)
        ensures
            res@ == (LibraryModel {
                handle: 0,
                dylib_names: dylib_names@,
                symbol_names: symbol_names@,
                symbol_table: symbol_table@,
                checked: Some(
                    CheckedModel {
                        shadow_symbol_table: zeros_usize(symbol_table@.len()),
                        global_asserted: zeros_u8(symbol_table@.len()),
                    },
                ),
            }),
            res@.well_formed(),
    {
        let len = symbol_table.len();
        let checked = CheckedState {
            shadow_symbol_table: zeroed_addresses(len),
            global_asserted: zeroed_counters(len),
        };
        Library { handle: 0, dylib_names, symbol_names, symbol_table, checked_state: Some(checked) }
    }

    /// Whether the library runs in checked mode.
    pub fn is_checked(&self) -> (res: bool)
        ensures
            res == self@.checked is Some,
    {
        self.checked_state.is_some()
    }

    /// The number of symbols of the library.
    pub fn symbol_count(&self) -> (res: usize)
        ensures
            res == self@.symbol_count(),
    {
        self.symbol_table.len()
    }

    /// Whether `sym_index` names a symbol of the library.
    pub fn is_valid_symbol(&self, sym_index: u32) -> (res: bool)
        ensures
            res == self@.valid_symbol(sym_index as int),
    {
        (sym_index as usize) < self.symbol_table.len() && (sym_index as usize)
            < self.symbol_names.len()
    }

    /// The number of names the library may be loaded under.
    pub fn dylib_name_count(&self) -> (res: usize)
        ensures
            res == self@.dylib_names.len(),
    {
        self.dylib_names.len()
    }

    /// The name at `index` that the library may be loaded under.
    pub fn dylib_name(&self, index: usize) -> (res: &'static str)
        requires
            index < self@.dylib_names.len(),
        ensures
            res == self@.dylib_names[index as int],
    {
        self.dylib_names[index]
    }

    /// The name of the symbol `sym_index`.
    pub fn symbol_name(&self, sym_index: u32) -> (res: &'static str)
        requires
            sym_index < self@.symbol_names.len(),
        ensures
            res == self@.symbol_names[sym_index as int],
    {
        self.symbol_names[sym_index as usize]
    }

    /// The address that the symbol table holds for `sym_index`.
    pub fn symbol_address(&self, sym_index: u32) -> (res: Address)
        requires
            sym_index < self@.symbol_count(),
        ensures
            res == self@.symbol_table[sym_index as int],
    {
        self.symbol_table[sym_index as usize]
    }

    /// Sets the library handle directly.
    pub fn set_handle(&mut self, handle: DylibHandle)
        ensures
            final(self)@ == old(self)@.with_handle(handle.0),
    {
        proof {
            use_type_invariant(&*self);
        }
        self.handle = handle.0;
    }

    /// The library handle, if the library is loaded or its handle was set.
    pub fn handle(&self) -> (res: Option<DylibHandle>)
        ensures
            res == self@.loaded_handle(),
    {
        let raw_handle = self.handle;
        if raw_handle != 0 {
            Some(DylibHandle(raw_handle))
        } else {
            None
        }
    }

    /// Starts loading the library under its configured names: refused when a
    /// handle is present, otherwise the first name is tried.
    pub fn load(&self) -> (res: LoadStep)
        ensures
            res == self@.load_step(),
    {
        if self.handle != 0 {
            LoadStep::Failed(Error::AlreadyLoaded)
        } else if self.dylib_names.len() == 0 {
            LoadStep::Failed(Error::LibraryNotFound)
        } else {
            LoadStep::Open(0)
        }
    }

    /// Goes on loading after the name at `index` was tried: a library that
    /// opened is kept and its handle stored; otherwise the next name is tried,
    /// and once every name failed, loading fails.
    pub fn load_next(&mut self, index: usize, opened: Option<DylibHandle>) -> (res: LoadStep)
        requires
            index < old(self)@.dylib_names.len(),
        ensures
            (final(self)@, res) == old(self)@.load_next_step(index as int, opened),
    {
        proof {
            use_type_invariant(&*self);
        }
        match opened {
            Some(h) => {
                self.handle = h.0;
                LoadStep::Loaded(h)
            },
            None => {
                if index < self.dylib_names.len() - 1 {
                    LoadStep::Open(index + 1)
                } else {
                    LoadStep::Failed(Error::LibraryNotFound)
                }
            },
        }
    }

    /// Starts loading the library from a path of the caller's choice: refused
    /// when a handle is present.
    pub fn load_from(&self) -> (res: Result<(), Error>)
        ensures
            res == (if self@.handle != 0 {
                Err::<(), Error>(Error::AlreadyLoaded)
            } else {
                Ok(())
            }),
    {
        if self.handle != 0 {
            Err(Error::AlreadyLoaded)
        } else {
            Ok(())
        }
    }

    /// Ends loading from a path: the handle of a library that opened is stored,
    /// an error of the loader is handed back.
    pub fn load_from_finish(&mut self, opened: Result<DylibHandle, String>) -> (res: Result<
        DylibHandle,
        Error,
    >)
        ensures
            match opened {
                Ok(h) => final(self)@ == old(self)@.with_handle(h.0) && res == Ok::<
                    DylibHandle,
                    Error,
                >(h),
                Err(m) => final(self)@ == old(self)@ && res == Err::<DylibHandle, Error>(
                    Error::System(m),
                ),
            },
    {
        proof {
            use_type_invariant(&*self);
        }
        match opened {
            Ok(h) => {
                self.handle = h.0;
                Ok(h)
            },
            Err(m) => Err(Error::System(m)),
        }
    }
}

impl Library {
    /// The address kept in the entry of `sym_index`: the shadow table in
    /// checked mode, the symbol table otherwise.
    fn symbol_table_entry(&self, sym_index: u32) -> (res: Address)
        requires
            sym_index < self@.symbol_count(),
        ensures
            res == self@.entry(sym_index as int),
    {
        proof {
            use_type_invariant(&*self);
        }
        match &self.checked_state {
            Some(c) => c.shadow_symbol_table[sym_index as usize],
            None => self.symbol_table[sym_index as usize],
        }
    }

    /// Writes `address` to the entry of `sym_index`.
    fn set_symbol_table_entry(&mut self, sym_index: u32, address: Address)
        requires
            sym_index < old(self)@.symbol_count(),
        ensures
            final(self)@ == old(self)@.with_entry(sym_index as int, address),
    {
        proof {
            use_type_invariant(&*self);
        }
        if self.checked_state.is_some() {
            set_shadow_entry(&mut self.checked_state, sym_index, address);
        } else {
            set_table_entry(&mut self.symbol_table, sym_index, address);
        }
    }

    /// Starts resolving the symbol `sym_index`: in checked mode an address
    /// resolved before is handed back; otherwise the symbol is looked up in the
    /// loaded library, which is loaded first when no handle is present.
    pub fn resolve_symbol(&self, sym_index: u32) -> (res: SymbolStep)
        requires
            self@.valid_symbol(sym_index as int),
        ensures
            res == self@.resolve_step(sym_index as int),
    {
        proof {
            use_type_invariant(&*self);
        }
        if self.checked_state.is_some() {
            let address = self.symbol_table_entry(sym_index);
            if address != 0 {
                return SymbolStep::Cached(address);
            }
        }
        match self.handle() {
            Some(handle) => SymbolStep::Lookup(handle),
            None => SymbolStep::Load,
        }
    }

    /// Ends resolving the symbol `sym_index` with what the lookup found: a
    /// found address is written to the symbol's entry and handed back, an error
    /// of the loader is handed back and nothing changes.
    pub fn resolve_symbol_finish(&mut self, sym_index: u32, found: Result<Address, String>) -> (res:
        Result<Address, Error>)
        requires
            old(self)@.valid_symbol(sym_index as int),
        ensures
            match found {
                Ok(a) => final(self)@ == old(self)@.with_entry(sym_index as int, a) && res == Ok::<
                    Address,
                    Error,
                >(a),
                Err(m) => final(self)@ == old(self)@ && res == Err::<Address, Error>(
                    Error::System(m),
                ),
            },
    {
        proof {
            use_type_invariant(&*self);
        }
        match found {
            Ok(address) => {
                self.set_symbol_table_entry(sym_index, address);
                Ok(address)
            },
            Err(m) => Err(Error::System(m)),
        }
    }

    /// Whether a stub may resolve `sym_index`: always in plain mode; in checked
    /// mode only when the symbol was asserted as resolved for all threads, or
    /// for the calling thread, whose counters are `thread_counts` if it has any.
    pub fn check_asserted(&self, sym_index: u32, thread_counts: Option<&[u8]>) -> (res: bool)
        requires
            self@.checked matches Some(c) ==> {
                &&& sym_index < self@.symbol_count()
                &&& c.global_asserted[sym_index as int] == 0 ==> (thread_counts matches Some(t)
                    ==> sym_index < t@.len())
            },
        ensures
            res == self@.asserted(
                sym_index as int,
                match thread_counts {
                    Some(t) => Some(t@),
                    None => None,
                },
            ),
    {
        proof {
            use_type_invariant(&*self);
        }
        match &self.checked_state {
            None => true,
            Some(c) => {
                if c.global_asserted[sym_index as usize] != 0 {
                    true
                } else {
                    match thread_counts {
                        Some(t) => t[sym_index as usize] != 0,
                        None => false,
                    }
                }
            },
        }
    }

    /// Goes on resolving the symbol `sym_index` once the library was to be
    /// loaded, given how the load ended: the loaded library is used; a failed
    /// load is fatal (a panic with the load's error).
    pub fn ensure_loaded(&self, sym_index: u32, load_end: LoadStep) -> (res: Ensured)
        requires
            self@.valid_symbol(sym_index as int),
            load_end !is Open,
        ensures
            res == match load_end {
                LoadStep::Failed(e) => Ensured::Panic(e),
                _ => Ensured::Resolve(self@.resolve_step(sym_index as int)),
            },
    {
        match load_end {
            LoadStep::Failed(e) => Ensured::Panic(e),
            _ => Ensured::Resolve(self.resolve_symbol(sym_index)),
        }
    }

    /// What a stub does when it is called before its symbol is resolved: in
    /// checked mode it first checks that the symbol was asserted as resolved,
    /// and the process aborts when it was not; then it resolves.
    pub fn lazy_resolve(&self, sym_index: u32, thread_counts: Option<&[u8]>) -> (res: LazyStep)
        requires
            self@.valid_symbol(sym_index as int),
            thread_counts matches Some(t) ==> sym_index < t@.len(),
        ensures
            res == (if self@.asserted(
                sym_index as int,
                match thread_counts {
                    Some(t) => Some(t@),
                    None => None,
                },
            ) {
                LazyStep::Resolve(self@.resolve_step(sym_index as int))
            } else {
                LazyStep::Abort(Error::NotAsserted(self@.symbol_names[sym_index as int]))
            }),
    {
        if self.check_asserted(sym_index, thread_counts) {
            LazyStep::Resolve(self.resolve_symbol(sym_index))
        } else {
            LazyStep::Abort(Error::NotAsserted(self.symbol_names[sym_index as usize]))
        }
    }

    /// Goes on with a stub call once the library was to be loaded: the loaded
    /// library is used; a failed load aborts the process with the load's error.
    pub fn lazy_resolve_loaded(&self, sym_index: u32, load_end: LoadStep) -> (res: LazyStep)
        requires
            self@.valid_symbol(sym_index as int),
            load_end !is Open,
        ensures
            res == match load_end {
                LoadStep::Failed(e) => LazyStep::Abort(e),
                _ => LazyStep::Resolve(self@.resolve_step(sym_index as int)),
            },
    {
        match load_end {
            LoadStep::Failed(e) => LazyStep::Abort(e),
            _ => LazyStep::Resolve(self.resolve_symbol(sym_index)),
        }
    }

    /// Ends a stub call with what the lookup found: a found address is written
    /// to the symbol's entry and jumped to; an error of the loader aborts the
    /// process, and nothing changes.
    pub fn lazy_resolve_finish(&mut self, sym_index: u32, found: Result<Address, String>) -> (res:
        LazyStep)
        requires
            old(self)@.valid_symbol(sym_index as int),
        ensures
            match found {
                Ok(a) => final(self)@ == old(self)@.with_entry(sym_index as int, a) && res
                    == LazyStep::Resolved(a),
                Err(m) => final(self)@ == old(self)@ && res == LazyStep::Abort(Error::System(m)),
            },
    {
        match self.resolve_symbol_finish(sym_index, found) {
            Ok(address) => LazyStep::Resolved(address),
            Err(e) => LazyStep::Abort(e),
        }
    }

    /// Asserts, for the calling thread, that the symbols `sym_indices` are
    /// resolved: in checked mode each occurrence raises the symbol's counter in
    /// `thread_counts`; in plain mode nothing happens.
    pub fn assert_resolved(&self, thread_counts: &mut Box<[u8]>, sym_indices: &[u32])
        requires
            self@.checked is Some ==> can_raise(old(thread_counts)@, sym_indices@),
        ensures
            final(thread_counts)@ == if self@.checked is Some {
                raise_all(old(thread_counts)@, sym_indices@)
            } else {
                old(thread_counts)@
            },
    {
        if self.checked_state.is_none() {
            return;
        }
        let ghost counts0 = thread_counts@;
        let ghost s = sym_indices@;
        let mut i: usize = 0;
        while i < sym_indices.len()
            invariant
                i <= s.len(),
                s == sym_indices@,
                can_raise(counts0, s),
                thread_counts@ == raise_all(counts0, s.take(i as int)),
            decreases s.len() - i,
        {
            let j = sym_indices[i] as usize;
            proof {
                assert(s[i as int] < counts0.len());
                lemma_occurrences_step(s, i as int, j as int);
                lemma_occurrences_prefix(s, i + 1, j as int);
            }
            thread_counts[j] = thread_counts[j] + 1;
            proof {
                assert forall|k: int| 0 <= k < counts0.len() implies thread_counts@[k] == (
                counts0[k] + occurrences(s.take(i + 1), k)) as u8 by {
                    lemma_occurrences_step(s, i as int, k);
                    lemma_occurrences_prefix(s, i + 1, k);
                }
                assert(thread_counts@ =~= raise_all(counts0, s.take(i + 1)));
            }
            i = i + 1;
        }
        assert(s.take(s.len() as int) =~= s);
    }

    /// Withdraws, for the calling thread, what `assert_resolved` asserted: in
    /// checked mode each occurrence lowers the symbol's counter in
    /// `thread_counts`; in plain mode nothing happens.
    pub fn deassert_resolved(&self, thread_counts: &mut Box<[u8]>, sym_indices: &[u32])
        requires
            self@.checked is Some ==> can_lower(old(thread_counts)@, sym_indices@),
        ensures
            final(thread_counts)@ == if self@.checked is Some {
                lower_all(old(thread_counts)@, sym_indices@)
            } else {
                old(thread_counts)@
            },
    {
        if self.checked_state.is_none() {
            return;
        }
        let ghost counts0 = thread_counts@;
        let ghost s = sym_indices@;
        let mut i: usize = 0;
        while i < sym_indices.len()
            invariant
                i <= s.len(),
                s == sym_indices@,
                can_lower(counts0, s),
                thread_counts@ == lower_all(counts0, s.take(i as int)),
            decreases s.len() - i,
        {
            let j = sym_indices[i] as usize;
            proof {
                assert(s[i as int] < counts0.len());
                lemma_occurrences_step(s, i as int, j as int);
                lemma_occurrences_prefix(s, i + 1, j as int);
            }
            thread_counts[j] = thread_counts[j] - 1;
            proof {
                assert forall|k: int| 0 <= k < counts0.len() implies thread_counts@[k] == (
                counts0[k] - occurrences(s.take(i + 1), k)) as u8 by {
                    lemma_occurrences_step(s, i as int, k);
                    lemma_occurrences_prefix(s, i + 1, k);
                }
                assert(thread_counts@ =~= lower_all(counts0, s.take(i + 1)));
            }
            i = i + 1;
        }
        assert(s.take(s.len() as int) =~= s);
    }

    /// Asserts, for all threads and for good, that the symbols `sym_indices`
    /// are resolved (checked mode; in plain mode nothing happens).
    pub fn global_assert_resolved(&mut self, sym_indices: &[u32])
        requires
            old(self)@.checked is Some ==> indices_below(sym_indices@, old(self)@.symbol_count()),
        ensures
            final(self)@ == old(self)@.with_global_asserted(sym_indices@),
    {
        proof {
            use_type_invariant(&*self);
        }
        if self.checked_state.is_some() {
            let count = sym_indices.len();
            mark_global_flags(&mut self.checked_state, sym_indices, count);
        }
    }
}

} // verus!
