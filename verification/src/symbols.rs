//! From an address in a running process to the function it lies in.
//!
//! The resolver does no I/O and reads no debug information itself.
//! [`SymbolResolver::resolve`] is handed what its caller has found out so far
//! and either answers or says what it needs next: the memory map of the
//! process, then the debug information of the binary behind the mapping that
//! holds the address, then what that debug information says of the address.
//! Answers that came from debug information are cached.

use crate::maps::{find_mapping, find_mapping_for_address, line_texts, Mapping, MappingView};
use crate::text::{decimal_text, hex_text, push_decimal, push_hex};
use std::collections::HashMap;
use vstd::prelude::*;

verus! {

/// The cache is emptied before an insertion that finds this many entries.
pub const CACHE_LIMIT: usize = 50_000;

/// Where an address lies in the source.
#[derive(Debug)]
pub struct SymbolInfo {
    /// Demangled name of the function.
    pub function: Option<String>,
    /// Source file.
    pub file: Option<String>,
    /// Line in the source file.
    pub line: Option<u32>,
}

/// What a [`SymbolInfo`] holds, with its texts as sequences of characters.
pub struct SymbolInfoView {
    pub function: Option<Seq<char>>,
    pub file: Option<Seq<char>>,
    pub line: Option<u32>,
}

/// The characters of an optional text.
pub open spec fn text_of(text: Option<String>) -> Option<Seq<char>> {
    match text {
        Some(text) => Some(text@),
        None => None,
    }
}

impl View for SymbolInfo {
    type V = SymbolInfoView;

    open spec fn view(&self) -> SymbolInfoView {
        SymbolInfoView {
            function: text_of(self.function),
            file: text_of(self.file),
            line: self.line,
        }
    }
}

fn clone_text(text: &Option<String>) -> (copy: Option<String>)
    ensures
        text_of(copy) == text_of(*text),
{
    match text {
        Some(text) => Some(text.clone()),
        None => None,
    }
}

impl Clone for SymbolInfo {
    fn clone(&self) -> (copy: Self)
        ensures
            copy@ == self@,
    {
        SymbolInfo {
            function: clone_text(&self.function),
            file: clone_text(&self.file),
            line: self.line,
        }
    }
}

/// The error type of the debug-information reader.
#[verifier::external_type_specification]
#[verifier::external_body]
pub struct ExGimliError(gimli::Error);

/// Why an address could not be resolved.
#[derive(Debug, Clone, Copy)]
pub enum ResolveError {
    /// The memory map of the process could not be read, or not far enough
    /// to find the mapping.
    Io { pid: u32 },
    /// No executable mapping holds the address.
    NoMapping { address: u64 },
    /// The debug information could not be read.
    Parse(gimli::Error),
    /// The debug information lies in further files that would have to be
    /// loaded first, which is not supported.
    DeferredLoading,
}

/// What an error says to the user.
pub open spec fn error_text(error: ResolveError) -> Seq<char> {
    match error {
        ResolveError::Io { pid } => "Failed to open maps file: /proc/"@ + decimal_text(pid as nat)
            + "/maps"@,
        ResolveError::NoMapping { address } => "No executable mapping found for address 0x"@
            + hex_text(address as nat),
        ResolveError::Parse(_) => "Failed to read debug information"@,
        ResolveError::DeferredLoading => "Deferred loading not supported"@,
    }
}

impl ResolveError {
    /// What the error says to the user.
    pub fn message(&self) -> (text: String)
        ensures
            text@ == error_text(*self),
    {
        match self {
            ResolveError::Io { pid } => {
                let mut text = String::from_str("Failed to open maps file: /proc/");
                push_decimal(&mut text, *pid as u64);
                text.append("/maps");
                text
            },
            ResolveError::NoMapping { address } => {
                let mut text = String::from_str("No executable mapping found for address 0x");
                push_hex(&mut text, *address);
                text
            },
            ResolveError::Parse(_) => String::from_str("Failed to read debug information"),
            ResolveError::DeferredLoading => String::from_str("Deferred loading not supported"),
        }
    }
}

/// Something the caller reads on behalf of the resolver.
#[derive(Debug)]
pub enum Fetched<T> {
    /// Not read yet.
    Pending,
    /// It could not be read at all.
    Failed,
    /// Reading it failed on the way; this is what was read before.
    Partial(T),
    /// Read to its end.
    Ready(T),
}

/// A listing handed to the resolver, as lines of characters.
pub open spec fn listing_view(listing: Fetched<&Vec<String>>) -> Fetched<Seq<Seq<char>>> {
    match listing {
        Fetched::Pending => Fetched::Pending,
        Fetched::Failed => Fetched::Failed,
        Fetched::Partial(lines) => Fetched::Partial(line_texts(lines@)),
        Fetched::Ready(lines) => Fetched::Ready(line_texts(lines@)),
    }
}

/// Where the caller stands with the debug information of the binary that
/// the resolver asked it to load.
#[derive(Debug, Clone, Copy, PartialEq, Eq, Structural)]
pub enum Loaded {
    /// The caller has not tried to load it.
    Pending,
    /// The binary could not be read, or holds no usable debug information.
    Failed,
    /// The caller holds it, ready for lookups.
    Ready,
}

/// What the debug information of a binary says of an address: what the
/// caller found when it looked the address up.
#[derive(Debug)]
pub enum FrameLookup {
    /// Further files would have to be loaded first.
    Deferred,
    /// The debug information could not be read.
    Failed(gimli::Error),
    /// No function frame holds the address.
    NoFrame,
    /// The innermost function frame that holds the address.
    Frame(SymbolInfo),
}

/// What a [`FrameLookup`] holds, with its texts as sequences of characters.
pub enum FrameLookupView {
    Deferred,
    Failed(gimli::Error),
    NoFrame,
    Frame(SymbolInfoView),
}

impl View for FrameLookup {
    type V = FrameLookupView;

    open spec fn view(&self) -> FrameLookupView {
        match self {
            FrameLookup::Deferred => FrameLookupView::Deferred,
            FrameLookup::Failed(error) => FrameLookupView::Failed(*error),
            FrameLookup::NoFrame => FrameLookupView::NoFrame,
            FrameLookup::Frame(info) => FrameLookupView::Frame(info@),
        }
    }
}

/// What [`SymbolResolver::resolve`] answers.
#[derive(Debug)]
pub enum ResolveStep {
    /// The resolution has ended.
    Done(Result<SymbolInfo, ResolveError>),
    /// Read the memory map of the process and call again with its lines.
    ReadListing,
    /// Load the debug information of the binary at this path and call again,
    /// saying whether that worked.
    LoadImage(String),
    /// Look `address` up in the debug information of the binary at `path`,
    /// which is loaded, and call again with what it says.
    LookUp { path: String, address: u64 },
}

/// What a [`ResolveStep`] holds, with its texts as sequences of characters.
pub enum ResolveStepView {
    Done(Result<SymbolInfoView, ResolveError>),
    ReadListing,
    LoadImage(Seq<char>),
    LookUp { path: Seq<char>, address: u64 },
}

impl View for ResolveStep {
    type V = ResolveStepView;

    open spec fn view(&self) -> ResolveStepView {
        match self {
            ResolveStep::Done(Ok(info)) => ResolveStepView::Done(Ok(info@)),
            ResolveStep::Done(Err(error)) => ResolveStepView::Done(Err(*error)),
            ResolveStep::ReadListing => ResolveStepView::ReadListing,
            ResolveStep::LoadImage(path) => ResolveStepView::LoadImage(path@),
            ResolveStep::LookUp { path, address } => ResolveStepView::LookUp {
                path: path@,
                address: *address,
            },
        }
    }
}

/// The key under which the cache holds the symbol of an address of a process.
pub open spec fn cache_key(pid: u32, address: u64) -> u128 {
    (pid as u128 * 0x1_0000_0000_0000_0000 + address as u128) as u128
}

/// The address within the file behind `mapping` that `address` stands for:
/// `address - start + offset`, reduced to 64 bits.
pub open spec fn relative_address(mapping: MappingView, address: u64) -> u64 {
    ((address - mapping.start + mapping.offset) % 0x1_0000_0000_0000_0000) as u64
}

/// The symbol for an address in a binary without usable debug information:
/// `unknown_offset_0x<hex>`, in the binary at `pathname`.
pub open spec fn fallback_symbol(pathname: Seq<char>, relative: u64) -> SymbolInfoView {
    SymbolInfoView {
        function: Some("unknown_offset_0x"@ + hex_text(relative as nat)),
        file: Some(pathname),
        line: None,
    }
}

/// The symbol for an address that no function frame holds:
/// `<pathname>+0x<hex>`.
pub open spec fn frameless_symbol(pathname: Seq<char>, relative: u64) -> SymbolInfoView {
    SymbolInfoView {
        function: Some(pathname + "+0x"@ + hex_text(relative as nat)),
        file: Some(pathname),
        line: None,
    }
}

/// What a lookup in the debug information of the binary at `pathname` gives
/// for the address `relative`.
pub open spec fn symbol_for(lookup: FrameLookupView, pathname: Seq<char>, relative: u64) -> Result<
    SymbolInfoView,
    ResolveError,
> {
    match lookup {
        FrameLookupView::Deferred => Err(ResolveError::DeferredLoading),
        FrameLookupView::Failed(error) => Err(ResolveError::Parse(error)),
        FrameLookupView::NoFrame => Ok(frameless_symbol(pathname, relative)),
        FrameLookupView::Frame(info) => Ok(info),
    }
}

/// The cache after the symbol `info` was stored for an address: emptied
/// first if it was full.
pub open spec fn cache_after(
    cache: Map<u128, SymbolInfoView>,
    pid: u32,
    address: u64,
    info: SymbolInfoView,
) -> Map<u128, SymbolInfoView> {
    if cache.len() >= CACHE_LIMIT {
        Map::<u128, SymbolInfoView>::empty().insert(cache_key(pid, address), info)
    } else {
        cache.insert(cache_key(pid, address), info)
    }
}

/// A lookup that the caller hands in, with its texts as sequences of
/// characters.
pub open spec fn lookup_view(lookup: Option<FrameLookup>) -> Option<FrameLookupView> {
    match lookup {
        Some(lookup) => Some(lookup@),
        None => None,
    }
}

/// A step of a resolution and the state it leaves.
pub struct Outcome {
    pub step: ResolveStepView,
    /// The cached symbols, by [`cache_key`].
    pub cache: Map<u128, SymbolInfoView>,
    /// The paths of the binaries whose debug information is loaded, in the
    /// order in which they were loaded.
    pub loaded: Seq<Seq<char>>,
}

/// The end of a resolution that was told `lookup` by the debug information
/// of the binary behind `mapping`: a symbol is cached, an error is not.
pub open spec fn looked_up(
    cache: Map<u128, SymbolInfoView>,
    loaded: Seq<Seq<char>>,
    pid: u32,
    address: u64,
    mapping: MappingView,
    lookup: FrameLookupView,
) -> Outcome {
    let found = symbol_for(lookup, mapping.pathname, relative_address(mapping, address));
    Outcome {
        step: ResolveStepView::Done(found),
        cache: match found {
            Ok(info) => cache_after(cache, pid, address, info),
            Err(_) => cache,
        },
        loaded,
    }
}

/// A resolution that has reached the debug information of the binary behind
/// `mapping`, which is loaded. The last address of all is in no function,
/// since no range of addresses ends after it, so it is not looked up: the
/// answer is as for no frame. For another address the answer is `LookUp`
/// until the caller hands in what the lookup gave.
pub open spec fn consulted(
    cache: Map<u128, SymbolInfoView>,
    loaded: Seq<Seq<char>>,
    pid: u32,
    address: u64,
    mapping: MappingView,
    lookup: Option<FrameLookupView>,
) -> Outcome {
    let relative = relative_address(mapping, address);
    if relative == u64::MAX {
        looked_up(cache, loaded, pid, address, mapping, FrameLookupView::NoFrame)
    } else {
        match lookup {
            Some(lookup) => looked_up(cache, loaded, pid, address, mapping, lookup),
            None => Outcome {
                step: ResolveStepView::LookUp { path: mapping.pathname, address: relative },
                cache,
                loaded,
            },
        }
    }
}

/// The lines of a listing that were read, if any were.
pub open spec fn lines_read(listing: Fetched<Seq<Seq<char>>>) -> Option<Seq<Seq<char>>> {
    match listing {
        Fetched::Partial(lines) => Some(lines),
        Fetched::Ready(lines) => Some(lines),
        _ => None,
    }
}

/// Whether a resolution takes in a lookup: the address is not cached, an
/// executable mapping holds it, the debug information of the binary behind
/// it is loaded, the address is one that is looked up, and the caller hands
/// in what the lookup gave.
pub open spec fn takes_lookup(
    cache: Map<u128, SymbolInfoView>,
    loaded: Seq<Seq<char>>,
    pid: u32,
    address: u64,
    listing: Fetched<Seq<Seq<char>>>,
    binary: Loaded,
    lookup: Option<FrameLookupView>,
) -> bool {
    &&& !cache.contains_key(cache_key(pid, address))
    &&& lines_read(listing) matches Some(lines)
    &&& find_mapping(lines, address) matches Some(mapping)
    &&& (loaded.contains(mapping.pathname) || binary is Ready)
    &&& relative_address(mapping, address) != u64::MAX
    &&& lookup is Some
}

/// One call of [`SymbolResolver::resolve`], as a function of the state and
/// of what the caller has found out.
///
/// A cached symbol is the answer. Otherwise the listing is needed: with none
/// read the answer is `ReadListing`, and with a failed read the error `Io`.
/// When no executable mapping among the lines that were read holds the
/// address, the answer is the error `NoMapping` if the listing was read to
/// its end, and `Io` if it was not. When the debug information of the binary
/// behind the mapping is not loaded, it is needed: with none tried the
/// answer is `LoadImage`, and when it could not be loaded the answer is the
/// fallback symbol, which is not cached. Once it is loaded, which the
/// resolver notes, the debug information is consulted as [`consulted`] says.
pub open spec fn resolve_outcome(
    cache: Map<u128, SymbolInfoView>,
    loaded: Seq<Seq<char>>,
    pid: u32,
    address: u64,
    listing: Fetched<Seq<Seq<char>>>,
    binary: Loaded,
    lookup: Option<FrameLookupView>,
) -> Outcome {
    if cache.contains_key(cache_key(pid, address)) {
        Outcome { step: ResolveStepView::Done(Ok(cache[cache_key(pid, address)])), cache, loaded }
    } else {
        match listing {
            Fetched::Pending => Outcome { step: ResolveStepView::ReadListing, cache, loaded },
            Fetched::Failed => Outcome {
                step: ResolveStepView::Done(Err(ResolveError::Io { pid })),
                cache,
                loaded,
            },
            Fetched::Partial(lines) | Fetched::Ready(lines) => match find_mapping(lines, address) {
                None => Outcome {
                    step: ResolveStepView::Done(
                        Err(
                            if listing is Ready {
                                ResolveError::NoMapping { address }
                            } else {
                                ResolveError::Io { pid }
                            },
                        ),
                    ),
                    cache,
                    loaded,
                },
                Some(mapping) => {
                    if loaded.contains(mapping.pathname) {
                        consulted(cache, loaded, pid, address, mapping, lookup)
                    } else {
                        match binary {
                            Loaded::Pending => Outcome {
                                step: ResolveStepView::LoadImage(mapping.pathname),
                                cache,
                                loaded,
                            },
                            Loaded::Failed => Outcome {
                                step: ResolveStepView::Done(
                                    Ok(
                                        fallback_symbol(
                                            mapping.pathname,
                                            relative_address(mapping, address),
                                        ),
                                    ),
                                ),
                                cache,
                                loaded,
                            },
                            Loaded::Ready => consulted(
                                cache,
                                loaded.push(mapping.pathname),
                                pid,
                                address,
                                mapping,
                                lookup,
                            ),
                        }
                    }
                },
            },
        }
    }
}

/// The cache never grows beyond its limit.
pub proof fn lemma_cache_stays_bounded(
    cache: Map<u128, SymbolInfoView>,
    pid: u32,
    address: u64,
    info: SymbolInfoView,
)
    requires
        cache.dom().finite(),
        cache.len() <= CACHE_LIMIT,
    ensures
        cache_after(cache, pid, address, info).dom().finite(),
        cache_after(cache, pid, address, info).len() <= CACHE_LIMIT,
        cache_after(cache, pid, address, info).contains_key(cache_key(pid, address)),
        cache_after(cache, pid, address, info)[cache_key(pid, address)] == info,
{
}

/// A call of `resolve` leaves a cache within its limit, and notes the debug
/// information of no binary twice: the loaded paths stay as they are, or one
/// that was not among them is added after them.
pub proof fn lemma_resolve_keeps_bounds(
    cache: Map<u128, SymbolInfoView>,
    loaded: Seq<Seq<char>>,
    pid: u32,
    address: u64,
    listing: Fetched<Seq<Seq<char>>>,
    binary: Loaded,
    lookup: Option<FrameLookupView>,
)
    requires
        cache.dom().finite(),
        cache.len() <= CACHE_LIMIT,
        loaded.no_duplicates(),
    ensures
        ({
            let after = resolve_outcome(cache, loaded, pid, address, listing, binary, lookup);
            &&& after.cache.dom().finite()
            &&& after.cache.len() <= CACHE_LIMIT
            &&& after.loaded.no_duplicates()
            &&& after.loaded == loaded || exists|path: Seq<char>|
                !loaded.contains(path) && after.loaded == #[trigger] loaded.push(path)
        }),
{
    let after = resolve_outcome(cache, loaded, pid, address, listing, binary, lookup);
    if !cache.contains_key(cache_key(pid, address)) {
        if let Some(lines) = lines_read(listing) {
            if let Some(mapping) = find_mapping(lines, address) {
                let relative = relative_address(mapping, address);
                assert forall|told: FrameLookupView|
                    #![trigger symbol_for(told, mapping.pathname, relative)]
                    {
                        let end = looked_up(cache, loaded, pid, address, mapping, told);
                        end.cache.dom().finite() && end.cache.len() <= CACHE_LIMIT
                    } by {
                    if let Ok(info) = symbol_for(told, mapping.pathname, relative) {
                        lemma_cache_stays_bounded(cache, pid, address, info);
                    }
                }
                assert(symbol_for(FrameLookupView::NoFrame, mapping.pathname, relative) is Ok);
                if let Some(told) = lookup {
                    assert(symbol_for(told, mapping.pathname, relative) == symbol_for(
                        told,
                        mapping.pathname,
                        relative,
                    ));
                }
                if !loaded.contains(mapping.pathname) && binary is Ready {
                    let grown = loaded.push(mapping.pathname);
                    assert(after.loaded == grown);
                    assert forall|i: int, j: int|
                        0 <= i < grown.len() && 0 <= j < grown.len() && i != j implies grown[i]
                        != grown[j] by {
                        if i < loaded.len() && j < loaded.len() {
                        } else if i < loaded.len() {
                            assert(loaded[i] != mapping.pathname);
                        } else {
                            assert(loaded[j] != mapping.pathname);
                        }
                    }
                }
            }
        }
    }
}

/// Of two calls of `resolve` for one address of one process, one after the
/// other, at most one takes in a lookup, unless the first was told an error.
/// After a first call that took one in and found a symbol, the second
/// answers with that symbol, whatever it is handed, asks for nothing and
/// changes nothing.
pub proof fn lemma_second_resolve_is_cached(
    cache: Map<u128, SymbolInfoView>,
    loaded: Seq<Seq<char>>,
    pid: u32,
    address: u64,
    listing: Fetched<Seq<Seq<char>>>,
    binary: Loaded,
    lookup: Option<FrameLookupView>,
    next_listing: Fetched<Seq<Seq<char>>>,
    next_binary: Loaded,
    next_lookup: Option<FrameLookupView>,
)
    requires
        !(resolve_outcome(cache, loaded, pid, address, listing, binary, lookup).step
            matches ResolveStepView::Done(Err(error)) && (error is Parse
            || error is DeferredLoading)),
    ensures
        ({
            let first = resolve_outcome(cache, loaded, pid, address, listing, binary, lookup);
            let second = resolve_outcome(
                first.cache,
                first.loaded,
                pid,
                address,
                next_listing,
                next_binary,
                next_lookup,
            );
            &&& !(takes_lookup(cache, loaded, pid, address, listing, binary, lookup)
                && takes_lookup(
                first.cache,
                first.loaded,
                pid,
                address,
                next_listing,
                next_binary,
                next_lookup,
            ))
            &&& takes_lookup(cache, loaded, pid, address, listing, binary, lookup) ==> second
                == first && first.step is Done
        }),
{
    let first = resolve_outcome(cache, loaded, pid, address, listing, binary, lookup);
    if takes_lookup(cache, loaded, pid, address, listing, binary, lookup) {
        assert(first.step is Done);
        assert(first.step->Done_0 is Ok);
        assert(first.cache.contains_key(cache_key(pid, address)));
    }
}

/// Resolves addresses of processes to symbols, remembering which debug
/// information its caller has loaded and the symbols that were found.
pub struct SymbolResolver {
    loaded: Vec<String>,
    cache: HashMap<u128, SymbolInfo>,
}

/// The address within the file behind `mapping` that `address` stands for.
pub fn relative_address_of(mapping: &Mapping, address: u64) -> (relative: u64)
    ensures
        relative == relative_address(mapping@, address),
{
    address.wrapping_sub(mapping.start).wrapping_add(mapping.offset)
}

/// The symbol for an address in a binary without usable debug information.
pub fn fallback_symbol_of(pathname: &String, relative: u64) -> (info: SymbolInfo)
    ensures
        info@ == fallback_symbol(pathname@, relative),
{
    let mut function = String::from_str("unknown_offset_0x");
    push_hex(&mut function, relative);
    SymbolInfo { function: Some(function), file: Some(pathname.clone()), line: None }
}

/// Turns what the debug information of the binary at `pathname` says of the
/// address `relative` into the symbol, or the error, of the resolution.
pub fn symbol_from_lookup(lookup: FrameLookup, pathname: &String, relative: u64) -> (found: Result<
    SymbolInfo,
    ResolveError,
>)
    ensures
        match found {
            Ok(info) => symbol_for(lookup@, pathname@, relative) == Ok::<
                SymbolInfoView,
                ResolveError,
            >(info@),
            Err(error) => symbol_for(lookup@, pathname@, relative) == Err::<
                SymbolInfoView,
                ResolveError,
            >(error),
        },
{
    match lookup {
        FrameLookup::Deferred => Err(ResolveError::DeferredLoading),
        FrameLookup::Failed(error) => Err(ResolveError::Parse(error)),
        FrameLookup::NoFrame => {
            let mut function = pathname.clone();
            function.append("+0x");
            push_hex(&mut function, relative);
            Ok(SymbolInfo { function: Some(function), file: Some(pathname.clone()), line: None })
        },
        FrameLookup::Frame(info) => Ok(info),
    }
}

impl SymbolResolver {
    #[verifier::type_invariant]
    spec fn well_formed(self) -> bool {
        &&& self.cache@.dom().finite()
        &&& self.cache@.len() <= CACHE_LIMIT
        &&& self.loaded().no_duplicates()
    }

    /// The cached symbols, by [`cache_key`].
    pub closed spec fn cache(&self) -> Map<u128, SymbolInfoView> {
        self.cache@.map_values(|info: SymbolInfo| info@)
    }

    /// The paths of the binaries whose debug information is loaded, in the
    /// order in which they were loaded.
    pub closed spec fn loaded(&self) -> Seq<Seq<char>> {
        self.loaded@.map_values(|path: String| path@)
    }

    /// A resolver that has cached nothing and knows of no loaded debug
    /// information.
    pub fn new() -> (resolver: Self)
        ensures
            resolver.cache() == Map::<u128, SymbolInfoView>::empty(),
            resolver.loaded() == Seq::<Seq<char>>::empty(),
    {
        let resolver = SymbolResolver { loaded: Vec::new(), cache: HashMap::new() };
        assert(resolver.cache() =~= Map::<u128, SymbolInfoView>::empty());
        assert(resolver.loaded() =~= Seq::<Seq<char>>::empty());
        resolver
    }

    /// The number of cached symbols, which never exceeds [`CACHE_LIMIT`].
    pub fn cache_len(&self) -> (len: usize)
        ensures
            len == self.cache().len(),
            len <= CACHE_LIMIT,
            self.cache().dom().finite(),
    {
        proof {
            use_type_invariant(self);
            assert(self.cache().dom() =~= self.cache@.dom());
        }
        self.cache.len()
    }

    /// The cached symbol of an address of a process.
    pub fn check_cache(&self, pid: u32, address: u64) -> (cached: Option<SymbolInfo>)
        ensures
            match cached {
                Some(info) => {
                    &&& self.cache().contains_key(cache_key(pid, address))
                    &&& self.cache()[cache_key(pid, address)] == info@
                },
                None => !self.cache().contains_key(cache_key(pid, address)),
            },
    {
        let key: u128 = (pid as u128) * 0x1_0000_0000_0000_0000 + address as u128;
        match self.cache.get(&key) {
            Some(info) => Some(info.clone()),
            None => None,
        }
    }

    /// Stores the symbol of an address of a process, emptying the cache
    /// first if it holds [`CACHE_LIMIT`] symbols.
    pub fn update_cache(&mut self, pid: u32, address: u64, info: SymbolInfo)
        ensures
            final(self).cache() == cache_after(old(self).cache(), pid, address, info@),
            final(self).loaded() == old(self).loaded(),
            final(self).cache().dom().finite(),
            final(self).cache().len() <= CACHE_LIMIT,
    {
        proof {
            use_type_invariant(&*self);
            assert(self.cache().dom() =~= self.cache@.dom());
        }
        let key: u128 = (pid as u128) * 0x1_0000_0000_0000_0000 + address as u128;
        let ghost before = self.cache@;
        // The map is worked on outside `self` and then put back.
        let mut cache: HashMap<u128, SymbolInfo> = HashMap::new();
        std::mem::swap(&mut self.cache, &mut cache);
        if cache.len() >= CACHE_LIMIT {
            cache.clear();
        }
        cache.insert(key, info);
        proof {
            let emptied = if before.len() >= CACHE_LIMIT {
                Map::<u128, SymbolInfo>::empty()
            } else {
                before
            };
            assert(cache@ == emptied.insert(key, info));
            assert(cache@.map_values(|info: SymbolInfo| info@) =~= cache_after(
                before.map_values(|info: SymbolInfo| info@),
                pid,
                address,
                info@,
            ));
            assert(cache@.map_values(|info: SymbolInfo| info@).dom() =~= cache@.dom());
        }
        self.cache = cache;
    }

    /// Whether the debug information of the binary at `path` is loaded.
    pub fn is_loaded(&self, path: &String) -> (loaded: bool)
        ensures
            loaded == self.loaded().contains(path@),
    {
        let mut at: usize = 0;
        while at < self.loaded.len()
            invariant
                at <= self.loaded@.len(),
                forall|i: int| 0 <= i < at ==> self.loaded()[i] != path@,
            decreases self.loaded@.len() - at,
        {
            if self.loaded[at] == *path {
                assert(self.loaded()[at as int] == path@);
                return true;
            }
            at += 1;
        }
        false
    }

    /// Resolves `address` in the process `pid` as far as what the caller has
    /// found out allows: see [`resolve_outcome`].
    pub fn resolve(
        &mut self,
        pid: u32,
        address: u64,
        listing: Fetched<&Vec<String>>,
        binary: Loaded,
        lookup: Option<FrameLookup>,
    ) -> (step: ResolveStep)
        ensures
            resolve_outcome(
                old(self).cache(),
                old(self).loaded(),
                pid,
                address,
                listing_view(listing),
                binary,
                lookup_view(lookup),
            ) == (Outcome {
                step: step@,
                cache: final(self).cache(),
                loaded: final(self).loaded(),
            }),
            final(self).cache().dom().finite(),
            final(self).cache().len() <= CACHE_LIMIT,
            final(self).loaded().no_duplicates(),
    {
        proof {
            use_type_invariant(&*self);
            assert(self.cache().dom() =~= self.cache@.dom());
        }
        let ghost cache = self.cache();
        let ghost known = self.loaded();
        if let Some(info) = self.check_cache(pid, address) {
            return ResolveStep::Done(Ok(info));
        }
        let (lines, complete) = match listing {
            Fetched::Pending => {
                return ResolveStep::ReadListing;
            },
            Fetched::Failed => {
                return ResolveStep::Done(Err(ResolveError::Io { pid }));
            },
            Fetched::Partial(lines) => (lines, false),
            Fetched::Ready(lines) => (lines, true),
        };
        let mapping = match find_mapping_for_address(lines, address) {
            Some(mapping) => mapping,
            None => {
                if complete {
                    return ResolveStep::Done(Err(ResolveError::NoMapping { address }));
                } else {
                    return ResolveStep::Done(Err(ResolveError::Io { pid }));
                }
            },
        };
        let relative = relative_address_of(&mapping, address);
        if !self.is_loaded(&mapping.pathname) {
            match binary {
                Loaded::Pending => {
                    return ResolveStep::LoadImage(mapping.pathname);
                },
                Loaded::Failed => {
                    return ResolveStep::Done(Ok(fallback_symbol_of(&mapping.pathname, relative)));
                },
                Loaded::Ready => {
                    // The list is worked on outside `self` and then put back.
                    let mut loaded: Vec<String> = Vec::new();
                    std::mem::swap(&mut self.loaded, &mut loaded);
                    assert(self.loaded() =~= Seq::<Seq<char>>::empty());
                    loaded.push(mapping.pathname.clone());
                    proof {
                        let grown = loaded@.map_values(|path: String| path@);
                        assert(grown =~= known.push(mapping.pathname@));
                        lemma_resolve_keeps_bounds(
                            cache,
                            known,
                            pid,
                            address,
                            listing_view(listing),
                            binary,
                            lookup_view(lookup),
                        );
                        assert(cache.dom() =~= self.cache@.dom());
                    }
                    self.loaded = loaded;
                },
            }
        }
        let told = if relative == u64::MAX {
            FrameLookup::NoFrame
        } else {
            match lookup {
                Some(told) => told,
                None => {
                    return ResolveStep::LookUp { path: mapping.pathname, address: relative };
                },
            }
        };
        match symbol_from_lookup(told, &mapping.pathname, relative) {
            Ok(info) => {
                self.update_cache(pid, address, info.clone());
                ResolveStep::Done(Ok(info))
            },
            Err(error) => ResolveStep::Done(Err(error)),
        }
    }
}

} // verus!
