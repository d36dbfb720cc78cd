//! The native DNS-SD library as this crate sees it: its platform path,
//! its symbol set, its error codes, and the once-per-process load
//! outcome that the host's dynamic loading reports back.

use crate::numfmt::{i32_dec_string, spec_idec};
use vstd::prelude::*;
use vstd::string::StringExecFns;

verus! {

/// The platforms the native library's path differs over.
#[derive(Debug, Clone, Copy, PartialEq, Eq, Structural)]
pub enum Platform {
    Linux,
    MacOs,
    Windows,
    Other,
}

/// Path under which each platform ships its native DNS-SD library.
pub fn get_library_path(platform: Platform) -> (r: &'static str)
    ensures
        platform == Platform::Linux ==> r@ == "libdns_sd.so.1"@,
        platform == Platform::MacOs ==> r@ == "/usr/lib/libSystem.B.dylib"@,
        platform == Platform::Windows ==> r@ == "dnssd.dll"@,
        platform == Platform::Other ==> r@ == "libdns_sd.so"@,
{
    match platform {
        Platform::Linux => "libdns_sd.so.1",
        Platform::MacOs => "/usr/lib/libSystem.B.dylib",
        Platform::Windows => "dnssd.dll",
        Platform::Other => "libdns_sd.so",
    }
}

/// The diagnostic text for a DNS-SD error code.
pub open spec fn spec_error_message(code: int) -> Seq<char> {
    "DNS-SD error: "@ + spec_idec(code)
}

/// Renders a DNS-SD error code as the diagnostic text callers see.
pub fn error_message(code: i32) -> (r: String)
    ensures
        r@ == spec_error_message(code as int),
{
    let mut out = String::from_str("DNS-SD error: ");
    let num = i32_dec_string(code);
    out.append(num.as_str());
    out
}

/// Turns a DNS-SD error code into a result: zero is success, anything
/// else carries the diagnostic text.
pub fn check_error(err: i32) -> (r: Result<(), String>)
    ensures
        r is Ok <==> err == 0,
        err != 0 ==> (r matches Err(m) && m@ == spec_error_message(err as int)),
{
    if err == 0 {
        Ok(())
    } else {
        Err(error_message(err))
    }
}

/// The symbols the loader resolves in the native library. All are
/// required but `GetAddrInfo`, which some builds omit.
#[derive(Debug, Clone, Copy, PartialEq, Eq, Structural)]
pub enum Symbol {
    Browse,
    Resolve,
    Register,
    GetAddrInfo,
    QueryRecord,
    RefSockFd,
    ProcessResult,
    RefDeallocate,
    TxtCreate,
    TxtDeallocate,
    TxtSetValue,
    TxtGetLength,
    TxtGetBytesPtr,
}

/// The name each symbol bears in the native library's export table.
pub fn symbol_name(s: Symbol) -> (r: &'static str)
    ensures
        s == Symbol::Browse ==> r@ == "DNSServiceBrowse"@,
        s == Symbol::Resolve ==> r@ == "DNSServiceResolve"@,
        s == Symbol::Register ==> r@ == "DNSServiceRegister"@,
        s == Symbol::GetAddrInfo ==> r@ == "DNSServiceGetAddrInfo"@,
        s == Symbol::QueryRecord ==> r@ == "DNSServiceQueryRecord"@,
        s == Symbol::RefSockFd ==> r@ == "DNSServiceRefSockFD"@,
        s == Symbol::ProcessResult ==> r@ == "DNSServiceProcessResult"@,
        s == Symbol::RefDeallocate ==> r@ == "DNSServiceRefDeallocate"@,
        s == Symbol::TxtCreate ==> r@ == "TXTRecordCreate"@,
        s == Symbol::TxtDeallocate ==> r@ == "TXTRecordDeallocate"@,
        s == Symbol::TxtSetValue ==> r@ == "TXTRecordSetValue"@,
        s == Symbol::TxtGetLength ==> r@ == "TXTRecordGetLength"@,
        s == Symbol::TxtGetBytesPtr ==> r@ == "TXTRecordGetBytesPtr"@,
{
    match s {
        Symbol::Browse => "DNSServiceBrowse",
        Symbol::Resolve => "DNSServiceResolve",
        Symbol::Register => "DNSServiceRegister",
        Symbol::GetAddrInfo => "DNSServiceGetAddrInfo",
        Symbol::QueryRecord => "DNSServiceQueryRecord",
        Symbol::RefSockFd => "DNSServiceRefSockFD",
        Symbol::ProcessResult => "DNSServiceProcessResult",
        Symbol::RefDeallocate => "DNSServiceRefDeallocate",
        Symbol::TxtCreate => "TXTRecordCreate",
        Symbol::TxtDeallocate => "TXTRecordDeallocate",
        Symbol::TxtSetValue => "TXTRecordSetValue",
        Symbol::TxtGetLength => "TXTRecordGetLength",
        Symbol::TxtGetBytesPtr => "TXTRecordGetBytesPtr",
    }
}

/// Which symbols the host's dynamic loading found in the library.
#[derive(Debug, Clone, Copy, PartialEq, Eq, Structural)]
pub struct SymbolProbe {
    pub browse: bool,
    pub resolve: bool,
    pub register: bool,
    pub get_addr_info: bool,
    pub query_record: bool,
    pub ref_sock_fd: bool,
    pub process_result: bool,
    pub ref_deallocate: bool,
    pub txt_create: bool,
    pub txt_deallocate: bool,
    pub txt_set_value: bool,
    pub txt_get_length: bool,
    pub txt_get_bytes_ptr: bool,
}

impl SymbolProbe {
    /// Every required symbol was found; the optional address function
    /// does not count.
    pub open spec fn spec_required_present(&self) -> bool {
        &&& self.browse
        &&& self.resolve
        &&& self.register
        &&& self.query_record
        &&& self.ref_sock_fd
        &&& self.process_result
        &&& self.ref_deallocate
        &&& self.txt_create
        &&& self.txt_deallocate
        &&& self.txt_set_value
        &&& self.txt_get_length
        &&& self.txt_get_bytes_ptr
    }

    /// The first required symbol missing, in resolution order.
    pub open spec fn spec_first_missing(&self) -> Symbol {
        if !self.browse {
            Symbol::Browse
        } else if !self.resolve {
            Symbol::Resolve
        } else if !self.register {
            Symbol::Register
        } else if !self.query_record {
            Symbol::QueryRecord
        } else if !self.ref_sock_fd {
            Symbol::RefSockFd
        } else if !self.process_result {
            Symbol::ProcessResult
        } else if !self.ref_deallocate {
            Symbol::RefDeallocate
        } else if !self.txt_create {
            Symbol::TxtCreate
        } else if !self.txt_deallocate {
            Symbol::TxtDeallocate
        } else if !self.txt_set_value {
            Symbol::TxtSetValue
        } else if !self.txt_get_length {
            Symbol::TxtGetLength
        } else {
            Symbol::TxtGetBytesPtr
        }
    }
}

/// What a successful load provides. The modern address-resolution
/// function is an optional capability: its absence is no error, it
/// selects the compatibility address strategy instead.
#[derive(Debug, Clone, Copy, PartialEq, Eq, Structural)]
pub struct LibraryCapabilities {
    pub has_get_addr_info: bool,
}

/// Why a load failed; permanent for the rest of the process.
#[derive(Debug, Clone, Copy, PartialEq, Eq, Structural)]
pub enum LoadError {
    /// The library itself could not be loaded.
    LibraryNotFound,
    /// A required symbol is missing from the library.
    MissingSymbol(Symbol),
}

/// The verdict on one load attempt.
pub open spec fn spec_evaluate(library_loaded: bool, probe: SymbolProbe) -> Result<
    LibraryCapabilities,
    LoadError,
> {
    if !library_loaded {
        Err(LoadError::LibraryNotFound)
    } else if !probe.spec_required_present() {
        Err(LoadError::MissingSymbol(probe.spec_first_missing()))
    } else {
        Ok(LibraryCapabilities { has_get_addr_info: probe.get_addr_info })
    }
}

/// Judges one load attempt: the library must load and every required
/// symbol resolve; only the modern address function may be absent.
pub fn evaluate_probe(library_loaded: bool, probe: &SymbolProbe) -> (r: Result<
    LibraryCapabilities,
    LoadError,
>)
    ensures
        r == spec_evaluate(library_loaded, *probe),
{
    if !library_loaded {
        Err(LoadError::LibraryNotFound)
    } else if !probe.browse {
        Err(LoadError::MissingSymbol(Symbol::Browse))
    } else if !probe.resolve {
        Err(LoadError::MissingSymbol(Symbol::Resolve))
    } else if !probe.register {
        Err(LoadError::MissingSymbol(Symbol::Register))
    } else if !probe.query_record {
        Err(LoadError::MissingSymbol(Symbol::QueryRecord))
    } else if !probe.ref_sock_fd {
        Err(LoadError::MissingSymbol(Symbol::RefSockFd))
    } else if !probe.process_result {
        Err(LoadError::MissingSymbol(Symbol::ProcessResult))
    } else if !probe.ref_deallocate {
        Err(LoadError::MissingSymbol(Symbol::RefDeallocate))
    } else if !probe.txt_create {
        Err(LoadError::MissingSymbol(Symbol::TxtCreate))
    } else if !probe.txt_deallocate {
        Err(LoadError::MissingSymbol(Symbol::TxtDeallocate))
    } else if !probe.txt_set_value {
        Err(LoadError::MissingSymbol(Symbol::TxtSetValue))
    } else if !probe.txt_get_length {
        Err(LoadError::MissingSymbol(Symbol::TxtGetLength))
    } else if !probe.txt_get_bytes_ptr {
        Err(LoadError::MissingSymbol(Symbol::TxtGetBytesPtr))
    } else {
        Ok(LibraryCapabilities { has_get_addr_info: probe.get_addr_info })
    }
}

/// How the once-per-process load outcome evolves: the first attempt's
/// verdict is stored; every later attempt returns the stored verdict
/// untouched, so a failure is never retried.
pub open spec fn spec_loader_step(
    outcome: Option<Result<LibraryCapabilities, LoadError>>,
    library_loaded: bool,
    probe: SymbolProbe,
) -> (Result<LibraryCapabilities, LoadError>, Option<Result<LibraryCapabilities, LoadError>>) {
    match outcome {
        Some(o) => (o, Some(o)),
        None => {
            let o = spec_evaluate(library_loaded, probe);
            (o, Some(o))
        },
    }
}

/// The process-wide load outcome, computed at most once.
pub struct Loader {
    outcome: Option<Result<LibraryCapabilities, LoadError>>,
}

impl Loader {
    /// The stored outcome, if an attempt happened yet.
    pub closed spec fn spec_outcome(&self) -> Option<Result<LibraryCapabilities, LoadError>> {
        self.outcome
    }

    /// A loader that has not attempted anything yet.
    pub fn new() -> (r: Loader)
        ensures
            r.spec_outcome() is None,
    {
        Loader { outcome: None }
    }

    /// Memoizes the load: the first call stores this attempt's verdict,
    /// every later call returns the stored verdict and ignores its
    /// arguments. A failure is therefore permanent, by design.
    pub fn get_or_init(&mut self, library_loaded: bool, probe: &SymbolProbe) -> (r: Result<
        LibraryCapabilities,
        LoadError,
    >)
        ensures
            (r, final(self).spec_outcome()) == spec_loader_step(
                old(self).spec_outcome(),
                library_loaded,
                *probe,
            ),
    {
        match self.outcome {
            Some(o) => o,
            None => {
                let o = evaluate_probe(library_loaded, probe);
                self.outcome = Some(o);
                o
            },
        }
    }
}

/// Whether the native backend is available: exactly when the memoized
/// load succeeded.
pub fn is_available(loader: &Loader) -> (r: bool)
    ensures
        r == (match loader.spec_outcome() {
            Some(o) => o is Ok,
            None => false,
        }),
{
    match &loader.outcome {
        Some(Ok(_)) => true,
        _ => false,
    }
}

/// The two mutually exclusive address-resolution strategies, selected
/// once per process by the optional capability.
#[derive(Debug, Clone, Copy, PartialEq, Eq, Structural)]
pub enum AddressStrategy {
    /// One request against the modern address-resolution function.
    Modern,
    /// Two concurrent low-level record queries, IPv4 and IPv6.
    Compat,
}

/// Picks the address-resolution strategy from the loaded capabilities.
pub fn address_strategy(caps: &LibraryCapabilities) -> (r: AddressStrategy)
    ensures
        r == (if caps.has_get_addr_info {
            AddressStrategy::Modern
        } else {
            AddressStrategy::Compat
        }),
{
    if caps.has_get_addr_info {
        AddressStrategy::Modern
    } else {
        AddressStrategy::Compat
    }
}

} // verus!
