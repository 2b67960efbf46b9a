use vstd::prelude::*;
use vstd::string::*;

use crate::LibError;
use crate::scan::{ends_with, str_ends_with};

verus! {

/// The suffix that marks a requested filename as a dynamic-link library.
pub const LIB_EXTENSION: &'static str = ".dll";

/// The lowercase form of a string, as `str::to_lowercase` computes it.
pub uninterp spec fn lower_of(s: Seq<char>) -> Seq<char>;

/// Relies on str::to_lowercase: the returned string is the lowercase
/// equivalent of the input, a function of the input characters alone.
#[verifier::external_body]
fn lowercase(s: &str) -> (r: String)
    ensures
        r@ == lower_of(s@),
{
    s.to_lowercase()
}

/// A requested dynamic-link library, named by its filename.
#[derive(Debug)]
pub struct Dll {
    pub name: String,
}

impl Dll {
    pub fn new(name: String) -> (r: Dll)
        ensures
            r.name@ == name@,
    {
        Dll { name }
    }
}

/// Validate the requested filename: lower-case it and demand the library
/// extension. This runs before anything is fetched; a rejected name never
/// reaches the network.
pub fn parse_dll_name(arg: &str) -> (r: Result<Dll, LibError>)
    ensures
        r is Ok <==> ends_with(lower_of(arg@), LIB_EXTENSION@),
        r matches Ok(d) ==> d.name@ == lower_of(arg@),
        r is Err ==> r == Err::<Dll, LibError>(LibError::Argument),
{
    let low = lowercase(arg);
    if str_ends_with(low.as_str(), LIB_EXTENSION) {
        Ok(Dll::new(low))
    } else {
        Err(LibError::Argument)
    }
}

/// The two build variants a listing distinguishes, each with its own
/// system directory.
#[derive(Clone, Copy, Debug, PartialEq, Eq, Structural)]
pub enum Architecture {
    X32,
    X64,
}

pub const X32_SYSTEM_PATH: &'static str = "C:\\Windows\\SysWOW64\\";

pub const X64_SYSTEM_PATH: &'static str = "C:\\Windows\\System32\\";

/// The system directory into which an architecture's libraries are installed.
pub open spec fn system_dir(arch: Architecture) -> Seq<char> {
    match arch {
        Architecture::X32 => X32_SYSTEM_PATH@,
        Architecture::X64 => X64_SYSTEM_PATH@,
    }
}

/// The full destination path: the architecture's system directory followed
/// by the requested library filename (never the archive member's own name).
pub fn dest_path(arch: Architecture, name: &str) -> (r: String)
    ensures
        r@ == system_dir(arch) + name@,
{
    match arch {
        Architecture::X32 => X32_SYSTEM_PATH.to_owned().concat(name),
        Architecture::X64 => X64_SYSTEM_PATH.to_owned().concat(name),
    }
}

} // verus!
