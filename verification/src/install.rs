use vstd::prelude::*;
use vstd::string::*;

use crate::LibError;
use crate::dll::LIB_EXTENSION;
use crate::scan::{ends_with, str_ends_with};
use std::io::Cursor;
use std::io::Read;
use zip::read::ZipArchive;
use zip::result::ZipError;

verus! {

#[verifier::external_type_specification]
#[verifier::external_body]
#[verifier::reject_recursive_types(T)]
pub struct ExCursor<T>(Cursor<T>);

#[verifier::external_type_specification]
#[verifier::external_body]
#[verifier::reject_recursive_types(R)]
pub struct ExZipArchive<R>(ZipArchive<R>);

#[verifier::external_type_specification]
#[verifier::external_body]
pub struct ExZipError(ZipError);

/// The members a byte string parses to as a zip archive: each member's
/// stored name and full decompressed content, in the order zip yields them
/// (members sharing a raw name collapse to the last one); `None` when the
/// bytes are not a readable archive. What zip's central-directory parse
/// yields is a function of the bytes alone.
pub uninterp spec fn zip_entries(bytes: Seq<u8>) -> Option<Seq<(Seq<char>, Seq<u8>)>>;

/// The members an open archive holds: stored name and full decompressed
/// content, in the order zip yields them.
pub uninterp spec fn zip_contents(a: ZipArchive<Cursor<Vec<u8>>>) -> Seq<(Seq<char>, Seq<u8>)>;

/// The bytes an open archive was read from.
pub uninterp spec fn zip_source(a: ZipArchive<Cursor<Vec<u8>>>) -> Seq<u8>;

/// Whether zip can open member `i` of the archive these bytes parse to (its
/// local header is readable and its compression method supported). The
/// archive sits in memory, so this is a function of the bytes alone.
pub uninterp spec fn member_name_ok(bytes: Seq<u8>, i: int) -> bool;

/// Whether zip can open member `i` and decompress its full content without
/// error. A function of the bytes alone, for the same reason.
pub uninterp spec fn member_data_ok(bytes: Seq<u8>, i: int) -> bool;

/// Relies on zip::read::ZipArchive::new over an in-memory cursor: reading
/// the central directory of a byte string succeeds exactly when the bytes
/// parse as a zip archive, and the open archive then holds those bytes'
/// members.
#[verifier::external_body]
fn zip_open(bytes: Vec<u8>) -> (r: Result<ZipArchive<Cursor<Vec<u8>>>, ZipError>)
    ensures
        r is Ok <==> zip_entries(bytes@) is Some,
        r matches Ok(a) ==> Some(zip_contents(a)) == zip_entries(bytes@) && zip_source(a)
            == bytes@,
{
    ZipArchive::new(Cursor::new(bytes))
}

/// Relies on zip::read::ZipArchive::len: the number of members.
#[verifier::external_body]
fn zip_len(a: &ZipArchive<Cursor<Vec<u8>>>) -> (n: usize)
    ensures
        n == zip_contents(*a).len(),
{
    a.len()
}

/// Relies on zip::read::ZipArchive::by_index and ZipFile::name: the stored
/// name of member `i`. Opening a member succeeds exactly when the in-memory
/// bytes allow it, and reading member metadata never changes what the
/// archive holds.
#[verifier::external_body]
fn zip_member_name(a: &mut ZipArchive<Cursor<Vec<u8>>>, i: usize) -> (r: Result<String, ZipError>)
    requires
        i < zip_contents(*old(a)).len(),
    ensures
        zip_contents(*final(a)) == zip_contents(*old(a)),
        zip_source(*final(a)) == zip_source(*old(a)),
        r is Ok <==> member_name_ok(zip_source(*old(a)), i as int),
        r matches Ok(name) ==> name@ == zip_contents(*old(a))[i as int].0,
{
    let file = a.by_index(i)?;
    Ok(file.name().to_owned())
}

/// Relies on zip::read::ZipArchive::by_index and std::io::Read::read_to_end
/// on the returned member: the member's full decompressed content. The read
/// succeeds exactly when the in-memory bytes allow it, and reading a member
/// never changes what the archive holds.
#[verifier::external_body]
fn zip_member_data(a: &mut ZipArchive<Cursor<Vec<u8>>>, i: usize) -> (r: Result<Vec<u8>, ZipError>)
    requires
        i < zip_contents(*old(a)).len(),
    ensures
        zip_contents(*final(a)) == zip_contents(*old(a)),
        zip_source(*final(a)) == zip_source(*old(a)),
        r is Ok <==> member_data_ok(zip_source(*old(a)), i as int),
        r matches Ok(data) ==> data@ == zip_contents(*old(a))[i as int].1,
{
    let mut file = a.by_index(i)?;
    let mut buf = Vec::new();
    file.read_to_end(&mut buf)?;
    Ok(buf)
}

/// A member qualifies for installation when its stored name ends with the
/// library extension.
pub open spec fn qualifies(entry: (Seq<char>, Seq<u8>)) -> bool {
    ends_with(entry.0, LIB_EXTENSION@)
}

/// The decision `plan_install` owes for a readable archive: no qualifying
/// member means a successful no-op; otherwise an existing destination is
/// never overwritten, and a fresh one receives exactly the first qualifying
/// member's bytes.
pub open spec fn plan_ok(
    entries: Seq<(Seq<char>, Seq<u8>)>,
    dest_exists: bool,
    act: InstallAction,
) -> bool {
    match act {
        InstallAction::NoQualifyingMember => forall|j: int|
            0 <= j < entries.len() ==> !qualifies(#[trigger] entries[j]),
        InstallAction::SkipAlreadyPresent => dest_exists && (exists|i: int|
            0 <= i < entries.len() && qualifies(#[trigger] entries[i])),
        InstallAction::Install(data) => !dest_exists && (exists|i: int|
            0 <= i < entries.len() && qualifies(#[trigger] entries[i]) && data@ == entries[i].1
                && (forall|j: int| 0 <= j < i ==> !qualifies(#[trigger] entries[j]))),
    }
}

/// A member name qualifies when it ends with the library extension, with the
/// case exactly as stored: no folding is applied here.
pub open spec fn name_qualifies(name: Seq<char>) -> bool {
    ends_with(name, LIB_EXTENSION@)
}

/// What the member names alone decide: write the member at this index, skip
/// because the destination already exists, or nothing to install.
#[derive(Debug, PartialEq, Eq, Structural)]
pub enum InstallDecision {
    Write(usize),
    SkipAlreadyPresent,
    NothingToInstall,
}

/// Decide an installation from the archive's member names, in stored order,
/// and whether the destination file already exists: the first name ending
/// with the library extension wins; an existing destination is never
/// written; without a qualifying name the installation is a no-op.
pub fn decide_install(names: &Vec<String>, dest_exists: bool) -> (r: InstallDecision)
    ensures
        match r {
            InstallDecision::Write(i) => !dest_exists && i < names@.len() && name_qualifies(
                names@[i as int]@,
            ) && (forall|j: int| 0 <= j < i ==> !name_qualifies(#[trigger] names@[j]@)),
            InstallDecision::SkipAlreadyPresent => dest_exists && exists|k: int|
                0 <= k < names@.len() && name_qualifies(#[trigger] names@[k]@),
            InstallDecision::NothingToInstall => forall|j: int|
                0 <= j < names@.len() ==> !name_qualifies(#[trigger] names@[j]@),
        },
{
    let n = names.len();
    let mut i: usize = 0;
    while i < n
        invariant
            i <= n,
            n == names@.len(),
            forall|j: int| 0 <= j < i ==> !name_qualifies(#[trigger] names@[j]@),
        decreases n - i,
    {
        if str_ends_with(names[i].as_str(), LIB_EXTENSION) {
            if dest_exists {
                assert(exists|k: int| 0 <= k < names@.len() && name_qualifies(
                    #[trigger] names@[k]@,
                )) by {
                    assert(name_qualifies(names@[i as int]@));
                }
                return InstallDecision::SkipAlreadyPresent;
            }
            return InstallDecision::Write(i);
        }
        i += 1;
    }
    InstallDecision::NothingToInstall
}

/// Every member's name is readable from the archive these bytes parse to.
pub open spec fn names_readable(bytes: Seq<u8>, n: int) -> bool {
    forall|i: int| 0 <= i < n ==> #[trigger] member_name_ok(bytes, i)
}

/// When the installation will write — the destination is absent and some
/// member qualifies — the first qualifying member's content is readable.
pub open spec fn write_readable(
    bytes: Seq<u8>,
    entries: Seq<(Seq<char>, Seq<u8>)>,
    dest_exists: bool,
) -> bool {
    forall|i: int|
        0 <= i < entries.len() && qualifies(#[trigger] entries[i]) && (forall|j: int|
            0 <= j < i ==> !qualifies(#[trigger] entries[j])) && !dest_exists
            ==> member_data_ok(bytes, i)
}

/// The inputs on which `plan_install` succeeds: the bytes parse as an
/// archive, every member's name can be read, and — when the decision is a
/// write — the first qualifying member's content can be read too.
pub open spec fn plan_feasible(bytes: Seq<u8>, dest_exists: bool) -> bool {
    match zip_entries(bytes) {
        None => false,
        Some(entries) => names_readable(bytes, entries.len() as int) && write_readable(
            bytes,
            entries,
            dest_exists,
        ),
    }
}

/// Law: when the destination file already exists, a successful installation
/// decision never writes; with a qualifying member present it is exactly the
/// skip. Running an installation again over the same archive, after the
/// first run created the file, therefore leaves the file's content unchanged.
pub proof fn lemma_install_idempotent(
    entries: Seq<(Seq<char>, Seq<u8>)>,
    act: InstallAction,
)
    requires
        plan_ok(entries, true, act),
    ensures
        !(act is Install),
        (exists|i: int| 0 <= i < entries.len() && qualifies(#[trigger] entries[i]))
            ==> act is SkipAlreadyPresent,
{
}

/// How one architecture's installation ends: the first qualifying member's
/// bytes are to be written, or the destination already exists and nothing is
/// written, or no member qualifies and nothing is written.
#[derive(Debug)]
pub enum InstallAction {
    Install(Vec<u8>),
    SkipAlreadyPresent,
    NoQualifyingMember,
}

/// Decide one architecture's installation from the downloaded archive bytes
/// and whether the destination file already exists. The first member in
/// stored order whose name ends with the library extension wins; if the
/// destination exists it is never overwritten; an archive without a
/// qualifying member is a successful no-op; bytes that are not a readable
/// archive, or a member read that fails, report `Archive`. Success is owed
/// on exactly the inputs `plan_feasible` names: the bytes parse and every
/// read the decision takes goes through.
pub fn plan_install(archive: Vec<u8>, dest_exists: bool) -> (r: Result<InstallAction, LibError>)
    ensures
        r is Ok <==> plan_feasible(archive@, dest_exists),
        r is Err ==> r == Err::<InstallAction, LibError>(LibError::Archive),
        r matches Ok(act) ==> zip_entries(archive@) is Some && plan_ok(
            zip_entries(archive@)->Some_0,
            dest_exists,
            act,
        ),
{
    let mut ar = match zip_open(archive) {
        Err(_) => {
            return Err(LibError::Archive);
        },
        Ok(a) => a,
    };
    let n = zip_len(&ar);
    let ghost entries = zip_contents(ar);
    let mut names: Vec<String> = Vec::new();
    let mut i: usize = 0;
    while i < n
        invariant
            zip_contents(ar) == entries,
            Some(entries) == zip_entries(archive@),
            zip_source(ar) == archive@,
            i <= n,
            n == entries.len(),
            names@.len() == i as int,
            forall|j: int| 0 <= j < i ==> (#[trigger] names@[j])@ == entries[j].0,
            forall|j: int| 0 <= j < i ==> #[trigger] member_name_ok(archive@, j),
        decreases n - i,
    {
        let name = match zip_member_name(&mut ar, i) {
            Err(_) => {
                proof {
                    assert(!names_readable(archive@, entries.len() as int)) by {
                        assert(!member_name_ok(archive@, i as int));
                    }
                }
                return Err(LibError::Archive);
            },
            Ok(nm) => nm,
        };
        names.push(name);
        i += 1;
    }
    assert(names_readable(archive@, entries.len() as int));
    match decide_install(&names, dest_exists) {
        InstallDecision::NothingToInstall => {
            assert forall|j: int| 0 <= j < entries.len() implies !qualifies(
                #[trigger] entries[j],
            ) by {
                assert(!name_qualifies(names@[j]@));
            }
            assert(write_readable(archive@, entries, dest_exists));
            Ok(InstallAction::NoQualifyingMember)
        },
        InstallDecision::SkipAlreadyPresent => {
            let ghost k = choose|k: int|
                0 <= k < names@.len() && name_qualifies(#[trigger] names@[k]@);
            assert(exists|k: int| 0 <= k < entries.len() && qualifies(#[trigger] entries[k])) by {
                assert(qualifies(entries[k]));
            }
            assert(write_readable(archive@, entries, dest_exists));
            Ok(InstallAction::SkipAlreadyPresent)
        },
        InstallDecision::Write(w) => {
            proof {
                assert(qualifies(entries[w as int]));
                assert forall|j: int| 0 <= j < w implies !qualifies(#[trigger] entries[j]) by {
                    assert(!name_qualifies(names@[j]@));
                }
            }
            let data = match zip_member_data(&mut ar, w) {
                Err(_) => {
                    proof {
                        assert(!write_readable(archive@, entries, dest_exists)) by {
                            assert((w as int) < entries.len() && qualifies(entries[w as int])
                                && (forall|j: int|
                                0 <= j < w as int ==> !qualifies(#[trigger] entries[j]))
                                && !dest_exists && !member_data_ok(archive@, w as int));
                        }
                    }
                    return Err(LibError::Archive);
                },
                Ok(d) => d,
            };
            assert(exists|k: int|
                0 <= k < entries.len() && qualifies(#[trigger] entries[k]) && data@
                    == entries[k].1 && (forall|j: int| 0 <= j < k ==> !qualifies(
                    #[trigger] entries[j],
                ))) by {
                assert(qualifies(entries[w as int]) && data@ == entries[w as int].1);
            }
            assert(write_readable(archive@, entries, dest_exists)) by {
                assert forall|i2: int|
                    0 <= i2 < entries.len() && qualifies(#[trigger] entries[i2]) && (forall|
                        j: int,
                    |
                        0 <= j < i2 ==> !qualifies(#[trigger] entries[j])) && !dest_exists
                        implies member_data_ok(archive@, i2) by {
                    if i2 < w as int {
                        assert(!qualifies(entries[i2]));
                        assert(false);
                    } else if i2 > w as int {
                        assert(!qualifies(entries[w as int]));
                        assert(false);
                    } else {
                        assert(member_data_ok(archive@, w as int));
                    }
                }
            }
            Ok(InstallAction::Install(data))
        },
    }
}

} // verus!
