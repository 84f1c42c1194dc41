//! Reading named entries out of the compressed container.

use vstd::prelude::*;

verus! {

/// What the container decoder yields for given archive bytes and entry
/// name: the entry's decompressed bytes, or nothing when the container is
/// malformed or has no entry of that name.
pub uninterp spec fn zip_entry_of(archive: Seq<u8>, name: Seq<char>) -> Option<Seq<u8>>;

/// Relies on zip's `ZipArchive::new` and `by_name`, and `Read::read_to_end`:
/// the decompressed bytes of the named entry, read whole; the outcome is a
/// function of the archive bytes and the name alone.
#[verifier::external_body]
pub(crate) fn read_archive_entry(bytes: &Vec<u8>, name: &str) -> (r: Result<Vec<u8>, String>)
    ensures
        match r {
            Ok(v) => zip_entry_of(bytes@, name@) == Some(v@),
            Err(_) => zip_entry_of(bytes@, name@) is None,
        },
{
    let cur = std::io::Cursor::new(bytes.clone());
    let mut archive = zip::ZipArchive::new(cur).map_err(|e| format!("{e}"))?;
    let mut entry = archive.by_name(name).map_err(|e| format!("{e}"))?;
    let mut out = Vec::new();
    std::io::Read::read_to_end(&mut entry, &mut out).map_err(|e| format!("{e}"))?;
    Ok(out)
}

} // verus!
