//! The quarantine: where infected files are moved, and the index of what it
//! holds (newest first). Moving and deleting the files is left to the caller.
use vstd::prelude::*;
use vstd::string::*;
use crate::models::{ClamError, QuarantineEntry, ThreatMatch};
use crate::paths::{
    file_name_of, file_name_part, joined_path, joined_with, path_join, plain_component,
    verbatim_prefixed,
};
use crate::text::{chars_of, has_sub, same_text, string_from};

verus! {

/// The characters kept as they are in a quarantined file's name.
pub open spec fn safe_name_char(c: char) -> bool {
    ||| 'a' <= c <= 'z'
    ||| 'A' <= c <= 'Z'
    ||| '0' <= c <= '9'
    ||| c == '.'
    ||| c == '-'
    ||| c == '_'
}

/// `name` with every character that is not an ASCII letter or digit, `.`,
/// `-` or `_` replaced by `_`.
pub open spec fn sanitized(name: Seq<char>) -> Seq<char> {
    name.map_values(|c: char| if safe_name_char(c) { c } else { '_' })
}

/// A file name made safe to use inside the quarantine folder.
pub fn sanitize_name(file_name: &str) -> (r: String)
    ensures
        r@ == sanitized(file_name@),
{
    let v = chars_of(file_name);
    let mut out: Vec<char> = Vec::new();
    let mut i: usize = 0;
    while i < v.len()
        invariant
            i <= v@.len(),
            out@ =~= sanitized(v@.take(i as int)),
        decreases v@.len() - i,
    {
        let c = v[i];
        let keep = ('a' <= c && c <= 'z') || ('A' <= c && c <= 'Z') || ('0' <= c && c <= '9') || c
            == '.' || c == '-' || c == '_';
        if keep {
            out.push(c);
        } else {
            out.push('_');
        }
        assert(sanitized(v@.take(i + 1)) =~= sanitized(v@.take(i as int)).push(
            if safe_name_char(c) { c } else { '_' },
        ));
        i = i + 1;
    }
    assert(v@.take(v@.len() as int) =~= v@);
    string_from(out.as_slice())
}

/// The name a quarantined file is stored under: its entry's id, a dash,
/// and its sanitized file name.
pub open spec fn quarantine_name(id: Seq<char>, file_name: Seq<char>) -> Seq<char> {
    id + "-"@ + sanitized(file_name)
}

/// The id holds no character that separates path components.
pub open spec fn separator_free(id: Seq<char>) -> bool {
    !id.contains('/') && !id.contains('\\') && !id.contains(':')
}

pub proof fn lemma_quarantine_name_plain(id: Seq<char>, file_name: Seq<char>)
    requires
        separator_free(id),
    ensures
        plain_component(quarantine_name(id, file_name)),
{
    reveal_strlit("-");
    let n = quarantine_name(id, file_name);
    let s = sanitized(file_name);
    assert(n.len() > 0);
    assert(n[id.len() as int] == '-');
    if n == seq!['.'] {
        assert(seq!['.'][id.len() as int] == '.');
    }
    if n == seq!['.', '.'] {
        assert(seq!['.', '.'][id.len() as int] == '.');
    }
    assert forall|c: char| c == '/' || c == '\\' || c == ':' implies !n.contains(c) by {
        if n.contains(c) {
            let k = choose|k: int| 0 <= k < n.len() && n[k] == c;
            if k < id.len() {
                assert(id[k] == c);
            } else if k == id.len() {
                assert(n[k] == '-');
            } else {
                assert(n[k] == s[k - id.len() - 1]);
            }
        }
    }
}

/// The name kept for the file at `source_path`: its last component, or
/// `infected.bin` when it has none.
pub open spec fn kept_file_name(source_path: Seq<char>) -> Seq<char> {
    match file_name_part(source_path) {
        Some(n) => n,
        None => "infected.bin"@,
    }
}

/// The name of the file at `source_path`, or `infected.bin` when it has none.
pub fn quarantine_file_name(source_path: &str) -> (r: String)
    ensures
        r@ == kept_file_name(source_path@),
        r@ == "infected.bin"@ || (r@.len() > 0 && has_sub(source_path@, r@)),
{
    match file_name_of(source_path) {
        Some(n) => n,
        None => String::from_str("infected.bin"),
    }
}

/// Where a file is stored in the quarantine folder `quarantine_dir` under
/// the entry id `id`.
pub fn quarantine_destination(quarantine_dir: &str, id: &str, file_name: &str) -> (r: String)
    ensures
        r@ == joined_path(quarantine_dir@, quarantine_name(id@, file_name@)),
        separator_free(id@) && !verbatim_prefixed(quarantine_dir@) ==> joined_with(
            quarantine_dir@,
            quarantine_name(id@, file_name@),
            r@,
        ),
{
    let mut name = String::from_str(id);
    name.append("-");
    let safe = sanitize_name(file_name);
    name.append(safe.as_str());
    proof {
        if separator_free(id@) {
            lemma_quarantine_name_plain(id@, file_name@);
        }
    }
    proof {
        reveal_strlit("-");
        assert(name@ =~= quarantine_name(id@, file_name@));
    }
    path_join(quarantine_dir, name.as_str())
}

/// The entry of a threat moved into the quarantine folder `quarantine_dir`:
/// its file is stored under `quarantine_name(id, file name)`, and the entry
/// keeps the original path, the signature, when it was found, and the size.
pub fn plan_quarantine(
    threat: &ThreatMatch,
    quarantine_dir: &str,
    id: String,
    detected_at: i64,
    size: u64,
) -> (r: QuarantineEntry)
    ensures
        r.id == id,
        r.original_path == threat.path,
        r.signature == threat.signature,
        r.detected_at == detected_at,
        r.size == size,
        r.file_name@ == kept_file_name(threat.path@),
        r.file_name@ == "infected.bin"@ || (r.file_name@.len() > 0 && has_sub(
            threat.path@,
            r.file_name@,
        )),
        r.quarantined_path@ == joined_path(quarantine_dir@, quarantine_name(id@, r.file_name@)),
        separator_free(id@) && !verbatim_prefixed(quarantine_dir@) ==> joined_with(
            quarantine_dir@,
            quarantine_name(id@, r.file_name@),
            r.quarantined_path@,
        ),
{
    let file_name = quarantine_file_name(threat.path.as_str());
    let destination = quarantine_destination(quarantine_dir, id.as_str(), file_name.as_str());
    QuarantineEntry {
        id,
        original_path: threat.path.clone(),
        quarantined_path: destination,
        signature: threat.signature.clone(),
        detected_at,
        file_name,
        size,
    }
}

/// Adds an entry to the index, as the newest.
pub fn record_quarantined(index: &mut Vec<QuarantineEntry>, entry: QuarantineEntry)
    ensures
        final(index)@ == seq![entry] + old(index)@,
{
    let ghost before = index@;
    let ghost added = entry;
    index.insert(0, entry);
    assert(index@ =~= seq![added] + before);
}

/// The position of the first entry with id `id`.
pub open spec fn first_with_id(index: Seq<QuarantineEntry>, id: Seq<char>, pos: int) -> bool {
    &&& 0 <= pos < index.len()
    &&& index[pos].id@ == id
    &&& forall|k: int| 0 <= k < pos ==> index[k].id@ != id
}

/// No entry has id `id`.
pub open spec fn no_entry_with_id(index: Seq<QuarantineEntry>, id: Seq<char>) -> bool {
    forall|k: int| 0 <= k < index.len() ==> index[k].id@ != id
}

/// The position of the first entry with id `id`, if any.
pub fn find_entry(index: &Vec<QuarantineEntry>, id: &str) -> (r: Option<usize>)
    ensures
        r matches Some(p) ==> first_with_id(index@, id@, p as int),
        r is None ==> no_entry_with_id(index@, id@),
{
    let mut i: usize = 0;
    while i < index.len()
        invariant
            i <= index@.len(),
            forall|k: int| 0 <= k < i ==> index@[k].id@ != id@,
        decreases index@.len() - i,
    {
        if same_text(index[i].id.as_str(), id) {
            return Some(i);
        }
        i = i + 1;
    }
    None
}

/// Takes the entry with id `id` out of the index, or fails with
/// `QuarantineItemNotFound` and leaves the index as it was.
pub fn take_entry(index: &mut Vec<QuarantineEntry>, id: &str) -> (r: Result<QuarantineEntry, ClamError>)
    ensures
        r matches Ok(e) ==> exists|p: int|
            first_with_id(old(index)@, id@, p) && e == old(index)@[p] && final(index)@ == old(
                index,
            )@.remove(p),
        r matches Err(e) ==> e == ClamError::QuarantineItemNotFound && final(index)@ == old(
            index,
        )@ && no_entry_with_id(old(index)@, id@),
{
    match find_entry(index, id) {
        Some(p) => {
            let entry = index.remove(p);
            Ok(entry)
        },
        None => Err(ClamError::QuarantineItemNotFound),
    }
}

/// Takes out of the index the entry to restore; the caller moves its file
/// back to its original path and writes the index.
pub fn restore_item(index: &mut Vec<QuarantineEntry>, id: &str) -> (r: Result<QuarantineEntry, ClamError>)
    ensures
        r matches Ok(e) ==> exists|p: int|
            first_with_id(old(index)@, id@, p) && e == old(index)@[p] && final(index)@ == old(
                index,
            )@.remove(p),
        r matches Err(e) ==> e == ClamError::QuarantineItemNotFound && final(index)@ == old(
            index,
        )@ && no_entry_with_id(old(index)@, id@),
{
    take_entry(index, id)
}

/// Takes out of the index the entry to delete; the caller deletes its
/// file, if it is still there, and writes the index.
pub fn delete_item(index: &mut Vec<QuarantineEntry>, id: &str) -> (r: Result<QuarantineEntry, ClamError>)
    ensures
        r matches Ok(e) ==> exists|p: int|
            first_with_id(old(index)@, id@, p) && e == old(index)@[p] && final(index)@ == old(
                index,
            )@.remove(p),
        r matches Err(e) ==> e == ClamError::QuarantineItemNotFound && final(index)@ == old(
            index,
        )@ && no_entry_with_id(old(index)@, id@),
{
    take_entry(index, id)
}

} // verus!
