//! Resolution of inner file paths against the packs of a repository.
use vstd::prelude::*;
use crate::dat::InnerFilePtr;
use crate::index2::{jamcrc, Index2};
use crate::packid::{dat_path, file_name_start, repo_file_pack_id, PackId};
use crate::text::{chars_of, push_char};
use vstd::string::StringSliceAdditionalSpecFns;

verus! {

/// `base` joined with the relative path `rel`, with one `/` between them.
pub open spec fn join_path(base: Seq<char>, rel: Seq<char>) -> Seq<char> {
    if base.len() == 0 || base.last() == '/' {
        base + rel
    } else {
        base + seq!['/'] + rel
    }
}

/// Does `name` end with `.index2`?
pub open spec fn ends_with_index2(name: Seq<char>) -> bool {
    name.len() >= 7 && name.subrange(name.len() - 7, name.len() as int) == ".index2"@
}

/// The pack whose index the file at `name` holds, if it is an `.index2` file.
pub open spec fn index2_file_pack_id(name: Seq<char>) -> Option<PackId> {
    let id = repo_file_pack_id(name.subrange(file_name_start(name), name.len() as int));
    if ends_with_index2(name) && id is Ok {
        Some(id->Ok_0)
    } else {
        None
    }
}

/// The pack whose index the directory entry `file_name` holds, if it is an `.index2` file
/// with a well-formed name.
pub fn index2_pack_id(file_name: &str) -> (r: Option<PackId>)
    ensures
        r == index2_file_pack_id(file_name@),
{
    let p = chars_of(file_name);
    let n = p.len();
    if n < 7 || !crate::text::range_eq_lit(&p, n - 7, n, ".index2") {
        return None;
    }
    match PackId::from_repo_path(file_name) {
        Ok(q) => Some(q),
        Err(_) => None,
    }
}

/// `base` joined with `rel`.
pub fn join(base: &str, rel: &str) -> (r: String)
    ensures
        r@ == join_path(base@, rel@),
{
    let b = chars_of(base);
    let mut out = base.to_owned();
    if b.len() > 0 && b[b.len() - 1] != '/' {
        push_char(&mut out, '/');
    }
    out.append(rel);
    proof {
        if b@.len() > 0 {
            assert(b@.last() == b@[b@.len() - 1]);
        }
    }
    out
}

/// The location of the inner file at `path` in the pack `packid` of the repository at
/// `base_path`, looked up in that pack's index.
pub fn resolve(base_path: &str, packid: PackId, index: &Index2, path: &str) -> (r: Option<
    InnerFilePtr,
>)
    ensures
        match index@.get(jamcrc(path.spec_bytes())) {
            None => r is None,
            Some(e) => r matches Some(ptr) && ptr.offset == e.offset && ptr.path@ == join_path(
                base_path@,
                dat_path(packid, e.datnum),
            ),
        },
        r is Some ==> r->Some_0.offset % 64 == 0,
{
    match index.find(path) {
        None => None,
        Some(entry) => {
            let rel = packid.into_dat_path(entry.datnum);
            Some(InnerFilePtr { path: join(base_path, rel.as_str()), offset: entry.offset })
        },
    }
}

} // verus!
