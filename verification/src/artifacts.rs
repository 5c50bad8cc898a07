//! The wasm artifacts of a release directory and their digests.
use crate::digest::{digest_of, sha256_hex};
use crate::encoding::{lossy_text, text_from_utf8_lossy};
use crate::failure::{io_error, Error, ErrorModel, IoFailure, IoModel};
use crate::manifest::{subjects, Subject, SubjectModel};
use crate::sorting::{
    in_order, key_fn, keys_of, lemma_in_order_unique, lemma_sorted, lemma_sorted_map, sort_by_name,
    sorted, Keyed,
};
use crate::text::two;
use vstd::prelude::*;

verus! {

/// An entry of a directory: the bytes of its name, whether it is a file, and what came of reading
/// it.
#[derive(Debug, PartialEq, Eq)]
pub struct DirFile {
    pub name: Vec<u8>,
    pub is_file: bool,
    pub contents: Result<Vec<u8>, IoFailure>,
}

/// The mathematical value of a `DirFile`.
#[verifier::ext_equal]
pub struct DirFileModel {
    pub name: Seq<u8>,
    pub is_file: bool,
    pub contents: Result<Seq<u8>, IoModel>,
}

/// What came of reading a file: its bytes, or the failure to read it.
pub open spec fn bytes_read(r: Result<Vec<u8>, IoFailure>) -> Result<Seq<u8>, IoModel> {
    match r {
        Ok(bytes) => Ok(bytes@),
        Err(e) => Err(e@),
    }
}

impl View for DirFile {
    type V = DirFileModel;

    open spec fn view(&self) -> DirFileModel {
        DirFileModel {
            name: self.name@,
            is_file: self.is_file,
            contents: bytes_read(self.contents),
        }
    }
}

impl Keyed<u8> for DirFile {
    open spec fn key(&self) -> Seq<u8> {
        self.name@
    }

    fn symbols(&self) -> (r: Vec<u8>) {
        let copy = self.name.clone();
        assert(copy@ =~= self.name@);
        copy
    }
}

/// The values of a list of entries.
pub open spec fn dir_files(list: Seq<DirFile>) -> Seq<DirFileModel> {
    list.map_values(|f: DirFile| f@)
}

/// The bytes of `.wasm`.
pub open spec fn wasm_suffix() -> Seq<u8> {
    seq![46u8, 119u8, 97u8, 115u8, 109u8]
}

/// The file name has the extension `wasm`: it ends in `.wasm` and something stands before that.
pub open spec fn is_wasm(name: Seq<u8>) -> bool {
    name.len() > 5 && name.skip(name.len() - 5) == wasm_suffix()
}

/// The entries that are wasm files, in their order.
pub open spec fn only_wasm(list: Seq<DirFileModel>) -> Seq<DirFileModel> {
    list.filter(|f: DirFileModel| f.is_file && is_wasm(f.name))
}

/// Entries by the bytes of their name.
pub open spec fn file_key() -> spec_fn(DirFileModel) -> Seq<u8> {
    |f: DirFileModel| f.name
}

/// The wasm files of a directory, in the order of their names.
pub open spec fn wasm_files(list: Seq<DirFileModel>) -> Seq<DirFileModel> {
    sorted(only_wasm(list), file_key())
}

/// An artifact and its digest for each file, or the first failure to read one.
pub open spec fn artifact_list(files: Seq<DirFileModel>) -> Result<Seq<SubjectModel>, ErrorModel>
    decreases files.len(),
{
    if files.len() == 0 {
        Ok(Seq::empty())
    } else {
        match artifact_list(files.drop_last()) {
            Err(e) => Err(e),
            Ok(front) => match files.last().contents {
                Err(e) => Err(io_error(e)),
                Ok(bytes) => Ok(
                    front.push(
                        SubjectModel {
                            name: lossy_text(files.last().name),
                            sha256: digest_of(bytes),
                        },
                    ),
                ),
            },
        }
    }
}

/// What came of listing a directory.
pub open spec fn listing(r: Result<Vec<DirFile>, IoFailure>) -> Result<
    Seq<DirFileModel>,
    IoModel,
> {
    match r {
        Ok(list) => Ok(dir_files(list@)),
        Err(e) => Err(e@),
    }
}

/// The artifacts of the directory, or the first failure to list it or to read one of them.
pub open spec fn artifacts_found(files: Result<Seq<DirFileModel>, IoModel>) -> Result<
    Seq<SubjectModel>,
    ErrorModel,
> {
    match files {
        Err(e) => Err(io_error(e)),
        Ok(list) => artifact_list(wasm_files(list)),
    }
}

/// The artifacts of the directory, where there are any.
pub open spec fn collected(dir: Seq<char>, files: Result<Seq<DirFileModel>, IoModel>) -> Result<
    Seq<SubjectModel>,
    ErrorModel,
> {
    match files {
        Err(e) => Err(io_error(e)),
        Ok(list) => if wasm_files(list).len() == 0 {
            Err(ErrorModel::NoWasmArtifacts(dir))
        } else {
            artifact_list(wasm_files(list))
        },
    }
}

/// A list of digests in the format of `sha256sum`.
pub open spec fn shasums_of(list: Seq<SubjectModel>) -> Seq<char>
    decreases list.len(),
{
    if list.len() == 0 {
        Seq::empty()
    } else {
        shasums_of(list.drop_last()) + list.last().sha256 + "  "@ + list.last().name + "\n"@
    }
}

/// Whether a file name has the extension `wasm`.
pub fn is_wasm_name(name: &[u8]) -> (r: bool)
    ensures
        r == is_wasm(name@),
{
    let n: usize = name.len();
    if n <= 5 {
        return false;
    }
    let r = name[n - 5] == 46 && name[n - 4] == 119 && name[n - 3] == 97 && name[n - 2] == 115
        && name[n - 1] == 109;
    proof {
        let tail = name@.skip(n - 5);
        assert(tail[0] == name@[n - 5] && tail[1] == name@[n - 4] && tail[2] == name@[n - 3]
            && tail[3] == name@[n - 2] && tail[4] == name@[n - 1]);
        if r {
            assert(tail =~= wasm_suffix());
        }
        assert(wasm_suffix()[0] == 46 && wasm_suffix()[1] == 119 && wasm_suffix()[2] == 97
            && wasm_suffix()[3] == 115 && wasm_suffix()[4] == 109);
    }
    r
}

/// Every wasm file directly inside a directory, in the order of the names, so that a manifest does
/// not depend on the order in which the directory was read.
pub fn list_wasm_files(entries: Vec<DirFile>) -> (r: Vec<DirFile>)
    ensures
        dir_files(r@) == wasm_files(dir_files(entries@)),
{
    let ghost all = dir_files(entries@);
    let ghost keep = |f: DirFileModel| f.is_file && is_wasm(f.name);
    let mut picked: Vec<DirFile> = Vec::new();
    let ghost mut done: int = 0;
    for entry in it: entries
        invariant
            it.seq() == entries@,
            all == dir_files(entries@),
            keep == (|f: DirFileModel| f.is_file && is_wasm(f.name)),
            done == it.index(),
            dir_files(picked@) == all.take(done).filter(keep),
    {
        let ghost so_far = dir_files(picked@);
        let ghost model = entry@;
        proof {
            assert(all[done] == entries@[done]@);
            assert(all.take(done + 1) =~= all.take(done).push(model));
            lemma_filter_push(all.take(done), keep, model);
            done = done + 1;
        }
        if entry.is_file && is_wasm_name(&entry.name) {
            picked.push(entry);
            assert(dir_files(picked@) =~= so_far.push(model));
        }
    }
    assert(all.take(all.len() as int) == all);
    proof {
        lemma_sorted_map(
            picked@,
            key_fn::<DirFile, u8>(),
            |f: DirFile| f@,
            file_key(),
        );
    }
    sort_by_name::<DirFile, u8>(picked)
}

/// A filtered list grows by the item where the item passes.
proof fn lemma_filter_push<A>(list: Seq<A>, keep: spec_fn(A) -> bool, x: A)
    ensures
        list.push(x).filter(keep) == if keep(x) {
            list.filter(keep).push(x)
        } else {
            list.filter(keep)
        },
{
    reveal(Seq::filter);
    assert(list.push(x).drop_last() =~= list);
}

/// Filtering keeps how often each item occurs, or drops all of them.
pub proof fn lemma_filter_multiset<A>(list: Seq<A>, keep: spec_fn(A) -> bool)
    ensures
        list.filter(keep).to_multiset() =~= list.to_multiset().filter(keep),
    decreases list.len(),
{
    broadcast use vstd::multiset::group_multiset_axioms;
    broadcast use vstd::seq_lib::group_to_multiset_ensures;

    if list.len() > 0 {
        let front = list.drop_last();
        lemma_filter_multiset(front, keep);
        lemma_filter_push(front, keep, list.last());
        assert(front.push(list.last()) =~= list);
    } else {
        reveal(Seq::filter);
        assert(list.filter(keep).to_multiset() =~= list.to_multiset().filter(keep));
    }
}

/// No two entries of a directory have the same name.
pub open spec fn names_differ(list: Seq<DirFileModel>) -> bool {
    forall|i: int, j: int|
        #![trigger list[i], list[j]]
        0 <= i < j < list.len() ==> list[i].name != list[j].name
}

/// The wasm files stand in the order of their names.
pub proof fn wasm_files_are_in_order(list: Seq<DirFileModel>)
    ensures
        in_order(keys_of(wasm_files(list), file_key())),
{
    lemma_sorted(only_wasm(list), file_key());
}

/// The wasm files of a directory do not depend on the order in which its entries were read.
pub proof fn wasm_files_ignore_directory_order(a: Seq<DirFileModel>, b: Seq<DirFileModel>)
    requires
        a.to_multiset() == b.to_multiset(),
        names_differ(a),
    ensures
        wasm_files(a) == wasm_files(b),
{
    broadcast use vstd::seq_lib::group_to_multiset_ensures;

    let keep = |f: DirFileModel| f.is_file && is_wasm(f.name);
    lemma_filter_multiset(a, keep);
    lemma_filter_multiset(b, keep);
    lemma_sorted(only_wasm(a), file_key());
    lemma_sorted(only_wasm(b), file_key());
    let x = wasm_files(a);
    assert forall|i: int, j: int|
        #![trigger x[i], x[j]]
        0 <= i < x.len() && 0 <= j < x.len() && file_key()(x[i]) == file_key()(x[j]) implies x[i]
        == x[j] by {
        lemma_listed(a, x[i]);
        lemma_listed(a, x[j]);
        let p = choose|p: int| 0 <= p < a.len() && a[p] == x[i];
        let q = choose|q: int| 0 <= q < a.len() && a[q] == x[j];
        assert(a[p].name == a[q].name);
    }
    lemma_in_order_unique(x, wasm_files(b), file_key());
}

/// A wasm file of a directory is an entry of it.
proof fn lemma_listed(list: Seq<DirFileModel>, f: DirFileModel)
    requires
        wasm_files(list).contains(f),
    ensures
        list.contains(f),
        f.is_file && is_wasm(f.name),
{
    broadcast use vstd::multiset::group_multiset_axioms;
    broadcast use vstd::seq_lib::group_to_multiset_ensures;

    let keep = |f: DirFileModel| f.is_file && is_wasm(f.name);
    lemma_sorted(only_wasm(list), file_key());
    lemma_filter_multiset(list, keep);
    assert(wasm_files(list).to_multiset().count(f) > 0);
    assert(list.to_multiset().filter(keep).count(f) > 0);
    assert(list.to_multiset().count(f) > 0);
}

/// Every wasm file of a directory is covered: an entry is among the wasm files exactly if it is a
/// file with the extension `wasm`.
pub proof fn every_wasm_file_is_covered(list: Seq<DirFileModel>, f: DirFileModel)
    ensures
        wasm_files(list).contains(f) <==> list.contains(f) && f.is_file && is_wasm(f.name),
{
    broadcast use vstd::multiset::group_multiset_axioms;
    broadcast use vstd::seq_lib::group_to_multiset_ensures;

    if wasm_files(list).contains(f) {
        lemma_listed(list, f);
    }
    if list.contains(f) && f.is_file && is_wasm(f.name) {
        let keep = |f: DirFileModel| f.is_file && is_wasm(f.name);
        lemma_sorted(only_wasm(list), file_key());
        lemma_filter_multiset(list, keep);
        assert(list.to_multiset().count(f) > 0);
        assert(list.to_multiset().filter(keep).count(f) > 0);
        assert(wasm_files(list).to_multiset().count(f) > 0);
    }
}

/// A list of digests in the format of `sha256sum`.
pub fn shasums_text(list: &[Subject]) -> (r: String)
    ensures
        r@ == shasums_of(subjects(list@)),
{
    let ghost all = subjects(list@);
    let mut out = String::new();
    for i in 0..list.len()
        invariant
            all == subjects(list@),
            out@ == shasums_of(all.take(i as int)),
    {
        assert(all.take(i + 1).drop_last() == all.take(i as int));
        assert(all[i as int] == list@[i as int]@);
        out.append(&list[i].sha256);
        out.append("  ");
        out.append(&list[i].name);
        out.append("\n");
    }
    assert(all.take(list@.len() as int) == all);
    out
}

/// Where a file could not be read, there are no artifacts.
proof fn lemma_unreadable(files: Seq<DirFileModel>, i: int, front: Seq<SubjectModel>)
    requires
        0 <= i < files.len(),
        artifact_list(files.take(i)) == Ok::<Seq<SubjectModel>, ErrorModel>(front),
        files[i].contents is Err,
    ensures
        artifact_list(files) == Err::<Seq<SubjectModel>, ErrorModel>(
            io_error(files[i].contents->Err_0),
        ),
    decreases files.len(),
{
    if i == files.len() - 1 {
        assert(files.drop_last() =~= files.take(i));
    } else {
        assert(files.drop_last().take(i) =~= files.take(i));
        lemma_unreadable(files.drop_last(), i, front);
    }
}

/// An artifact and its digest for each file, or the first failure to read one.
pub fn hash_files(files: &[DirFile]) -> (r: Result<Vec<Subject>, Error>)
    ensures
        match r {
            Ok(list) => artifact_list(dir_files(files@)) == Ok::<Seq<SubjectModel>, ErrorModel>(
                subjects(list@),
            ),
            Err(e) => artifact_list(dir_files(files@)) == Err::<Seq<SubjectModel>, ErrorModel>(e@),
        },
{
    let ghost all = dir_files(files@);
    let mut list: Vec<Subject> = Vec::new();
    assert(subjects(list@) =~= Seq::empty());
    for i in 0..files.len()
        invariant
            all == dir_files(files@),
            artifact_list(all.take(i as int)) == Ok::<Seq<SubjectModel>, ErrorModel>(
                subjects(list@),
            ),
    {
        let ghost so_far = subjects(list@);
        assert(all[i as int] == files@[i as int]@);
        assert(all.take(i + 1).drop_last() == all.take(i as int));
        assert(all.take(i + 1).last() == all[i as int]);
        match &files[i].contents {
            Err(e) => {
                proof {
                    lemma_unreadable(all, i as int, so_far);
                }
                return Err(Error::Io { path: e.path.clone(), source: e.source.clone() });
            },
            Ok(bytes) => {
                list.push(
                    Subject {
                        name: text_from_utf8_lossy(&files[i].name),
                        sha256: sha256_hex(bytes),
                    },
                );
                assert(subjects(list@) =~= so_far.push(
                    SubjectModel {
                        name: lossy_text(all[i as int].name),
                        sha256: digest_of(bytes@),
                    },
                ));
            },
        }
    }
    assert(all.take(files@.len() as int) == all);
    Ok(list)
}

/// The artifacts of the directory, or the first failure to list it or to read one of them.
pub fn find_artifacts(files: Result<Vec<DirFile>, IoFailure>) -> (r: Result<Vec<Subject>, Error>)
    ensures
        match r {
            Ok(list) => artifacts_found(listing(files)) == Ok::<Seq<SubjectModel>, ErrorModel>(
                subjects(list@),
            ),
            Err(e) => artifacts_found(listing(files)) == Err::<Seq<SubjectModel>, ErrorModel>(e@),
        },
{
    match files {
        Err(e) => Err(Error::Io { path: e.path, source: e.source }),
        Ok(entries) => hash_files(&list_wasm_files(entries)),
    }
}

/// The artifacts of the directory, where there are any.
pub fn collect_artifacts(dir: &str, files: Result<Vec<DirFile>, IoFailure>) -> (r: Result<
    Vec<Subject>,
    Error,
>)
    ensures
        match r {
            Ok(list) => collected(dir@, listing(files)) == Ok::<Seq<SubjectModel>, ErrorModel>(
                subjects(list@),
            ),
            Err(e) => collected(dir@, listing(files)) == Err::<Seq<SubjectModel>, ErrorModel>(e@),
        },
{
    match files {
        Err(e) => Err(Error::Io { path: e.path, source: e.source }),
        Ok(entries) => {
            let found = list_wasm_files(entries);
            assert(dir_files(found@).len() == found@.len());
            if found.len() == 0 {
                return Err(Error::NoWasmArtifacts(dir.to_string()));
            }
            hash_files(&found)
        },
    }
}

/// The name under which a file is written before it takes its place: hidden, beside the file. A
/// file without a name in UTF-8 goes by `out`.
pub open spec fn temporary(name: Option<Seq<char>>) -> Seq<char> {
    "."@ + (match name {
        Some(name) => name,
        None => "out"@,
    }) + ".tmp"@
}

/// The name under which a file is written before it takes its place.
pub fn temporary_name(name: Option<&str>) -> (r: String)
    ensures
        r@ == temporary(
            match name {
                Some(s) => Some(s@),
                None => None,
            },
        ),
{
    let mut r = match name {
        Some(s) => two(".", s),
        None => two(".", "out"),
    };
    r.append(".tmp");
    r
}

/// A file is never written under its own name before it takes its place.
pub proof fn temporary_differs(name: Seq<char>)
    ensures
        temporary(Some(name)) != name,
{
    reveal_strlit(".");
    reveal_strlit(".tmp");
    assert(temporary(Some(name)).len() == name.len() + 5);
}

} // verus!
