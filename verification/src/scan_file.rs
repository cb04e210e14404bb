//! The data files of a snapshot.

use vstd::prelude::*;

use std::sync::Arc;

use delta_kernel::expressions::Expression;

use crate::error::DeltaError;

verus! {

/// A single data file to scan.
#[derive(Debug, Clone, PartialEq, Eq)]
pub struct DeltaScanFile {
    /// File path relative to the table root.
    pub path: String,
    /// File size in bytes, from the table's log.
    pub size: i64,
    /// Whether the kernel attached a logical-to-physical transform that must be applied after
    /// reading.
    pub has_transform: bool,
}

/// What a [`DeltaScanFile`] says.
pub ghost struct DeltaScanFileView {
    pub path: Seq<char>,
    pub size: i64,
    pub has_transform: bool,
}

impl View for DeltaScanFile {
    type V = DeltaScanFileView;

    open spec fn view(&self) -> DeltaScanFileView {
        DeltaScanFileView { path: self.path@, size: self.size, has_transform: self.has_transform }
    }
}

/// A live data file as log replay reports it.
#[derive(Debug)]
pub struct ScanFile {
    pub path: String,
    pub size: i64,
    /// The transform that turns the file's physical data into logical data, if one is needed.
    pub transform: Option<Arc<Expression>>,
}

/// The entry that a reported file gets in the list.
pub open spec fn listed(scan_file: ScanFile) -> DeltaScanFileView {
    DeltaScanFileView {
        path: scan_file.path@,
        size: scan_file.size,
        has_transform: scan_file.transform is Some,
    }
}

/// The entries of `files`.
pub open spec fn entries(files: Seq<DeltaScanFile>) -> Seq<DeltaScanFileView> {
    files.map_values(|f: DeltaScanFile| f@)
}

/// Adds a reported file to the list.
pub fn visit_scan_file(files: &mut Vec<DeltaScanFile>, scan_file: ScanFile)
    ensures
        entries(final(files)@) == entries(old(files)@).push(listed(scan_file)),
        final(files)@.drop_last() == old(files)@,
        final(files)@.len() == old(files)@.len() + 1,
        final(files)@.last().path@ == scan_file.path@,
        final(files)@.last().size == scan_file.size,
        final(files)@.last().has_transform <==> scan_file.transform is Some,
{
    files.push(
        DeltaScanFile {
            path: scan_file.path,
            size: scan_file.size,
            has_transform: scan_file.transform.is_some(),
        },
    );
    assert(entries(files@) =~= entries(old(files)@).push(listed(scan_file)));
    assert(files@.drop_last() =~= old(files)@);
}

/// Adds the files of a batch to the list, in order.
fn visit_scan_files(files: &mut Vec<DeltaScanFile>, batch: Vec<ScanFile>)
    ensures
        entries(final(files)@) == entries(old(files)@) + batch@.map_values(
            |f: ScanFile| listed(f),
        ),
{
    let ghost all = batch@.map_values(|f: ScanFile| listed(f));
    let ghost before = entries(files@);
    assert(before + all.take(0) =~= before);
    for scan_file in iter: batch
        invariant
            iter.seq().map_values(|f: ScanFile| listed(f)) == all,
            entries(files@) == before + all.take(iter.index()),
    {
        assert(all.take(iter.index() + 1) =~= all.take(iter.index()).push(all[iter.index()]));
        visit_scan_file(files, scan_file);
    }
    assert(all.take(all.len() as int) =~= all);
}

/// The entries of all files of all batches, in order, or the first failure.
pub open spec fn listing(batches: Seq<Result<Vec<ScanFile>, DeltaError>>) -> Result<
    Seq<DeltaScanFileView>,
    DeltaError,
>
    decreases batches.len(),
{
    if batches.len() == 0 {
        Ok(Seq::empty())
    } else {
        match (listing(batches.drop_last()), batches.last()) {
            (Ok(before), Ok(batch)) => Ok(before + batch@.map_values(|f: ScanFile| listed(f))),
            (Ok(_), Err(error)) => Err(error),
            (Err(error), _) => Err(error),
        }
    }
}

/// The data files that make up a snapshot, from the batches in which log replay reports them:
/// every file of every batch, in order, or the first failure.
pub fn list_scan_files(batches: Vec<Result<Vec<ScanFile>, DeltaError>>) -> (files: Result<
    Vec<DeltaScanFile>,
    DeltaError,
>)
    ensures
        match listing(batches@) {
            Ok(all) => files matches Ok(files) && entries(files@) == all,
            Err(error) => files matches Err(e) && e == error,
        },
        files is Ok <==> forall|b: int| 0 <= b < batches@.len() ==> #[trigger] batches@[b] is Ok,
        files matches Err(e) ==> exists|b: int|
            #![trigger batches@[b]]
            0 <= b < batches@.len() && batches@[b] == Err::<Vec<ScanFile>, DeltaError>(e)
                && forall|c: int| 0 <= c < b ==> #[trigger] batches@[c] is Ok,
        files matches Ok(files) ==> files@.len() == files_before(batches@, batches@.len() as int),
        files matches Ok(files) ==> forall|b: int, f: int|
            #![trigger batches@[b]->Ok_0@[f]]
            0 <= b < batches@.len() && 0 <= f < batches@[b]->Ok_0@.len() ==> {
                let reported = batches@[b]->Ok_0@[f];
                let place = files_before(batches@, b) + f;
                &&& 0 <= place < files@.len()
                &&& files@[place].path@ == reported.path@
                &&& files@[place].size == reported.size
                &&& (files@[place].has_transform <==> reported.transform is Some)
            },
{
    let mut files: Vec<DeltaScanFile> = Vec::new();
    let ghost all = batches@;
    assert(all.take(0) =~= Seq::empty());
    assert(entries(files@) =~= Seq::empty());
    for batch in iter: batches
        invariant
            iter.seq() == all,
            all == batches@,
            listing(all.take(iter.index())) == Ok::<Seq<DeltaScanFileView>, DeltaError>(
                entries(files@),
            ),
    {
        let ghost done = iter.index();
        assert(all.take(done + 1).drop_last() =~= all.take(done));
        match batch {
            Ok(batch) => visit_scan_files(&mut files, batch),
            Err(error) => {
                proof {
                    lemma_first_failure(all, done + 1);
                    listing_succeeds_if_all_batches_do(all);
                    listing_fails_with_the_first_failure(all);
                }
                return Err(error);
            },
        }
    }
    assert(all.take(all.len() as int) =~= all);
    proof {
        listing_succeeds_if_all_batches_do(all);
        listing_keeps_every_file(all);
    }
    assert forall|b: int, f: int|
        #![trigger batches@[b]->Ok_0@[f]]
        0 <= b < batches@.len() && 0 <= f < batches@[b]->Ok_0@.len() implies ({
        let reported = batches@[b]->Ok_0@[f];
        let place = files_before(batches@, b) + f;
        &&& 0 <= place < files@.len()
        &&& files@[place].path@ == reported.path@
        &&& files@[place].size == reported.size
        &&& (files@[place].has_transform <==> reported.transform is Some)
    }) by {
        assert(entries(files@)[files_before(batches@, b) + f] == files@[files_before(batches@, b)
            + f]@);
    }
    Ok(files)
}

/// A failure among the first `n` batches is what the whole listing fails with.
proof fn lemma_first_failure(batches: Seq<Result<Vec<ScanFile>, DeltaError>>, n: int)
    requires
        0 <= n <= batches.len(),
        listing(batches.take(n)) is Err,
    ensures
        listing(batches) == listing(batches.take(n)),
    decreases batches.len() - n,
{
    if n == batches.len() {
        assert(batches.take(n) =~= batches);
    } else {
        assert(batches.take(n + 1).drop_last() =~= batches.take(n));
        lemma_first_failure(batches, n + 1);
    }
}

/// A listing succeeds exactly if every batch was read.
pub proof fn listing_succeeds_if_all_batches_do(batches: Seq<Result<Vec<ScanFile>, DeltaError>>)
    ensures
        listing(batches) is Ok <==> forall|b: int|
            0 <= b < batches.len() ==> #[trigger] batches[b] is Ok,
    decreases batches.len(),
{
    if batches.len() > 0 {
        let before = batches.drop_last();
        listing_succeeds_if_all_batches_do(before);
        if listing(batches) is Ok {
            assert forall|b: int| 0 <= b < batches.len() implies #[trigger] batches[b] is Ok by {
                if b < before.len() {
                    assert(before[b] is Ok);
                }
            }
        } else if (forall|b: int| 0 <= b < batches.len() ==> #[trigger] batches[b] is Ok) {
            assert forall|b: int| 0 <= b < before.len() implies #[trigger] before[b] is Ok by {
                assert(batches[b] is Ok);
            }
            assert(batches[batches.len() - 1] is Ok);
        }
    }
}

/// How many files the batches before the `b`-th report.
pub open spec fn files_before(batches: Seq<Result<Vec<ScanFile>, DeltaError>>, b: int) -> int
    decreases b,
{
    if b <= 0 {
        0
    } else {
        files_before(batches, b - 1) + batches[b - 1]->Ok_0@.len()
    }
}

/// What comes after the `n`-th batch does not change how many files come before.
proof fn lemma_files_before(
    batches: Seq<Result<Vec<ScanFile>, DeltaError>>,
    shorter: Seq<Result<Vec<ScanFile>, DeltaError>>,
    n: int,
)
    requires
        0 <= n <= shorter.len() <= batches.len(),
        shorter == batches.take(shorter.len() as int),
    ensures
        files_before(shorter, n) == files_before(batches, n),
        0 <= files_before(batches, n),
    decreases n,
{
    if n > 0 {
        lemma_files_before(batches, shorter, n - 1);
        assert(shorter[n - 1] == batches[n - 1]);
    }
}

/// A listing gives every reported file its entry, at the place where the file was reported: with
/// the path and the size in bytes that were reported, and with a mark exactly if a transform was.
pub proof fn listing_keeps_every_file(batches: Seq<Result<Vec<ScanFile>, DeltaError>>)
    requires
        listing(batches) is Ok,
    ensures
        listing(batches)->Ok_0.len() == files_before(batches, batches.len() as int),
        forall|b: int, f: int|
            #![trigger batches[b]->Ok_0@[f]]
            0 <= b < batches.len() && 0 <= f < batches[b]->Ok_0@.len() ==> {
                let reported = batches[b]->Ok_0@[f];
                let place = files_before(batches, b) + f;
                &&& 0 <= place < listing(batches)->Ok_0.len()
                &&& listing(batches)->Ok_0[place].path == reported.path@
                &&& listing(batches)->Ok_0[place].size == reported.size
                &&& (listing(batches)->Ok_0[place].has_transform <==> reported.transform is Some)
            },
    decreases batches.len(),
{
    if batches.len() > 0 {
        let before = batches.drop_last();
        let last = batches.len() - 1;
        let all = listing(batches)->Ok_0;
        listing_keeps_every_file(before);
        assert(before =~= batches.take(last));
        lemma_files_before(batches, before, last);
        assert forall|b: int, f: int|
            #![trigger batches[b]->Ok_0@[f]]
            0 <= b < batches.len() && 0 <= f < batches[b]->Ok_0@.len() implies ({
            let reported = batches[b]->Ok_0@[f];
            let place = files_before(batches, b) + f;
            &&& 0 <= place < all.len()
            &&& all[place].path == reported.path@
            &&& all[place].size == reported.size
            &&& (all[place].has_transform <==> reported.transform is Some)
        }) by {
            if b < last {
                lemma_files_before(batches, before, b);
                assert(before[b]->Ok_0@[f] == batches[b]->Ok_0@[f]);
                assert(all[files_before(batches, b) + f] == listing(before)->Ok_0[files_before(
                    before,
                    b,
                ) + f]);
            } else {
                assert(batches[b] == batches.last());
            }
        }
    }
}

/// A listing that fails does so with the first failure, before which every batch was read.
pub proof fn listing_fails_with_the_first_failure(batches: Seq<Result<Vec<ScanFile>, DeltaError>>)
    requires
        listing(batches) is Err,
    ensures
        exists|b: int|
            #![trigger batches[b]]
            0 <= b < batches.len() && batches[b] == Err::<Vec<ScanFile>, DeltaError>(
                listing(batches)->Err_0,
            ) && forall|c: int| 0 <= c < b ==> #[trigger] batches[c] is Ok,
    decreases batches.len(),
{
    let before = batches.drop_last();
    if listing(before) is Err {
        listing_fails_with_the_first_failure(before);
        let b = choose|b: int|
            #![trigger before[b]]
            0 <= b < before.len() && before[b] == Err::<Vec<ScanFile>, DeltaError>(
                listing(before)->Err_0,
            ) && forall|c: int| 0 <= c < b ==> #[trigger] before[c] is Ok;
        assert(batches[b] == before[b]);
        assert forall|c: int| 0 <= c < b implies #[trigger] batches[c] is Ok by {
            assert(before[c] is Ok);
        }
    } else {
        listing_succeeds_if_all_batches_do(before);
        let b = batches.len() - 1;
        assert(batches[b] == batches.last());
        assert forall|c: int| 0 <= c < b implies #[trigger] batches[c] is Ok by {
            assert(before[c] is Ok);
        }
    }
}

/// An entry is in a listing exactly if it is that of a reported file: every live file is listed,
/// and nothing else is.
pub proof fn listing_holds_exactly_the_reported_files(
    batches: Seq<Result<Vec<ScanFile>, DeltaError>>,
    entry: DeltaScanFileView,
)
    requires
        listing(batches) is Ok,
    ensures
        listing(batches)->Ok_0.contains(entry) <==> exists|b: int, f: int|
            0 <= b < batches.len() && 0 <= f < batches[b]->Ok_0@.len() && listed(
                #[trigger] batches[b]->Ok_0@[f],
            ) == entry,
    decreases batches.len(),
{
    if batches.len() > 0 {
        let before = batches.drop_last();
        let last = batches.len() - 1;
        listing_holds_exactly_the_reported_files(before, entry);
        let earlier = listing(before)->Ok_0;
        let added = batches.last()->Ok_0@.map_values(|f: ScanFile| listed(f));
        assert(listing(batches)->Ok_0 == earlier + added);
        if listing(batches)->Ok_0.contains(entry) {
            let i = choose|i: int|
                0 <= i < (earlier + added).len() && (earlier + added)[i] == entry;
            if i < earlier.len() {
                assert(earlier[i] == entry);
                let (b, f) = choose|b: int, f: int|
                    0 <= b < before.len() && 0 <= f < before[b]->Ok_0@.len() && listed(
                        #[trigger] before[b]->Ok_0@[f],
                    ) == entry;
                assert(listed(batches[b]->Ok_0@[f]) == entry);
            } else {
                assert(listed(batches[last]->Ok_0@[i - earlier.len()]) == entry);
            }
        }
        if exists|b: int, f: int|
            0 <= b < batches.len() && 0 <= f < batches[b]->Ok_0@.len() && listed(
                #[trigger] batches[b]->Ok_0@[f],
            ) == entry {
            let (b, f) = choose|b: int, f: int|
                0 <= b < batches.len() && 0 <= f < batches[b]->Ok_0@.len() && listed(
                    #[trigger] batches[b]->Ok_0@[f],
                ) == entry;
            if b < last {
                assert(listed(before[b]->Ok_0@[f]) == entry);
                let i = choose|i: int| 0 <= i < earlier.len() && earlier[i] == entry;
                assert((earlier + added)[i] == entry);
            } else {
                assert((earlier + added)[earlier.len() + f] == entry);
            }
        }
    }
}

} // verus!
