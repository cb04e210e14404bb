//! Splitting the files of a snapshot among the partitions of a scan.

use vstd::prelude::*;

use vstd::arithmetic::div_mod::{lemma_fundamental_div_mod, lemma_fundamental_div_mod_converse};

verus! {

/// The files of one partition: those whose position leaves the partition's index as remainder.
pub open spec fn partition_files<T>(files: Seq<T>, index: nat, partitions: nat) -> Seq<T>
    decreases files.len(),
{
    if files.len() == 0 {
        Seq::empty()
    } else {
        let before = partition_files(files.drop_last(), index, partitions);
        if (files.len() - 1) as nat % partitions == index {
            before.push(files.last())
        } else {
            before
        }
    }
}

/// The files that the partition of this index reads, in order.
pub fn split_files<T>(files: Vec<T>, partition_index: usize, num_partitions: usize) -> (own: Vec<T>)
    requires
        num_partitions >= 1,
    ensures
        own@ == partition_files(files@, partition_index as nat, num_partitions as nat),
        partition_index >= num_partitions ==> own@.len() == 0,
        partition_index < num_partitions ==> forall|k: int|
            #![trigger own@[k]]
            0 <= k < own@.len() ==> own@[k] == files@[partition_index + k * num_partitions]
                && partition_index + k * num_partitions < files@.len(),
        partition_index < num_partitions ==> partition_index + own@.len() * num_partitions
            >= files@.len(),
{
    let mut own: Vec<T> = Vec::new();
    let ghost all = files@;
    let total: usize = files.len();
    let mut position: usize = 0;
    assert(all.take(0) =~= Seq::empty());
    for file in iter: files
        invariant
            iter.seq() == all,
            all == files@,
            position == iter.index(),
            num_partitions >= 1,
            all.len() == total,
            own@ == partition_files(
                all.take(position as int),
                partition_index as nat,
                num_partitions as nat,
            ),
    {
        assert(all.take(position + 1).drop_last() =~= all.take(position as int));
        if position % num_partitions == partition_index {
            own.push(file);
        }
        position += 1;
    }
    assert(all.take(all.len() as int) =~= all);
    proof {
        if partition_index < num_partitions {
            lemma_partition(all, partition_index as nat, num_partitions as nat);
        } else {
            no_partition_beyond_the_last(all, partition_index as nat, num_partitions as nat);
        }
    }
    assert forall|k: int|
        #![trigger own@[k]]
        partition_index < num_partitions && 0 <= k < own@.len() implies own@[k]
        == files@[partition_index + k * num_partitions] && partition_index + k * num_partitions
        < files@.len() by {
        assert(in_turn(all, partition_index as nat, num_partitions as nat, k));
    }
    own
}

/// A partition beyond the last reads nothing.
pub proof fn no_partition_beyond_the_last<T>(files: Seq<T>, index: nat, partitions: nat)
    requires
        1 <= partitions <= index,
    ensures
        partition_files(files, index, partitions).len() == 0,
    decreases files.len(),
{
    if files.len() > 0 {
        no_partition_beyond_the_last(files.drop_last(), index, partitions);
    }
}

/// Whether the `k`-th file of a partition is the one `k` rounds after the partition's index.
spec fn in_turn<T>(files: Seq<T>, index: nat, partitions: nat, k: int) -> bool {
    &&& 0 <= index + k * partitions < files.len()
    &&& partition_files(files, index, partitions)[k] == files[index + k * partitions]
}

/// The `k`-th file of a partition is the one `k` rounds after the partition's index.
proof fn lemma_partition<T>(files: Seq<T>, index: nat, partitions: nat)
    requires
        index < partitions,
    ensures
        index + partition_files(files, index, partitions).len() * partitions >= files.len(),
        partition_files(files, index, partitions).len() > 0 ==> index + (partition_files(
            files,
            index,
            partitions,
        ).len() - 1) * partitions < files.len(),
        forall|k: int|
            0 <= k < partition_files(files, index, partitions).len()
                ==> in_turn(files, index, partitions, k),
    decreases files.len(),
{
    let own = partition_files(files, index, partitions);
    if files.len() == 0 {
        assert(own.len() * partitions == 0) by (nonlinear_arith)
            requires
                own.len() == 0,
        ;
    } else {
        let before = files.drop_last();
        let last = files.len() - 1;
        lemma_partition(before, index, partitions);
        let earlier = partition_files(before, index, partitions);
        let q = last / (partitions as int);
        lemma_fundamental_div_mod(last, partitions as int);
        if last as nat % partitions == index {
            assert(last == index + q * partitions) by (nonlinear_arith)
                requires
                    last == partitions * q + index,
            ;
            assert(earlier.len() == q) by (nonlinear_arith)
                requires
                    partitions > 0,
                    last == index + q * partitions,
                    last >= 0,
                    index < partitions,
                    index + earlier.len() * partitions >= last,
                    earlier.len() > 0 ==> index + (earlier.len() - 1) * partitions < last,
            ;
            assert(own.len() == q + 1);
            assert(index + (q + 1) * partitions >= files.len()) by (nonlinear_arith)
                requires
                    last == index + q * partitions,
                    files.len() == last + 1,
                    partitions > 0,
            ;
            assert(own.len() - 1 == q);
        } else {
            if index + earlier.len() * partitions == last {
                lemma_fundamental_div_mod_converse(
                    last,
                    partitions as int,
                    earlier.len() as int,
                    index as int,
                );
            }
            assert(own == earlier);
        }
        assert forall|k: int| 0 <= k < own.len() implies in_turn(files, index, partitions, k) by {
            if k < earlier.len() {
                assert(in_turn(before, index, partitions, k));
                assert(own[k] == earlier[k]);
            } else {
                assert(0 <= k * partitions) by (nonlinear_arith)
                    requires
                        k >= 0,
                ;
            }
        }
    }
}

/// A partition reads only files whose position is its own.
pub proof fn partition_reads_own_files<T>(files: Seq<T>, index: nat, partitions: nat, k: int)
    requires
        index < partitions,
        0 <= k < partition_files(files, index, partitions).len(),
    ensures
        ({
            let position = index + k * partitions;
            &&& position < files.len()
            &&& position as nat % partitions == index
            &&& partition_files(files, index, partitions)[k] == files[position]
        }),
{
    lemma_partition(files, index, partitions);
    assert(k * partitions >= 0) by (nonlinear_arith)
        requires
            k >= 0,
    ;
    lemma_fundamental_div_mod_converse(
        index + k * partitions,
        partitions as int,
        k,
        index as int,
    );
    assert(in_turn(files, index, partitions, k));
}

/// Every file is read by a partition: together the partitions read the whole snapshot.
pub proof fn every_file_is_read<T>(files: Seq<T>, partitions: nat, position: int)
    requires
        partitions >= 1,
        0 <= position < files.len(),
    ensures
        ({
            let own = partition_files(files, position as nat % partitions, partitions);
            let k = position / (partitions as int);
            &&& 0 <= k < own.len()
            &&& own[k] == files[position]
        }),
{
    let index = position as nat % partitions;
    let q = position / (partitions as int);
    lemma_fundamental_div_mod(position, partitions as int);
    lemma_partition(files, index, partitions);
    let own = partition_files(files, index, partitions);
    assert(position == index + q * partitions) by (nonlinear_arith)
        requires
            position == partitions * q + index,
    ;
    assert(0 <= q < own.len()) by (nonlinear_arith)
        requires
            position == index + q * partitions,
            0 <= position < files.len(),
            index < partitions,
            index + own.len() * partitions >= files.len(),
    ;
    assert(in_turn(files, index, partitions, q));
}

/// No file is read twice: two partitions, or two places in the read of one, never stand for the
/// same position. The partitions are disjoint.
pub proof fn no_file_is_read_twice<T>(
    files: Seq<T>,
    partitions: nat,
    index: nat,
    k: int,
    other: nat,
    l: int,
)
    requires
        index < partitions,
        other < partitions,
        0 <= k < partition_files(files, index, partitions).len(),
        0 <= l < partition_files(files, other, partitions).len(),
        (index, k) != (other, l),
    ensures
        index + k * partitions != other + l * partitions,
{
    let position = index + k * partitions;
    lemma_fundamental_div_mod_converse(position, partitions as int, k, index as int);
    if position == other + l * partitions {
        lemma_fundamental_div_mod_converse(position, partitions as int, l, other as int);
    }
}

} // verus!
