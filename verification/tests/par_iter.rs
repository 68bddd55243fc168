use paradis::disjoint_indices_par_iter;
use paradis::DisjointIndicesVec;
use paradis::UnsyncAccessParIter;

#[test]
fn test_len_and_opt_len() {
    let v: Vec<i32> = vec![1, 2, 3, 4, 5];
    let iter = disjoint_indices_par_iter(v, 1usize..4usize);
    assert_eq!(iter.len(), 3);
    assert_eq!(iter.opt_len(), Some(3));
}

#[test]
fn test_producer_production_order() {
    let v: Vec<i32> = vec![10, 20, 30, 40];
    let domain = DisjointIndicesVec::try_from_index_iter(vec![3, 1, 2, 0]).unwrap();
    let iter = UnsyncAccessParIter::from_access_and_indices(v, domain);
    let produced = iter.with_producer(|mut p| {
        let mut out: Vec<i32> = Vec::new();
        while let Some(record) = p.next() {
            out.push(*record);
        }
        out
    });
    assert_eq!(produced, vec![40, 20, 30, 10]);
}

#[test]
fn test_producer_back_to_front() {
    let v: Vec<i32> = vec![10, 20, 30, 40];
    let domain = DisjointIndicesVec::try_from_index_iter(vec![3, 1, 2, 0]).unwrap();
    let iter = UnsyncAccessParIter::from_access_and_indices(v, domain);
    let produced = iter.with_producer(|mut p| {
        let mut out: Vec<i32> = Vec::new();
        while let Some(record) = p.next_back() {
            out.push(*record);
        }
        out
    });
    assert_eq!(produced, vec![10, 30, 20, 40]);
}

#[test]
fn test_split_concatenation_matches_unsplit() {
    let v: Vec<i32> = vec![10, 20, 30, 40, 50];
    let domain = vec![4, 0, 3, 1, 2];

    let unsplit = {
        let d = DisjointIndicesVec::try_from_index_iter(domain.clone()).unwrap();
        let iter = UnsyncAccessParIter::from_access_and_indices(v.clone(), d);
        iter.with_producer(|p| collect_all(p))
    };
    assert_eq!(unsplit, vec![50, 10, 40, 20, 30]);

    for k in 1..5 {
        let d = DisjointIndicesVec::try_from_index_iter(domain.clone()).unwrap();
        let iter = UnsyncAccessParIter::from_access_and_indices(v.clone(), d);
        let split = iter.with_producer(|p| {
            let (left, right) = p.split_at(k);
            let mut out = collect_all(left);
            out.extend(collect_all(right));
            out
        });
        assert_eq!(split, unsplit);
    }
}

fn collect_all<A, I>(mut p: paradis::AccessProducerMut<A, I>) -> Vec<A::Record>
where
    A: paradis::UnsyncAccess,
    A::Record: Copy,
    I: paradis::DisjointIndices,
{
    let mut out: Vec<A::Record> = Vec::new();
    while let Some(record) = p.next() {
        out.push(*record);
    }
    out
}

#[test]
fn test_even_odd_scenario() {
    // Evens multiplied by 2 and odds by 4, through two disjoint domains
    // feeding two producers.
    let v: Vec<i32> = vec![0, 1, 2, 3, 4, 5, 6, 7];
    let evens = DisjointIndicesVec::try_from_index_iter(vec![0, 2, 4, 6]).unwrap();
    let odds = DisjointIndicesVec::try_from_index_iter(vec![1, 3, 5, 7]).unwrap();

    let access = disjoint_indices_par_iter(v, evens).drive(&|x: &i32| *x * 2);
    let access = disjoint_indices_par_iter(access, odds).drive(&|x: &i32| *x * 4);

    assert_eq!(access.into_inner(), vec![0, 4, 4, 12, 8, 20, 12, 28]);
}

#[test]
fn test_double_ten_thousand_elements() {
    let n: usize = 10000;
    let v: Vec<u64> = (0..n as u64).collect();
    let iter = disjoint_indices_par_iter(v, 0usize..n);
    let access = iter.drive(&|x: &u64| *x * 2);
    let out = access.into_inner();
    assert_eq!(out.len(), n);
    for i in 0..n {
        assert_eq!(out[i], 2 * i as u64);
    }
}

#[test]
fn test_double_with_uneven_manual_splits() {
    // The same doubling, but with the splitting done by hand at uneven
    // offsets; the halves run over congruent capability handles and their
    // windows are stitched back together afterwards.
    let n: usize = 1000;
    let v: Vec<u64> = (0..n as u64).collect();
    let iter = disjoint_indices_par_iter(v, 0usize..n);
    let out = iter.with_producer(|p| {
        let (left, rest) = p.split_at(1);
        let (middle, right) = rest.split_at(612);
        let left_out = double_all(left);
        let middle_out = double_all(middle);
        let right_out = double_all(right);
        // The windows cover positions [0, 1), [1, 613) and [613, n).
        let mut out: Vec<u64> = Vec::new();
        out.extend_from_slice(&left_out[0..1]);
        out.extend_from_slice(&middle_out[1..613]);
        out.extend_from_slice(&right_out[613..n]);
        out
    });
    assert_eq!(out.len(), n);
    for i in 0..n {
        assert_eq!(out[i], 2 * i as u64);
    }
}

fn double_all<I>(
    mut p: paradis::AccessProducerMut<paradis::UnsyncSliceAccess<u64>, I>,
) -> Vec<u64>
where
    I: paradis::DisjointIndices,
{
    while let Some(record) = p.next() {
        *record = *record * 2;
    }
    let (access, _domain) = p.into_parts();
    access.into_inner()
}

#[test]
fn test_empty_domain_producer() {
    let v: Vec<i32> = vec![1, 2, 3];
    let iter = disjoint_indices_par_iter(v, 0usize..0usize);
    assert_eq!(iter.len(), 0);
    let produced = iter.with_producer(|p| collect_all(p));
    assert_eq!(produced, Vec::<i32>::new());
}

#[test]
fn test_exhausted_producer_stays_exhausted() {
    let v: Vec<i32> = vec![9];
    let iter = disjoint_indices_par_iter(v, 0usize..1usize);
    iter.with_producer(|mut p| {
        assert!(p.next().is_some());
        assert!(p.next().is_none());
        assert!(p.next().is_none());
        assert!(p.next_back().is_none());
    });
}

#[test]
fn test_drive_over_empty_collection() {
    let v: Vec<u64> = Vec::new();
    let iter = disjoint_indices_par_iter(v, 0usize..0usize);
    let access = iter.drive(&|x: &u64| *x + 1);
    assert_eq!(access.into_inner(), Vec::<u64>::new());
}

#[test]
fn test_into_iter_is_identity_cursor() {
    let v: Vec<i32> = vec![1, 2, 3];
    let domain = DisjointIndicesVec::try_from_index_iter(vec![2, 0, 1]).unwrap();
    let iter = UnsyncAccessParIter::from_access_and_indices(v, domain);
    let produced = iter.with_producer(|p| collect_all(p.into_iter()));
    assert_eq!(produced, vec![3, 1, 2]);
}

#[test]
fn test_producer_mutation_lands_in_parts() {
    let v: Vec<i32> = vec![5, 6, 7];
    let iter = disjoint_indices_par_iter(v, 0usize..3usize);
    let out = iter.with_producer(|mut p| {
        while let Some(record) = p.next() {
            *record += 1;
        }
        let (access, _domain) = p.into_parts();
        access.into_inner()
    });
    assert_eq!(out, vec![6, 7, 8]);
}
