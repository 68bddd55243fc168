use paradis::DisjointIndices;
use paradis::DisjointIndicesVec;

#[test]
fn test_permutation_domain_rejects_duplicate() {
    let result = DisjointIndicesVec::try_from_index_iter(vec![0, 0]);
    assert!(result.is_err());
}

#[test]
fn test_permutation_domain_keeps_order() {
    let domain = DisjointIndicesVec::try_from_index_iter(vec![3, 1, 2]).unwrap();
    assert_eq!(domain.num_indices(), 3);
    assert_eq!(domain.get_unchecked(0), 3);
    assert_eq!(domain.get_unchecked(1), 1);
    assert_eq!(domain.get_unchecked(2), 2);
}

#[test]
fn test_permutation_domain_is_all_or_nothing() {
    // The duplicate appears late: everything seen before it is discarded.
    let result = DisjointIndicesVec::try_from_index_iter(vec![4, 9, 2, 7, 9]);
    assert!(result.is_err());

    let domain = DisjointIndicesVec::try_from_index_iter(vec![4, 9, 2, 7]).unwrap();
    assert_eq!(domain.num_indices(), 4);
    assert_eq!(domain.get_unchecked(0), 4);
    assert_eq!(domain.get_unchecked(1), 9);
    assert_eq!(domain.get_unchecked(2), 2);
    assert_eq!(domain.get_unchecked(3), 7);
}

#[test]
fn test_empty_permutation_domain() {
    let domain = DisjointIndicesVec::try_from_index_iter(Vec::new()).unwrap();
    assert_eq!(domain.num_indices(), 0);
}

#[test]
fn test_range_domain() {
    let range = 2usize..6usize;
    assert_eq!(range.num_indices(), 4);
    assert_eq!(range.get_unchecked(0), 2);
    assert_eq!(range.get_unchecked(3), 5);

    let cloned = range.clone_indices();
    assert_eq!(cloned.num_indices(), 4);
    assert_eq!(cloned.get_unchecked(1), 3);
}

#[test]
fn test_empty_and_inverted_range_domain() {
    assert_eq!((3usize..3usize).num_indices(), 0);
    // An inverted range enumerates nothing; the count saturates at zero.
    assert_eq!((5usize..2usize).num_indices(), 0);
}

#[test]
fn test_domain_clone_keeps_indices() {
    let domain = DisjointIndicesVec::try_from_index_iter(vec![8, 0, 5]).unwrap();
    let cloned = domain.clone_indices();
    assert_eq!(cloned.num_indices(), 3);
    assert_eq!(cloned.get_unchecked(0), 8);
    assert_eq!(cloned.get_unchecked(1), 0);
    assert_eq!(cloned.get_unchecked(2), 5);
}
