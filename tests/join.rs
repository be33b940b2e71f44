use specs::{
    get_each, join_collect, mask_indices, par_get_each, DenseStorage, Join, Joinable, Mask,
    MaybeJoin, ParJoin,
};

fn storage(ids: &[u32], base: i32) -> DenseStorage<i32> {
    let mut s = DenseStorage::new();
    for &i in ids {
        s.insert(i, base + i as i32);
    }
    s
}

#[test]
fn plain_join_yields_common_indices() {
    let a = storage(&[1, 3, 5], 100);
    let b = storage(&[3, 5, 7], 200);
    let got = join_collect((&a, &b), 16);
    let ids: Vec<u32> = got.iter().map(|p| p.0).collect();
    assert_eq!(ids, vec![3, 5]);
    assert_eq!(*got[0].1 .0, 103);
    assert_eq!(*got[0].1 .1, 203);
    assert_eq!(*got[1].1 .0, 105);
    assert_eq!(*got[1].1 .1, 205);
}

#[test]
fn maybe_join_keeps_left_indices() {
    let a = storage(&[1, 3, 5], 100);
    let b = storage(&[3, 5, 7], 200);
    let got = join_collect((&a, MaybeJoin(&b)), 16);
    let ids: Vec<u32> = got.iter().map(|p| p.0).collect();
    assert_eq!(ids, vec![1, 3, 5]);
    assert_eq!(*got[0].1 .0, 101);
    assert_eq!(got[0].1 .1, None);
    assert_eq!(got[1].1 .1, Some(&203));
    assert_eq!(got[2].1 .1, Some(&205));
}

#[test]
fn maybe_join_mask_is_sentinel() {
    let b = storage(&[3, 5, 7], 200);
    let (mask, (kept, _)) = MaybeJoin(&b).open();
    assert!(mask.is_all());
    assert!(mask.contains(0));
    assert!(mask.contains(u32::MAX));
    assert!(!kept.is_all());
    assert_eq!(mask_indices(&kept, 16), vec![3, 5, 7]);
}

#[test]
fn maybe_get_tests_wrapped_mask() {
    let b = storage(&[3, 5, 7], 200);
    let (_, mut value) = MaybeJoin(&b).open();
    assert_eq!(<MaybeJoin<&DenseStorage<i32>> as Join>::get(&mut value, 4), None);
    assert_eq!(<MaybeJoin<&DenseStorage<i32>> as Join>::get(&mut value, 5), Some(&205));
    assert_eq!(<MaybeJoin<&DenseStorage<i32>> as Join>::get(&mut value, 100), None);
    assert_eq!(<MaybeJoin<&DenseStorage<i32>> as ParJoin>::get(&value, 7), Some(&207));
    assert_eq!(<MaybeJoin<&DenseStorage<i32>> as ParJoin>::get(&value, 0), None);
}

#[test]
fn maybe_is_always_unconstrained() {
    assert!(!<&DenseStorage<i32> as Joinable>::is_unconstrained());
    assert!(<MaybeJoin<&DenseStorage<i32>> as Joinable>::is_unconstrained());
    assert!(<MaybeJoin<MaybeJoin<&DenseStorage<i32>>> as Joinable>::is_unconstrained());
    assert!(!<(&DenseStorage<i32>, MaybeJoin<&DenseStorage<i32>>) as Joinable>::is_unconstrained());
}

#[test]
fn all_optional_join_enumerates_every_index() {
    let a = storage(&[1, 3, 5], 100);
    let b = storage(&[3, 5, 7], 200);
    assert!(<(MaybeJoin<&DenseStorage<i32>>, MaybeJoin<&DenseStorage<i32>>) as Joinable>::is_unconstrained());
    let (mask, _) = (MaybeJoin(&a), MaybeJoin(&b)).open();
    assert!(mask.is_all());
    let got = join_collect((MaybeJoin(&a), MaybeJoin(&b)), 4);
    let ids: Vec<u32> = got.iter().map(|p| p.0).collect();
    assert_eq!(ids, vec![0, 1, 2, 3]);
    assert_eq!(got[0].1, (None, None));
    assert_eq!(got[1].1, (Some(&101), None));
    assert_eq!(got[3].1, (Some(&103), Some(&203)));
}

#[test]
fn exclusive_results_do_not_depend_on_order() {
    let a = storage(&[1, 3, 5], 100);
    let b = storage(&[3, 5, 7], 200);
    let (_, mut v1) = (&a, MaybeJoin(&b)).open();
    let (_, mut v2) = (&a, MaybeJoin(&b)).open();
    type J<'a> = (&'a DenseStorage<i32>, MaybeJoin<&'a DenseStorage<i32>>);
    let up = get_each::<J>(&mut v1, &vec![1, 3, 5]);
    let down = get_each::<J>(&mut v2, &vec![5, 1, 3]);
    assert_eq!(up[0], down[1]);
    assert_eq!(up[1], down[2]);
    assert_eq!(up[2], down[0]);
    assert_eq!(up[0], (&101, None));
    assert_eq!(down[0], (&105, Some(&205)));
}

#[test]
fn parallel_chunks_match_sequential_pass() {
    let a = storage(&[0, 2, 4, 6, 8], 10);
    let b = storage(&[2, 3, 4, 8, 9], 50);
    type J<'a> = (&'a DenseStorage<i32>, MaybeJoin<&'a DenseStorage<i32>>);
    let seq = join_collect((&a, MaybeJoin(&b)), 16);
    let (mask, value) = (&a, MaybeJoin(&b)).open();
    let ids = mask_indices(&mask, 16);
    assert_eq!(ids, vec![0, 2, 4, 6, 8]);
    let left = par_get_each::<J>(&value, &vec![8, 0]);
    let right = par_get_each::<J>(&value, &vec![2, 6, 4]);
    assert_eq!(left[0], seq[4].1);
    assert_eq!(left[1], seq[0].1);
    assert_eq!(right[0], seq[1].1);
    assert_eq!(right[1], seq[3].1);
    assert_eq!(right[2], seq[2].1);
    assert_eq!(right[0], (&12, Some(&52)));
    assert_eq!(right[1], (&16, None));
}

#[test]
fn mask_and_or() {
    let a = Mask::from_bits(vec![false, true, false, true]);
    let b = Mask::from_bits(vec![false, false, false, true, false, true]);
    let all = Mask::all();
    assert_eq!(mask_indices(&a.and(&b), 10), vec![3]);
    assert_eq!(mask_indices(&a.or(&b), 10), vec![1, 3, 5]);
    assert!(!a.and(&all).is_all());
    assert_eq!(mask_indices(&a.and(&all), 10), vec![1, 3]);
    assert!(a.or(&all).is_all());
    assert!(all.and(&Mask::all()).is_all());
    assert_eq!(mask_indices(&all, 3), vec![0, 1, 2]);
    assert!(!a.contains(4));
    assert!(!a.contains(u32::MAX));
}

#[test]
fn dense_storage_insert_and_get() {
    let mut s: DenseStorage<&str> = DenseStorage::new();
    assert_eq!(s.get(2), None);
    assert_eq!(s.insert(2, "two"), None);
    assert_eq!(s.get(2), Some(&"two"));
    assert_eq!(s.get(0), None);
    assert_eq!(s.insert(2, "deux"), Some("two"));
    assert_eq!(s.get(2), Some(&"deux"));
    let f = DenseStorage::from_slots(vec![None, Some(1u8)]);
    assert_eq!(f.get(1), Some(&1));
    assert_eq!(mask_indices(&(&f).open().0, 5), vec![1]);
}
