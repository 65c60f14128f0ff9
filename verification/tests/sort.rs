use std::cmp::Ordering;

use imap_next::sort::{cmp_by_criteria, cmp_fetch_items, sorted_order, FetchKey, SortCriterion, SortKey};

fn envelope(date: Option<&[u8]>, subject: Option<&[u8]>) -> FetchKey {
    FetchKey::Envelope { date: date.map(<[u8]>::to_vec), subject: subject.map(<[u8]>::to_vec) }
}

#[test]
fn sort_by_size_and_arrival() {
    let a = vec![FetchKey::Other, FetchKey::Rfc822Size(10), FetchKey::Rfc822Size(99)];
    let b = vec![FetchKey::Rfc822Size(20)];
    assert_eq!(cmp_fetch_items(SortKey::Size, &a, &b), Ordering::Less);
    assert_eq!(cmp_fetch_items(SortKey::Size, &b, &a), Ordering::Greater);
    // A message without the key comes first.
    assert_eq!(cmp_fetch_items(SortKey::Size, &vec![], &b), Ordering::Less);
    assert_eq!(cmp_fetch_items(SortKey::Size, &vec![], &vec![]), Ordering::Equal);

    let early = vec![FetchKey::InternalDate { seconds: 100, nanos: 5 }];
    let late = vec![FetchKey::InternalDate { seconds: 100, nanos: 6 }];
    let negative = vec![FetchKey::InternalDate { seconds: -1, nanos: 999 }];
    assert_eq!(cmp_fetch_items(SortKey::Arrival, &early, &late), Ordering::Less);
    assert_eq!(cmp_fetch_items(SortKey::Arrival, &negative, &early), Ordering::Less);
    assert_eq!(cmp_fetch_items(SortKey::Arrival, &late, &late), Ordering::Equal);
}

#[test]
fn sort_by_envelope_strings() {
    let a = vec![envelope(None, Some(b"abc")), envelope(Some(b"Mon"), Some(b"zzz"))];
    let b = vec![envelope(Some(b"Mo"), Some(b"abd"))];
    // The date of the first envelope that has one; a proper prefix comes first.
    assert_eq!(cmp_fetch_items(SortKey::Date, &a, &b), Ordering::Greater);
    assert_eq!(cmp_fetch_items(SortKey::Subject, &a, &b), Ordering::Less);
    // Addresses are not ordered.
    assert_eq!(cmp_fetch_items(SortKey::From, &a, &b), Ordering::Equal);
    assert_eq!(cmp_fetch_items(SortKey::Cc, &a, &b), Ordering::Equal);
}

#[test]
fn sort_by_criteria() {
    let a = vec![FetchKey::Rfc822Size(1), envelope(Some(b"b"), None)];
    let b = vec![FetchKey::Rfc822Size(1), envelope(Some(b"a"), None)];
    let by_size = vec![SortCriterion { reverse: false, key: SortKey::Size }];
    // Equal by size: the date decides.
    assert_eq!(cmp_by_criteria(&by_size, &a, &b), Ordering::Greater);
    let by_reverse_date = vec![
        SortCriterion { reverse: false, key: SortKey::To },
        SortCriterion { reverse: true, key: SortKey::Date },
    ];
    assert_eq!(cmp_by_criteria(&by_reverse_date, &a, &b), Ordering::Less);
    assert_eq!(cmp_by_criteria(&vec![], &a, &a), Ordering::Equal);
}

fn sized(size: u32) -> Vec<FetchKey> {
    vec![FetchKey::Other, FetchKey::Rfc822Size(size)]
}

#[test]
fn sorted_order_is_stable_by_size() {
    let keys = vec![sized(30), sized(10), sized(20), sized(10)];
    let criteria = vec![SortCriterion { reverse: false, key: SortKey::Size }];
    assert_eq!(sorted_order(&criteria, &keys), vec![1, 3, 2, 0]);
    let reversed = vec![SortCriterion { reverse: true, key: SortKey::Size }];
    assert_eq!(sorted_order(&reversed, &keys), vec![0, 2, 1, 3]);
}

#[test]
fn sorted_order_falls_back_to_date() {
    let dated = |date: &[u8]| vec![FetchKey::Envelope { date: Some(date.to_vec()), subject: None }];
    let keys = vec![dated(b"b"), vec![], dated(b"a"), dated(b"b")];
    assert_eq!(sorted_order(&vec![], &keys), vec![1, 2, 0, 3]);
    let by_from = vec![SortCriterion { reverse: true, key: SortKey::From }];
    assert_eq!(sorted_order(&by_from, &keys), vec![1, 2, 0, 3]);
}

#[test]
fn sorted_order_of_nothing() {
    assert_eq!(sorted_order(&vec![], &vec![]), Vec::<usize>::new());
}
