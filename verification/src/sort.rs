//! Ordering fetched messages by sort criteria, for servers that cannot sort themselves.
//!
//! A message is given by its fetched items; each sort key reads the first item that carries
//! it. Messages that lack the key come first.

use std::cmp::Ordering;
use vstd::prelude::*;

verus! {

/// What messages can be sorted by.
#[derive(Clone, Copy, Debug, Eq, PartialEq, Structural)]
pub enum SortKey {
    Arrival,
    Cc,
    Date,
    From,
    Size,
    Subject,
    To,
    DisplayFrom,
    DisplayTo,
}

/// A sort key, in ascending or, where `reverse`, descending order.
#[derive(Clone, Copy, Debug, Eq, PartialEq, Structural)]
pub struct SortCriterion {
    pub reverse: bool,
    pub key: SortKey,
}

/// A fetched item of a message, as far as sorting reads it.
#[derive(Clone, Debug, Eq, PartialEq)]
pub enum FetchKey {
    /// The internal date, as the instant it names: seconds since the Unix epoch and the
    /// nanoseconds within that second.
    InternalDate { seconds: i64, nanos: u32 },
    /// The envelope's date and subject, as the raw strings sent by the server.
    Envelope { date: Option<Vec<u8>>, subject: Option<Vec<u8>> },
    /// The size of the message in bytes.
    Rfc822Size(u32),
    /// Any other item.
    Other,
}

/// -1, 0 or 1 as `a` is less than, equal to or greater than `b`.
pub open spec fn compare_int(a: int, b: int) -> int {
    if a < b {
        -1
    } else if a > b {
        1
    } else {
        0
    }
}

/// Lexicographic order of byte strings: the first differing byte decides, and a proper prefix
/// comes first.
pub open spec fn compare_bytes(a: Seq<u8>, b: Seq<u8>) -> int
    decreases a.len(),
{
    if a.len() == 0 || b.len() == 0 {
        compare_int(a.len() as int, b.len() as int)
    } else if a[0] != b[0] {
        compare_int(a[0] as int, b[0] as int)
    } else {
        compare_bytes(a.drop_first(), b.drop_first())
    }
}

/// Byte strings compare to -1, 0 or 1.
proof fn lemma_compare_bytes_range(a: Seq<u8>, b: Seq<u8>)
    ensures
        -1 <= compare_bytes(a, b) <= 1,
    decreases a.len(),
{
    if a.len() > 0 && b.len() > 0 && a[0] == b[0] {
        lemma_compare_bytes_range(a.drop_first(), b.drop_first());
    }
}

/// A missing key comes before any present one.
pub open spec fn compare_present(a: bool, b: bool) -> int {
    compare_int(if a { 1 } else { 0 }, if b { 1 } else { 0 })
}

/// The first internal date among the items.
pub open spec fn first_internal_date(items: Seq<FetchKey>) -> Option<(i64, u32)>
    decreases items.len(),
{
    if items.len() == 0 {
        None
    } else {
        match items[0] {
            FetchKey::InternalDate { seconds, nanos } => Some((seconds, nanos)),
            _ => first_internal_date(items.drop_first()),
        }
    }
}

/// The first envelope date among the items (envelopes without one are passed over).
pub open spec fn first_envelope_date(items: Seq<FetchKey>) -> Option<Seq<u8>>
    decreases items.len(),
{
    if items.len() == 0 {
        None
    } else {
        match items[0] {
            FetchKey::Envelope { date: Some(date), .. } => Some(date@),
            _ => first_envelope_date(items.drop_first()),
        }
    }
}

/// The first envelope subject among the items (envelopes without one are passed over).
pub open spec fn first_subject(items: Seq<FetchKey>) -> Option<Seq<u8>>
    decreases items.len(),
{
    if items.len() == 0 {
        None
    } else {
        match items[0] {
            FetchKey::Envelope { subject: Some(subject), .. } => Some(subject@),
            _ => first_subject(items.drop_first()),
        }
    }
}

/// The first size among the items.
pub open spec fn first_size(items: Seq<FetchKey>) -> Option<u32>
    decreases items.len(),
{
    if items.len() == 0 {
        None
    } else {
        match items[0] {
            FetchKey::Rfc822Size(size) => Some(size),
            _ => first_size(items.drop_first()),
        }
    }
}

/// Order of two optional byte strings.
pub open spec fn compare_opt_bytes(a: Option<Seq<u8>>, b: Option<Seq<u8>>) -> int {
    match (a, b) {
        (Some(x), Some(y)) => compare_bytes(x, y),
        _ => compare_present(a is Some, b is Some),
    }
}

/// How the messages with items `a` and `b` compare by `key`: by the instant of arrival, the
/// envelope date's raw string, the size or the subject's raw string. Addresses are not
/// compared: by those keys all messages are equal.
pub open spec fn compare_by_key(key: SortKey, a: Seq<FetchKey>, b: Seq<FetchKey>) -> int {
    match key {
        SortKey::Arrival => match (first_internal_date(a), first_internal_date(b)) {
            (Some(x), Some(y)) => if x.0 != y.0 {
                compare_int(x.0 as int, y.0 as int)
            } else {
                compare_int(x.1 as int, y.1 as int)
            },
            (x, y) => compare_present(x is Some, y is Some),
        },
        SortKey::Date => compare_opt_bytes(first_envelope_date(a), first_envelope_date(b)),
        SortKey::Size => match (first_size(a), first_size(b)) {
            (Some(x), Some(y)) => compare_int(x as int, y as int),
            (x, y) => compare_present(x is Some, y is Some),
        },
        SortKey::Subject => compare_opt_bytes(first_subject(a), first_subject(b)),
        _ => 0,
    }
}

/// How the messages compare by the criteria: the first criterion by which they differ decides,
/// reversed where it says so; where none does, the envelope date decides.
pub open spec fn compare_by_criteria(criteria: Seq<SortCriterion>, a: Seq<FetchKey>, b: Seq<
    FetchKey,
>) -> int
    decreases criteria.len(),
{
    if criteria.len() == 0 {
        compare_by_key(SortKey::Date, a, b)
    } else {
        let c = compare_by_key(criteria[0].key, a, b);
        let c = if criteria[0].reverse {
            -c
        } else {
            c
        };
        if c != 0 {
            c
        } else {
            compare_by_criteria(criteria.drop_first(), a, b)
        }
    }
}

/// The ordering that -1, 0 or 1 stands for.
pub open spec fn ordering_of(c: int) -> Ordering {
    if c < 0 {
        Ordering::Less
    } else if c > 0 {
        Ordering::Greater
    } else {
        Ordering::Equal
    }
}

fn compare_u64(a: u64, b: u64) -> (res: i8)
    ensures
        res == compare_int(a as int, b as int),
{
    if a < b {
        -1
    } else if a > b {
        1
    } else {
        0
    }
}

fn compare_i64(a: i64, b: i64) -> (res: i8)
    ensures
        res == compare_int(a as int, b as int),
{
    if a < b {
        -1
    } else if a > b {
        1
    } else {
        0
    }
}

fn compare_byte_slices(a: &[u8], b: &[u8]) -> (res: i8)
    ensures
        res == compare_bytes(a@, b@),
        -1 <= res <= 1,
{
    proof {
        lemma_compare_bytes_range(a@, b@);
    }
    let mut i: usize = 0;
    assert(a@.skip(0) =~= a@ && b@.skip(0) =~= b@);
    while i < a.len() && i < b.len()
        invariant
            i <= a@.len(),
            i <= b@.len(),
            compare_bytes(a@, b@) == compare_bytes(a@.skip(i as int), b@.skip(i as int)),
        decreases a@.len() - i,
    {
        if a[i] != b[i] {
            return if a[i] < b[i] {
                -1
            } else {
                1
            };
        }
        assert(a@.skip(i as int).drop_first() =~= a@.skip(i + 1));
        assert(b@.skip(i as int).drop_first() =~= b@.skip(i + 1));
        i = i + 1;
    }
    compare_u64((a.len() - i) as u64, (b.len() - i) as u64)
}

fn compare_present_exec(a: bool, b: bool) -> (res: i8)
    ensures
        res == compare_present(a, b),
{
    compare_u64(if a { 1 } else { 0 }, if b { 1 } else { 0 })
}

fn find_internal_date(items: &Vec<FetchKey>) -> (res: Option<(i64, u32)>)
    ensures
        res == first_internal_date(items@),
{
    let mut i: usize = 0;
    assert(items@.skip(0) =~= items@);
    while i < items.len()
        invariant
            i <= items@.len(),
            first_internal_date(items@) == first_internal_date(items@.skip(i as int)),
        decreases items@.len() - i,
    {
        assert(items@.skip(i as int).drop_first() =~= items@.skip(i + 1));
        if let FetchKey::InternalDate { seconds, nanos } = &items[i] {
            return Some((*seconds, *nanos));
        }
        i = i + 1;
    }
    None
}

fn find_envelope_date(items: &Vec<FetchKey>) -> (res: Option<&[u8]>)
    ensures
        match res {
            Some(d) => first_envelope_date(items@) == Some(d@),
            None => first_envelope_date(items@) is None,
        },
{
    let mut i: usize = 0;
    assert(items@.skip(0) =~= items@);
    while i < items.len()
        invariant
            i <= items@.len(),
            first_envelope_date(items@) == first_envelope_date(items@.skip(i as int)),
        decreases items@.len() - i,
    {
        assert(items@.skip(i as int).drop_first() =~= items@.skip(i + 1));
        if let FetchKey::Envelope { date: Some(date), .. } = &items[i] {
            return Some(date.as_slice());
        }
        i = i + 1;
    }
    None
}

fn find_subject(items: &Vec<FetchKey>) -> (res: Option<&[u8]>)
    ensures
        match res {
            Some(s) => first_subject(items@) == Some(s@),
            None => first_subject(items@) is None,
        },
{
    let mut i: usize = 0;
    assert(items@.skip(0) =~= items@);
    while i < items.len()
        invariant
            i <= items@.len(),
            first_subject(items@) == first_subject(items@.skip(i as int)),
        decreases items@.len() - i,
    {
        assert(items@.skip(i as int).drop_first() =~= items@.skip(i + 1));
        if let FetchKey::Envelope { subject: Some(subject), .. } = &items[i] {
            return Some(subject.as_slice());
        }
        i = i + 1;
    }
    None
}

fn find_size(items: &Vec<FetchKey>) -> (res: Option<u32>)
    ensures
        res == first_size(items@),
{
    let mut i: usize = 0;
    assert(items@.skip(0) =~= items@);
    while i < items.len()
        invariant
            i <= items@.len(),
            first_size(items@) == first_size(items@.skip(i as int)),
        decreases items@.len() - i,
    {
        assert(items@.skip(i as int).drop_first() =~= items@.skip(i + 1));
        if let FetchKey::Rfc822Size(size) = &items[i] {
            return Some(*size);
        }
        i = i + 1;
    }
    None
}

fn compare_opt_slices(a: Option<&[u8]>, b: Option<&[u8]>) -> (res: i8)
    ensures
        res == compare_opt_bytes(
            match a {
                Some(x) => Some(x@),
                None => None,
            },
            match b {
                Some(y) => Some(y@),
                None => None,
            },
        ),
        -1 <= res <= 1,
{
    match (a, b) {
        (Some(x), Some(y)) => compare_byte_slices(x, y),
        _ => compare_present_exec(a.is_some(), b.is_some()),
    }
}

/// -1, 0 or 1 as the messages compare by `key`, see [`compare_by_key`].
fn compare_items(criterion: SortKey, a: &Vec<FetchKey>, b: &Vec<FetchKey>) -> (res: i8)
    ensures
        res == compare_by_key(criterion, a@, b@),
        -1 <= res <= 1,
{
    match criterion {
        SortKey::Arrival => match (find_internal_date(a), find_internal_date(b)) {
            (Some(x), Some(y)) => if x.0 != y.0 {
                compare_i64(x.0, y.0)
            } else {
                compare_u64(x.1 as u64, y.1 as u64)
            },
            (x, y) => compare_present_exec(x.is_some(), y.is_some()),
        },
        SortKey::Date => compare_opt_slices(find_envelope_date(a), find_envelope_date(b)),
        SortKey::Size => match (find_size(a), find_size(b)) {
            (Some(x), Some(y)) => compare_u64(x as u64, y as u64),
            (x, y) => compare_present_exec(x.is_some(), y.is_some()),
        },
        SortKey::Subject => compare_opt_slices(find_subject(a), find_subject(b)),
        // Addresses are not ordered.
        SortKey::Cc | SortKey::From | SortKey::To | SortKey::DisplayFrom | SortKey::DisplayTo => 0,
    }
}

/// The ordering for -1, 0 or 1.
fn ordering(c: i8) -> (res: Ordering)
    ensures
        res == (if c < 0 {
            Ordering::Less
        } else if c > 0 {
            Ordering::Greater
        } else {
            Ordering::Equal
        }),
{
    if c < 0 {
        Ordering::Less
    } else if c > 0 {
        Ordering::Greater
    } else {
        Ordering::Equal
    }
}

/// How the messages with items `a` and `b` compare by `criterion`, see [`compare_by_key`].
pub fn cmp_fetch_items(criterion: SortKey, a: &Vec<FetchKey>, b: &Vec<FetchKey>) -> (res: Ordering)
    ensures
        res == ordering_of(compare_by_key(criterion, a@, b@)),
{
    ordering(compare_items(criterion, a, b))
}

/// -1, 0 or 1 as the messages compare by the criteria, see [`compare_by_criteria`].
fn compare_criteria(criteria: &Vec<SortCriterion>, a: &Vec<FetchKey>, b: &Vec<FetchKey>) -> (res:
    i8)
    ensures
        res == compare_by_criteria(criteria@, a@, b@),
{
    let mut i: usize = 0;
    assert(criteria@.skip(0) =~= criteria@);
    while i < criteria.len()
        invariant
            i <= criteria@.len(),
            compare_by_criteria(criteria@, a@, b@) == compare_by_criteria(
                criteria@.skip(i as int),
                a@,
                b@,
            ),
        decreases criteria@.len() - i,
    {
        assert(criteria@.skip(i as int).drop_first() =~= criteria@.skip(i + 1));
        let criterion = criteria[i];
        let c = compare_items(criterion.key, a, b);
        let c = if criterion.reverse {
            -c
        } else {
            c
        };
        if c != 0 {
            return c;
        }
        i = i + 1;
    }
    compare_items(SortKey::Date, a, b)
}

/// How the messages compare by the criteria, see [`compare_by_criteria`].
pub fn cmp_by_criteria(criteria: &Vec<SortCriterion>, a: &Vec<FetchKey>, b: &Vec<FetchKey>) -> (res:
    Ordering)
    ensures
        res == ordering_of(compare_by_criteria(criteria@, a@, b@)),
{
    ordering(compare_criteria(criteria, a, b))
}

/// Byte strings compare antisymmetrically.
proof fn lemma_compare_bytes_antisymmetric(a: Seq<u8>, b: Seq<u8>)
    ensures
        compare_bytes(a, b) == -compare_bytes(b, a),
    decreases a.len(),
{
    if a.len() > 0 && b.len() > 0 && a[0] == b[0] {
        lemma_compare_bytes_antisymmetric(a.drop_first(), b.drop_first());
    }
}

/// Byte strings compare equal only where they are equal.
proof fn lemma_compare_bytes_equal(a: Seq<u8>, b: Seq<u8>)
    ensures
        compare_bytes(a, b) == 0 <==> a == b,
    decreases a.len(),
{
    if a.len() > 0 && b.len() > 0 {
        if a[0] == b[0] {
            lemma_compare_bytes_equal(a.drop_first(), b.drop_first());
            if a.drop_first() == b.drop_first() {
                assert(a =~= seq![a[0]] + a.drop_first());
                assert(b =~= seq![b[0]] + b.drop_first());
            } else if a == b {
                assert(a.drop_first() =~= b.drop_first());
            }
        }
    } else if a.len() == 0 && b.len() == 0 {
        assert(a =~= b);
    }
}

/// The order of byte strings is transitive.
proof fn lemma_compare_bytes_transitive(a: Seq<u8>, b: Seq<u8>, c: Seq<u8>)
    requires
        compare_bytes(a, b) < 0,
        compare_bytes(b, c) < 0,
    ensures
        compare_bytes(a, c) < 0,
    decreases a.len(),
{
    if a.len() > 0 && b.len() > 0 && c.len() > 0 && a[0] == b[0] && b[0] == c[0] {
        lemma_compare_bytes_transitive(a.drop_first(), b.drop_first(), c.drop_first());
    }
}

/// The order of optional byte strings is a total order: it is antisymmetric, equal only for
/// equal strings, and transitive.
proof fn lemma_compare_opt_bytes_order(a: Option<Seq<u8>>, b: Option<Seq<u8>>, c: Option<Seq<u8>>)
    ensures
        compare_opt_bytes(a, b) == -compare_opt_bytes(b, a),
        compare_opt_bytes(a, b) == 0 ==> a == b,
        compare_opt_bytes(a, b) < 0 && compare_opt_bytes(b, c) < 0 ==> compare_opt_bytes(a, c) < 0,
{
    if let (Some(x), Some(y)) = (a, b) {
        lemma_compare_bytes_antisymmetric(x, y);
        lemma_compare_bytes_equal(x, y);
        if let Some(z) = c {
            if compare_bytes(x, y) < 0 && compare_bytes(y, z) < 0 {
                lemma_compare_bytes_transitive(x, y, z);
            }
        }
    }
}

/// Messages compare by a key as by a total preorder: the comparison is -1, 0 or 1,
/// antisymmetric, messages that compare equal compare alike to all others, and it is
/// transitive.
pub proof fn lemma_key_order(key: SortKey, a: Seq<FetchKey>, b: Seq<FetchKey>, c: Seq<FetchKey>)
    ensures
        -1 <= compare_by_key(key, a, b) <= 1,
        compare_by_key(key, a, b) == -compare_by_key(key, b, a),
        compare_by_key(key, a, b) == 0 ==> compare_by_key(key, a, c) == compare_by_key(key, b, c),
        compare_by_key(key, a, b) < 0 && compare_by_key(key, b, c) < 0 ==> compare_by_key(
            key,
            a,
            c,
        ) < 0,
{
    match key {
        SortKey::Date => {
            lemma_compare_opt_bytes_order(first_envelope_date(a), first_envelope_date(b), first_envelope_date(c));
            if let (Some(x), Some(y)) = (first_envelope_date(a), first_envelope_date(b)) {
                lemma_compare_bytes_range(x, y);
            }
        },
        SortKey::Subject => {
            lemma_compare_opt_bytes_order(first_subject(a), first_subject(b), first_subject(c));
            if let (Some(x), Some(y)) = (first_subject(a), first_subject(b)) {
                lemma_compare_bytes_range(x, y);
            }
        },
        _ => {},
    }
}

/// Messages compare by criteria as by a total preorder: the comparison is -1, 0 or 1,
/// antisymmetric, messages that compare equal compare alike to all others, and it is
/// transitive.
pub proof fn lemma_criteria_order(
    criteria: Seq<SortCriterion>,
    a: Seq<FetchKey>,
    b: Seq<FetchKey>,
    c: Seq<FetchKey>,
)
    ensures
        -1 <= compare_by_criteria(criteria, a, b) <= 1,
        compare_by_criteria(criteria, a, b) == -compare_by_criteria(criteria, b, a),
        compare_by_criteria(criteria, a, b) == 0 ==> compare_by_criteria(criteria, a, c)
            == compare_by_criteria(criteria, b, c),
        compare_by_criteria(criteria, a, b) < 0 && compare_by_criteria(criteria, b, c) < 0
            ==> compare_by_criteria(criteria, a, c) < 0,
    decreases criteria.len(),
{
    if criteria.len() == 0 {
        lemma_key_order(SortKey::Date, a, b, c);
    } else {
        let key = criteria[0].key;
        lemma_key_order(key, a, b, c);
        lemma_key_order(key, b, c, a);
        lemma_key_order(key, c, a, b);
        lemma_key_order(key, b, a, c);
        lemma_key_order(key, a, c, b);
        lemma_key_order(key, c, b, a);
        lemma_criteria_order(criteria.drop_first(), a, b, c);
        lemma_criteria_order(criteria.drop_first(), b, c, a);
        lemma_criteria_order(criteria.drop_first(), c, a, b);
        lemma_criteria_order(criteria.drop_first(), b, a, c);
        lemma_criteria_order(criteria.drop_first(), a, c, b);
        lemma_criteria_order(criteria.drop_first(), c, b, a);
    }
}

/// By each key, two messages compare equal exactly when they carry the same value of that key
/// (or both lack it): the same first internal date, envelope date, size or subject. By the
/// address keys, which are not compared, all messages are equal.
pub proof fn lemma_key_equal_iff_same_value(key: SortKey, a: Seq<FetchKey>, b: Seq<FetchKey>)
    ensures
        key == SortKey::Arrival ==> (compare_by_key(key, a, b) == 0 <==> first_internal_date(a)
            == first_internal_date(b)),
        key == SortKey::Date ==> (compare_by_key(key, a, b) == 0 <==> first_envelope_date(a)
            == first_envelope_date(b)),
        key == SortKey::Size ==> (compare_by_key(key, a, b) == 0 <==> first_size(a) == first_size(
            b,
        )),
        key == SortKey::Subject ==> (compare_by_key(key, a, b) == 0 <==> first_subject(a)
            == first_subject(b)),
{
    lemma_compare_opt_bytes_order(first_envelope_date(a), first_envelope_date(b), None);
    lemma_compare_opt_bytes_order(first_subject(a), first_subject(b), None);
    if let (Some(x), Some(y)) = (first_envelope_date(a), first_envelope_date(b)) {
        lemma_compare_bytes_equal(x, y);
    }
    if let (Some(x), Some(y)) = (first_subject(a), first_subject(b)) {
        lemma_compare_bytes_equal(x, y);
    }
}

/// Reversing a criterion reverses the order wherever that criterion decides: where the messages
/// differ by the first criterion's key, comparing with that criterion reversed gives the
/// opposite of comparing with it as it is, whatever the key and the criteria after it.
pub proof fn lemma_reverse_negates(criteria: Seq<SortCriterion>, a: Seq<FetchKey>, b: Seq<FetchKey>)
    requires
        criteria.len() > 0,
        compare_by_key(criteria[0].key, a, b) != 0,
    ensures
        compare_by_criteria(
            criteria.update(0, SortCriterion { reverse: !criteria[0].reverse, key: criteria[0].key }),
            a,
            b,
        ) == -compare_by_criteria(criteria, a, b),
        compare_by_criteria(criteria, a, b) != 0,
{
    let flipped = criteria.update(0, SortCriterion { reverse: !criteria[0].reverse, key: criteria[0].key });
    assert(flipped[0].key == criteria[0].key && flipped[0].reverse == !criteria[0].reverse);
    assert(flipped.drop_first() =~= criteria.drop_first());
}

/// A single criterion reversed orders two messages that its key tells apart the other way
/// round.
pub proof fn lemma_reverse_single_criterion(key: SortKey, a: Seq<FetchKey>, b: Seq<FetchKey>)
    requires
        compare_by_key(key, a, b) != 0,
    ensures
        compare_by_criteria(seq![SortCriterion { reverse: true, key }], a, b)
            == -compare_by_criteria(seq![SortCriterion { reverse: false, key }], a, b),
        compare_by_criteria(seq![SortCriterion { reverse: false, key }], a, b) != 0,
{
    let plain = seq![SortCriterion { reverse: false, key }];
    lemma_reverse_negates(plain, a, b);
    assert(plain.update(0, SortCriterion { reverse: true, key }) =~= seq![
        SortCriterion { reverse: true, key },
    ]);
}

/// `x` comes before `y` in the order of byte strings: they agree on their first `i` bytes,
/// and then `x` ends while `y` goes on, or `x`'s next byte is smaller.
pub open spec fn bytes_before_at(x: Seq<u8>, y: Seq<u8>, i: int) -> bool {
    &&& 0 <= i <= x.len()
    &&& i <= y.len()
    &&& x.take(i) == y.take(i)
    &&& (i == x.len() && i < y.len()) || (i < x.len() && i < y.len() && x[i] < y[i])
}

/// Byte strings are ordered lexicographically: a proper prefix comes first, and otherwise the
/// first byte in which they differ decides.
proof fn lemma_compare_bytes_lexicographic(x: Seq<u8>, y: Seq<u8>, i: int)
    requires
        bytes_before_at(x, y, i),
    ensures
        compare_bytes(x, y) < 0,
    decreases i,
{
    if i > 0 {
        assert(x[0] == x.take(i)[0] && y[0] == y.take(i)[0]);
        assert(x.drop_first().take(i - 1) =~= x.take(i).drop_first());
        assert(y.drop_first().take(i - 1) =~= y.take(i).drop_first());
        lemma_compare_bytes_lexicographic(x.drop_first(), y.drop_first(), i - 1);
    }
}

/// Instant `x` (seconds and nanoseconds) is earlier than `y`.
pub open spec fn instant_before(x: (i64, u32), y: (i64, u32)) -> bool {
    x.0 < y.0 || (x.0 == y.0 && x.1 < y.1)
}

/// By each key, a message that lacks the key comes before one that carries it; sizes order
/// from small to large, arrival from earlier to later instants, and envelope dates and subjects
/// by the order of their raw bytes.
pub proof fn lemma_key_orders_by_value(key: SortKey, a: Seq<FetchKey>, b: Seq<FetchKey>, i: int)
    ensures
        key == SortKey::Size ==> (first_size(a) is None && first_size(b) is Some ==> compare_by_key(
            key,
            a,
            b,
        ) < 0),
        key == SortKey::Size ==> (first_size(a) is Some && first_size(b) is Some && first_size(
            a,
        )->0 < first_size(b)->0 ==> compare_by_key(key, a, b) < 0),
        key == SortKey::Arrival ==> (first_internal_date(a) is None && first_internal_date(b) is Some
            ==> compare_by_key(key, a, b) < 0),
        key == SortKey::Arrival ==> (first_internal_date(a) is Some && first_internal_date(b) is Some
            && instant_before(first_internal_date(a)->0, first_internal_date(b)->0) ==> compare_by_key(
            key,
            a,
            b,
        ) < 0),
        key == SortKey::Date ==> (first_envelope_date(a) is None && first_envelope_date(b) is Some
            ==> compare_by_key(key, a, b) < 0),
        key == SortKey::Date ==> (first_envelope_date(a) is Some && first_envelope_date(b) is Some
            && bytes_before_at(first_envelope_date(a)->0, first_envelope_date(b)->0, i)
            ==> compare_by_key(key, a, b) < 0),
        key == SortKey::Subject ==> (first_subject(a) is None && first_subject(b) is Some
            ==> compare_by_key(key, a, b) < 0),
        key == SortKey::Subject ==> (first_subject(a) is Some && first_subject(b) is Some
            && bytes_before_at(first_subject(a)->0, first_subject(b)->0, i) ==> compare_by_key(
            key,
            a,
            b,
        ) < 0),
{
    if let (Some(x), Some(y)) = (first_envelope_date(a), first_envelope_date(b)) {
        if bytes_before_at(x, y, i) {
            lemma_compare_bytes_lexicographic(x, y, i);
        }
    }
    if let (Some(x), Some(y)) = (first_subject(a), first_subject(b)) {
        if bytes_before_at(x, y, i) {
            lemma_compare_bytes_lexicographic(x, y, i);
        }
    }
}

/// Message `x` comes before message `y` of `keys` in the order of the criteria: it compares
/// less, or equal and was fetched earlier.
pub open spec fn comes_before(criteria: Seq<SortCriterion>, keys: Seq<Vec<FetchKey>>, x: int, y: int) -> bool {
    let c = compare_by_criteria(criteria, keys[x]@, keys[y]@);
    c < 0 || (c == 0 && x < y)
}

/// Coming before is transitive.
proof fn lemma_comes_before_transitive(
    criteria: Seq<SortCriterion>,
    keys: Seq<Vec<FetchKey>>,
    x: int,
    y: int,
    z: int,
)
    requires
        comes_before(criteria, keys, x, y),
        comes_before(criteria, keys, y, z),
    ensures
        comes_before(criteria, keys, x, z),
{
    lemma_criteria_order(criteria, keys[x]@, keys[y]@, keys[z]@);
    lemma_criteria_order(criteria, keys[y]@, keys[z]@, keys[x]@);
    lemma_criteria_order(criteria, keys[x]@, keys[z]@, keys[y]@);
}

/// The order in which the messages with the fetched `keys` come by the criteria: each index
/// once, each message before those that compare greater, and messages that compare equal in
/// the order they were fetched. This is the order of the sort fallback where the server does
/// not sort itself.
pub fn sorted_order(criteria: &Vec<SortCriterion>, keys: &Vec<Vec<FetchKey>>) -> (res: Vec<usize>)
    ensures
        res.len() == keys.len(),
        forall|i: int| 0 <= i < res.len() ==> res[i] < keys.len(),
        forall|i: int, j: int|
            0 <= i < j < res.len() ==> #[trigger] comes_before(criteria@, keys@, res[i] as int, res[j] as int),
        forall|i: int, j: int| 0 <= i < j < res.len() ==> res[i] != res[j],
{
    let mut order: Vec<usize> = Vec::new();
    let mut next: usize = 0;
    while next < keys.len()
        invariant
            next <= keys.len(),
            order.len() == next,
            forall|i: int| 0 <= i < order.len() ==> order[i] < next,
            forall|i: int, j: int|
                0 <= i < j < order.len() ==> #[trigger] comes_before(criteria@, keys@, order[i] as int, order[j] as int),
        decreases keys.len() - next,
    {
        // Find the place of the next message: behind every message that it does not come
        // before.
        let mut place: usize = order.len();
        while place > 0 && compare_criteria(criteria, &keys[next], &keys[order[place - 1]]) < 0
            invariant
                place <= order.len(),
                next < keys.len(),
                forall|i: int| 0 <= i < order.len() ==> order[i] < next,
                forall|k: int| place <= k < order.len() ==> comes_before(criteria@, keys@, next as int, #[trigger] order[k] as int),
            decreases place,
        {
            place = place - 1;
        }
        proof {
            if place > 0 {
                let p = order[place - 1] as int;
                lemma_criteria_order(criteria@, keys@[next as int]@, keys@[p]@, keys@[p]@);
                assert(comes_before(criteria@, keys@, p, next as int));
                assert forall|k: int| 0 <= k < place implies comes_before(criteria@, keys@, #[trigger] order[k] as int, next as int) by {
                    if k < place - 1 {
                        assert(comes_before(criteria@, keys@, order[k] as int, p));
                        lemma_comes_before_transitive(criteria@, keys@, order[k] as int, p, next as int);
                    }
                }
            }
        }
        let ghost before = order@;
        order.insert(place, next);
        proof {
            assert forall|i: int, j: int| 0 <= i < j < order.len() implies #[trigger] comes_before(criteria@, keys@, order[i] as int, order[j] as int) by {
                if j < place {
                    assert(order[i] == before[i] && order[j] == before[j]);
                } else if j == place {
                    assert(order[i] == before[i]);
                } else if i < place {
                    assert(order[i] == before[i] && order[j] == before[j - 1]);
                } else if i == place {
                    assert(order[j] == before[j - 1]);
                } else {
                    assert(order[i] == before[i - 1] && order[j] == before[j - 1]);
                }
            }
        }
        next = next + 1;
    }
    proof {
        assert forall|i: int, j: int| 0 <= i < j < order.len() implies order[i] != order[j] by {
            assert(comes_before(criteria@, keys@, order[i] as int, order[j] as int));
            lemma_criteria_order(criteria@, keys@[order[i] as int]@, keys@[order[i] as int]@, keys@[order[i] as int]@);
        }
    }
    order
}

} // verus!
