//! Unique, non-guessable command tags.

use crate::decimal::{decimal, decimal_string, lemma_split_at_dot};
use rand::distributions::{Alphanumeric, DistString};
use std::sync::atomic::AtomicU64;
use std::sync::atomic::Ordering;
use vstd::prelude::*;

verus! {

/// Number of random characters at the end of a tag.
pub const TOKEN_LEN: usize = 8;

/// An ASCII letter or digit.
pub open spec fn is_alphanumeric(c: char) -> bool {
    ||| 'A' <= c <= 'Z'
    ||| 'a' <= c <= 'z'
    ||| '0' <= c <= '9'
}

/// The random part of a tag: `TOKEN_LEN` letters and digits.
pub open spec fn is_token(s: Seq<char>) -> bool {
    &&& s.len() == TOKEN_LEN
    &&& forall|i: int| 0 <= i < s.len() ==> is_alphanumeric(#[trigger] s[i])
}

/// What precedes the random part of the tag of generator `global` with counter `counter`:
/// `<global>.<counter>.`
pub open spec fn tag_prefix(global: u64, counter: u64) -> Seq<char> {
    decimal(global as nat) + seq!['.'] + decimal(counter as nat) + seq!['.']
}

/// `tag` is `<global>.<counter>.<token>` with a random token.
pub open spec fn is_tag_of(tag: Seq<char>, global: u64, counter: u64) -> bool {
    let prefix = tag_prefix(global, counter);
    &&& tag.len() == prefix.len() + TOKEN_LEN
    &&& tag.take(prefix.len() as int) == prefix
    &&& is_token(tag.skip(prefix.len() as int))
}

/// Tags are unique: a tag names the generator and the counter value that produced it.
pub proof fn lemma_tags_unique(
    tag1: Seq<char>,
    global1: u64,
    counter1: u64,
    tag2: Seq<char>,
    global2: u64,
    counter2: u64,
)
    requires
        is_tag_of(tag1, global1, counter1),
        is_tag_of(tag2, global2, counter2),
        tag1 == tag2,
    ensures
        global1 == global2,
        counter1 == counter2,
{
    let p1 = tag_prefix(global1, counter1);
    let p2 = tag_prefix(global2, counter2);
    let t1 = tag1.skip(p1.len() as int);
    let t2 = tag2.skip(p2.len() as int);
    assert(tag1 =~= p1 + t1);
    assert(tag2 =~= p2 + t2);
    let rest1 = decimal(counter1 as nat) + seq!['.'] + t1;
    let rest2 = decimal(counter2 as nat) + seq!['.'] + t2;
    assert(tag1 =~= decimal(global1 as nat) + seq!['.'] + rest1);
    assert(tag2 =~= decimal(global2 as nat) + seq!['.'] + rest2);
    lemma_split_at_dot(global1 as nat, global2 as nat, rest1, rest2);
    lemma_split_at_dot(counter1 as nat, counter2 as nat, t1, t2);
}

/// Draws `TOKEN_LEN` characters from `rand`'s `Alphanumeric` distribution with the
/// thread-local generator (`DistString::sample_string`). Every outcome has exactly that many
/// characters, each an ASCII letter or digit; which ones is left to chance.
#[verifier::external_body]
fn random_token() -> (res: String)
    ensures
        is_token(res@),
{
    Alphanumeric.sample_string(&mut rand::thread_rng(), TOKEN_LEN)
}

/// Generates tags `<instance>.<counter>.<random>`.
#[derive(Debug)]
pub struct TagGenerator {
    global: u64,
    counter: u64,
}

impl TagGenerator {
    /// Instance number of this generator.
    pub closed spec fn global_spec(self) -> u64 {
        self.global
    }

    /// Counter value of the next tag.
    pub closed spec fn counter_spec(self) -> u64 {
        self.counter
    }

    /// A generator with a unique prefix: its instance number is taken from `instances`, a
    /// counter that other threads may advance at the same time. Its first tag has counter 0.
    pub fn new(instances: &AtomicU64) -> (res: TagGenerator)
        ensures
            res.counter_spec() == 0,
    {
        // There is no synchronization required and we only care about each thread seeing a
        // unique value.
        let global = instances.fetch_add(1, Ordering::Relaxed);
        TagGenerator { global, counter: 0 }
    }

    /// Generates the tag `<instance>.<counter>.<random>` and advances the counter, wrapping
    /// around at `u64::MAX`.
    ///
    /// `instance` and `counter` make IMAP traces readable; the random part keeps the tag from
    /// being guessed, which hampers protocol-confusion attacks.
    pub fn generate(&mut self) -> (tag: String)
        ensures
            is_tag_of(tag@, old(self).global_spec(), old(self).counter_spec()),
            final(self).global_spec() == old(self).global_spec(),
            final(self).counter_spec() == (if old(self).counter_spec() == u64::MAX {
                0
            } else {
                old(self).counter_spec() + 1
            }),
    {
        let mut tag = decimal_string(self.global);
        tag.append(".");
        let counter = decimal_string(self.counter);
        tag.append(counter.as_str());
        tag.append(".");
        let token = random_token();
        tag.append(token.as_str());
        proof {
            reveal_strlit(".");
            let prefix = tag_prefix(self.global, self.counter);
            assert(tag@ =~= prefix + token@);
            assert(tag@.take(prefix.len() as int) =~= prefix);
            assert(tag@.skip(prefix.len() as int) =~= token@);
        }
        self.counter = self.counter.wrapping_add(1);
        tag
    }
}

} // verus!
