//! What is measured, and the shape of the results.

use crate::bench::text::{append_decimal, decimal, law_decimal_is_injective};
use std::time::Duration;
use vstd::prelude::*;
use vstd::string::StringExecFns;

verus! {

/// How often the producer tries to push, against how often each consumer tries
/// to pop.
#[derive(Copy, Clone, Debug, PartialEq, Eq, Structural)]
pub enum Ratio {
    /// Both sides as fast as they can.
    Max,
    /// The producer once for every consumer.
    Balanced,
    /// The producer this many times as often as balanced.
    Prod(u32),
    /// Each consumer this many times as often as balanced.
    Cons(u32),
}

/// The name of a ratio in results.
pub open spec fn ratio_label(ratio: Ratio) -> Seq<char> {
    match ratio {
        Ratio::Max => "max"@,
        Ratio::Balanced => "balanced"@,
        Ratio::Prod(k) => "prod_"@ + decimal(k as nat) + "x"@,
        Ratio::Cons(k) => "cons_"@ + decimal(k as nat) + "x"@,
    }
}

impl Ratio {
    /// The name of the ratio in results.
    pub fn label(self) -> (r: String)
        ensures
            r@ == ratio_label(self),
    {
        match self {
            Ratio::Max => String::from_str("max"),
            Ratio::Balanced => String::from_str("balanced"),
            Ratio::Prod(k) => {
                let mut label: String = String::from_str("prod_");
                append_decimal(&mut label, k as u128);
                label.append("x");
                label
            },
            Ratio::Cons(k) => {
                let mut label: String = String::from_str("cons_");
                append_decimal(&mut label, k as u128);
                label.append("x");
                label
            },
        }
    }
}

/// Different ratios have different labels.
pub proof fn law_ratio_labels_are_distinct(a: Ratio, b: Ratio)
    ensures
        ratio_label(a) == ratio_label(b) ==> a == b,
{
    reveal_strlit("max");
    reveal_strlit("balanced");
    reveal_strlit("prod_");
    reveal_strlit("cons_");
    reveal_strlit("x");
    if ratio_label(a) == ratio_label(b) {
        assert(ratio_label(a)[0] == ratio_label(b)[0]);
        let ka: nat = match a {
            Ratio::Prod(k) => k as nat,
            Ratio::Cons(k) => k as nat,
            _ => 0,
        };
        let kb: nat = match b {
            Ratio::Prod(k) => k as nat,
            Ratio::Cons(k) => k as nat,
            _ => 0,
        };
        if (a is Prod && b is Prod) || (a is Cons && b is Cons) {
            let label = ratio_label(a);
            assert(label.subrange(5, label.len() - 1) =~= decimal(ka));
            assert(label.subrange(5, label.len() - 1) =~= decimal(kb));
            law_decimal_is_injective(ka, kb);
        }
    }
}

/// A label says which side is faster, and how many times.
pub proof fn law_ratio_labels_say_the_ratio(ratio: Ratio, label: String)
    requires
        call_ensures(Ratio::label, (ratio,), label),
    ensures
        ratio == Ratio::Max ==> label@ == "max"@,
        ratio == Ratio::Balanced ==> label@ == "balanced"@,
        ratio matches Ratio::Prod(k) ==> label@ == "prod_"@ + decimal(k as nat) + "x"@,
        ratio matches Ratio::Cons(k) ==> label@ == "cons_"@ + decimal(k as nat) + "x"@,
{
}

/// The part that a thread plays.
#[derive(Copy, Clone, Debug, PartialEq, Eq, Structural)]
pub enum Role {
    Producer,
    Consumer,
}

/// The name of a role in results.
pub open spec fn role_name(role: Role) -> Seq<char> {
    match role {
        Role::Producer => "producer"@,
        Role::Consumer => "consumer"@,
    }
}

impl Role {
    /// The name of the role in results.
    pub fn name(self) -> (r: &'static str)
        ensures
            r@ == role_name(self),
    {
        match self {
            Role::Producer => "producer",
            Role::Consumer => "consumer",
        }
    }
}

/// One scenario.
#[derive(Debug)]
pub struct BenchConfig {
    /// The scenario's name.
    pub name: String,
    /// The backend's name.
    pub backend: String,
    /// How many consumers take part.
    pub num_consumers: usize,
    /// How many items the buffer holds.
    pub capacity: usize,
    /// How often each side tries.
    pub ratio: Ratio,
    /// How many times the scenario is measured.
    pub trials: usize,
    /// How long each measurement takes.
    pub duration: Duration,
    /// How long the threads run before each measurement.
    pub warmup: Duration,
    /// How long to rest between measurements.
    pub idle_gap: Duration,
}

impl Clone for BenchConfig {
    fn clone(&self) -> (r: Self)
        ensures
            r == *self,
    {
        BenchConfig {
            name: self.name.clone(),
            backend: self.backend.clone(),
            num_consumers: self.num_consumers,
            capacity: self.capacity,
            ratio: self.ratio,
            trials: self.trials,
            duration: self.duration,
            warmup: self.warmup,
            idle_gap: self.idle_gap,
        }
    }
}

impl BenchConfig {
    /// How many threads take part: the producer and the consumers.
    pub fn workers(&self) -> (r: usize)
        requires
            self.num_consumers < usize::MAX,
        ensures
            r == 1 + self.num_consumers,
    {
        1 + self.num_consumers
    }
}

/// What one thread measured in one trial. `F` is the type of the measured
/// quantities.
#[derive(Clone, Debug)]
pub struct RawRow<F> {
    pub scenario: String,
    pub backend: String,
    pub trial: usize,
    pub role: Role,
    pub thread_id: usize,
    pub capacity: usize,
    pub num_consumers: usize,
    pub ratio: String,
    pub ok_ops: u64,
    pub fail_ops: u64,
    pub window_ns: F,
    pub throughput_ops_s: F,
    pub fail_rate_pct: F,
    pub lat_p50_ns: F,
    pub lat_p99_ns: F,
    pub lat_max_ns: F,
    pub fail_lat_p50_ns: F,
    pub fail_lat_p99_ns: F,
    pub payload_bytes: usize,
}

/// What all threads of one role measured, over all trials.
#[derive(Clone, Debug)]
pub struct SummaryRow<F> {
    pub scenario: String,
    pub backend: String,
    pub role: Role,
    pub capacity: usize,
    pub num_consumers: usize,
    pub ratio: String,
    pub payload_bytes: usize,
    pub trials: usize,
    pub tput_mean: F,
    pub tput_median: F,
    pub tput_min: F,
    pub tput_max: F,
    pub fail_rate_mean: F,
    pub lat_p50_mean: F,
    pub lat_p50_median: F,
    pub lat_p99_mean: F,
    pub lat_p99_median: F,
    pub fail_lat_p50_mean: F,
    pub fail_lat_p50_median: F,
    pub fail_lat_p99_mean: F,
    pub fail_lat_p99_median: F,
}

/// Items that the harness can make and recognise.
pub trait Payload: Clone + Send + Sync + 'static {
    /// The size of one item.
    const BYTES: usize;

    /// Whether this is the item with the given number.
    spec fn is_number(&self, seq: u64) -> bool;

    /// The item with the given number.
    fn from_seq(seq: u64) -> (r: Self)
        ensures
            r.is_number(seq),
    ;

    /// Whether this is the item with the given number.
    fn verify(&self, seq: u64) -> (r: bool)
        ensures
            r == self.is_number(seq),
    ;
}

impl Payload for u64 {
    const BYTES: usize = 8;

    open spec fn is_number(&self, seq: u64) -> bool {
        *self == seq
    }

    fn from_seq(seq: u64) -> (r: Self) {
        seq
    }

    fn verify(&self, seq: u64) -> (r: bool) {
        *self == seq
    }
}

/// What lane `i` of item number `seq` holds: the number plus `i`, counting past
/// the largest word from zero again.
pub open spec fn lane(seq: u64, i: int) -> u64 {
    ((seq + i) % 0x1_0000_0000_0000_0000) as u64
}

impl Payload for [u64; 8] {
    const BYTES: usize = 64;

    open spec fn is_number(&self, seq: u64) -> bool {
        forall|i: int| 0 <= i < 8 ==> #[trigger] self@[i] == lane(seq, i)
    }

    fn from_seq(seq: u64) -> (r: Self) {
        let mut v: [u64; 8] = [0u64; 8];
        let mut i: usize = 0;
        while i < 8
            invariant
                i <= 8,
                forall|j: int| 0 <= j < i ==> #[trigger] v@[j] == lane(seq, j),
            decreases 8 - i,
        {
            v[i] = seq.wrapping_add(i as u64);
            i += 1;
        }
        v
    }

    fn verify(&self, seq: u64) -> (r: bool) {
        let mut i: usize = 0;
        while i < 8
            invariant
                i <= 8,
                forall|j: int| 0 <= j < i ==> #[trigger] self@[j] == lane(seq, j),
            decreases 8 - i,
        {
            if self[i] != seq.wrapping_add(i as u64) {
                assert(self@[i as int] != lane(seq, i as int));
                return false;
            }
            i += 1;
        }
        true
    }
}

/// The first word of an item is its number, and each further word is one more than
/// the word before, counting past the largest from zero again. Any item like that
/// is recognised. A single word is an item too.
pub proof fn law_items_count_up_from_their_number(word: u64, words: [u64; 8], seq: u64)
    ensures
        word.is_number(seq) <==> word == seq,
        words.is_number(seq) <==> words@[0] == seq && forall|i: int|
            0 <= i < 7 ==> #[trigger] words@[i + 1] == if words@[i] == u64::MAX {
                0
            } else {
                words@[i] + 1
            },
{
    assert forall|i: int| 0 <= i < 7 implies lane(seq, i + 1) == if #[trigger] lane(seq, i)
        == u64::MAX {
        0
    } else {
        lane(seq, i) + 1
    } by {}
    if words.is_number(seq) {
        assert forall|i: int| 0 <= i < 7 implies #[trigger] words@[i + 1] == if words@[i]
            == u64::MAX {
            0
        } else {
            words@[i] + 1
        } by {
            assert(words@[i] == lane(seq, i) && words@[i + 1] == lane(seq, i + 1));
        }
    }
    if words@[0] == seq && forall|i: int|
        0 <= i < 7 ==> #[trigger] words@[i + 1] == if words@[i] == u64::MAX {
            0
        } else {
            words@[i] + 1
        } {
        assert forall|i: int| 0 <= i < 8 implies #[trigger] words@[i] == lane(seq, i) by {
            lemma_words_are_lanes(words, seq, i);
        }
    }
}

proof fn lemma_words_are_lanes(words: [u64; 8], seq: u64, n: int)
    requires
        0 <= n < 8,
        words@[0] == seq,
        forall|i: int|
            0 <= i < 7 ==> #[trigger] words@[i + 1] == if words@[i] == u64::MAX {
                0
            } else {
                words@[i] + 1
            },
    ensures
        words@[n] == lane(seq, n),
    decreases n,
{
    if n > 0 {
        lemma_words_are_lanes(words, seq, n - 1);
        assert(words@[(n - 1) + 1] == if words@[n - 1] == u64::MAX {
            0
        } else {
            words@[n - 1] + 1
        });
        assert(lane(seq, n) == if lane(seq, n - 1) == u64::MAX {
            0
        } else {
            lane(seq, n - 1) + 1
        });
    }
}

/// A word takes eight bytes.
pub proof fn law_payloads_know_their_size()
    ensures
        <u64 as Payload>::BYTES == 8,
        <[u64; 8] as Payload>::BYTES == 8 * 8,
{
}

/// A payload is recognised as one number only.
pub proof fn law_payloads_tell_numbers_apart(word: u64, words: [u64; 8], a: u64, b: u64)
    ensures
        word.is_number(a) && word.is_number(b) ==> a == b,
        words.is_number(a) && words.is_number(b) ==> a == b,
{
    if words.is_number(a) && words.is_number(b) {
        assert(words@[0] == lane(a, 0) && words@[0] == lane(b, 0));
    }
}

} // verus!
