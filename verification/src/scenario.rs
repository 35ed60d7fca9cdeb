//! The throughput benchmark's plan: which producer/consumer/capacity mixes it runs, how a
//! mix is labelled, and which values producers send.
use vstd::prelude::*;
use vstd::string::StringSliceAdditionalSpecFns;

verus! {

/// The value that tells a consumer to stop; producers never send it.
pub const SENTINEL: u64 = u64::MAX;

/// How long each scenario runs when no duration is given.
pub const DEFAULT_DURATION_SECS: u64 = 3;

/// One benchmark run: how many producer and consumer threads share a queue of which
/// capacity, for how many seconds.
#[derive(Clone, Copy)]
pub struct Scenario {
    pub producers: usize,
    pub consumers: usize,
    pub capacity: usize,
    pub duration_secs: u64,
}

/// The character of decimal digit `d`.
pub open spec fn digit_char(d: nat) -> char {
    if d == 0 {
        '0'
    } else if d == 1 {
        '1'
    } else if d == 2 {
        '2'
    } else if d == 3 {
        '3'
    } else if d == 4 {
        '4'
    } else if d == 5 {
        '5'
    } else if d == 6 {
        '6'
    } else if d == 7 {
        '7'
    } else if d == 8 {
        '8'
    } else {
        '9'
    }
}

/// `n` written in decimal, without leading zeros.
pub open spec fn decimal(n: nat) -> Seq<char>
    decreases n,
{
    if n < 10 {
        seq![digit_char(n)]
    } else {
        decimal(n / 10).push(digit_char(n % 10))
    }
}

/// The label of a scenario: `p<producers>_c<consumers>_cap<capacity>`.
pub open spec fn spec_label(s: Scenario) -> Seq<char> {
    seq!['p'] + decimal(s.producers as nat) + seq!['_', 'c'] + decimal(s.consumers as nat) + seq![
        '_',
        'c',
        'a',
        'p',
    ] + decimal(s.capacity as nat)
}

/// The producer and consumer counts of the symmetric scenarios.
pub open spec fn symmetric_pairs() -> Seq<usize> {
    seq![1, 2, 4, 8, 16]
}

/// The queue capacities of the symmetric scenarios.
pub open spec fn capacities() -> Seq<usize> {
    seq![64, 256, 1024]
}

/// The `k`-th symmetric scenario: capacities in the outer order, pair counts in the inner.
pub open spec fn symmetric_scenario(k: int, duration_secs: u64) -> Scenario {
    Scenario {
        producers: symmetric_pairs()[k % 5],
        consumers: symmetric_pairs()[k % 5],
        capacity: capacities()[k / 5],
        duration_secs,
    }
}

/// Every scenario the benchmark runs, in order: each capacity with each symmetric pair
/// count, then eight producers against two consumers and two against eight, at 256.
pub open spec fn spec_scenarios(duration_secs: u64) -> Seq<Scenario> {
    Seq::new(15, |k: int| symmetric_scenario(k, duration_secs)) + seq![
        Scenario { producers: 8, consumers: 2, capacity: 256, duration_secs },
        Scenario { producers: 2, consumers: 8, capacity: 256, duration_secs },
    ]
}

/// The value a producer sends after `current`: 1024 further on, wrapping around, except
/// that the sentinel is replaced by the producer's own number.
pub open spec fn spec_next_producer_value(current: u64, producer_id: usize) -> u64 {
    let next = ((current + 1024) % 0x1_0000_0000_0000_0000) as u64;
    if next == SENTINEL {
        producer_id as u64
    } else {
        next
    }
}

/// The `k`-th value producer `producer_id` sends; it starts from its own number.
pub open spec fn producer_value(producer_id: usize, k: nat) -> u64
    decreases k,
{
    if k == 0 {
        producer_id as u64
    } else {
        spec_next_producer_value(producer_value(producer_id, (k - 1) as nat), producer_id)
    }
}

impl Scenario {
    /// A scenario from its four numbers.
    pub fn new(producers: usize, consumers: usize, capacity: usize, duration_secs: u64) -> (s:
        Self)
        ensures
            s == (Scenario { producers, consumers, capacity, duration_secs }),
    {
        Self { producers, consumers, capacity, duration_secs }
    }

    /// How many threads line up before a run starts: every producer, every consumer, and
    /// the thread that drives the run.
    pub fn thread_count(&self) -> (count: usize)
        requires
            self.producers + self.consumers + 1 <= usize::MAX,
        ensures
            count == self.producers + self.consumers + 1,
    {
        self.producers + self.consumers + 1
    }

    /// The scenario's name, `p<producers>_c<consumers>_cap<capacity>`.
    pub fn label(&self) -> (label: String)
        ensures
            label@ == spec_label(*self),
    {
        let mut label = String::new();
        label.append("p");
        append_decimal(&mut label, self.producers);
        label.append("_c");
        append_decimal(&mut label, self.consumers);
        label.append("_cap");
        append_decimal(&mut label, self.capacity);
        proof {
            reveal_strlit("p");
            reveal_strlit("_c");
            reveal_strlit("_cap");
            assert(label@ =~= spec_label(*self));
        }
        label
    }
}

/// Whether `needle` occurs in `text` as a run of consecutive bytes.
pub open spec fn occurs_in(needle: Seq<u8>, text: Seq<u8>) -> bool {
    exists|i: int|
        0 <= i && i + needle.len() <= text.len() && #[trigger] text.subrange(i, i + needle.len())
            == needle
}

/// Whether a scenario with label `label` is run under `filter`: every scenario when there is
/// no filter, otherwise those whose label contains the filter text (`str::contains`).
pub open spec fn spec_selected(label: Seq<u8>, filter: Option<Seq<u8>>) -> bool {
    match filter {
        None => true,
        Some(needle) => occurs_in(needle, label),
    }
}

/// Whether the scenario labelled `label` is run under the filter `filter`.
pub fn selected(label: &str, filter: Option<&str>) -> (run: bool)
    ensures
        run == spec_selected(
            label.spec_bytes(),
            match filter {
                Some(f) => Some(f.spec_bytes()),
                None => None,
            },
        ),
{
    match filter {
        None => true,
        Some(needle) => contains_bytes(label.as_bytes(), needle.as_bytes()),
    }
}

/// Whether `needle` occurs in `text`, by trying each starting position in turn.
fn contains_bytes(text: &[u8], needle: &[u8]) -> (found: bool)
    ensures
        found == occurs_in(needle@, text@),
{
    if needle.len() > text.len() {
        return false;
    }
    let last = text.len() - needle.len();
    assert(text@.len() == text.len());
    let mut i: usize = 0;
    while i <= last
        invariant
            text@.len() <= usize::MAX,
            needle@.len() <= text@.len(),
            i <= last + 1,
            last == text@.len() - needle@.len(),
            forall|j: int| 0 <= j < i ==> #[trigger] text@.subrange(j, j + needle@.len()) != needle@,
        decreases last + 1 - i,
    {
        let mut k: usize = 0;
        let mut same = true;
        while k < needle.len() && same
            invariant
                text@.len() <= usize::MAX,
                needle@.len() <= text@.len(),
                i <= last,
                last == text@.len() - needle@.len(),
                k <= needle@.len(),
                same ==> forall|l: int| 0 <= l < k ==> text@[i + l] == needle@[l],
                !same ==> k > 0 && text@[i + k - 1] != needle@[k - 1],
            decreases needle.len() - k + (if same { 1int } else { 0int }),
        {
            if text[i + k] != needle[k] {
                same = false;
            }
            k = k + 1;
        }
        if same {
            assert(text@.subrange(i as int, i + needle@.len()) =~= needle@);
            return true;
        }
        assert(text@.subrange(i as int, i + needle@.len())[k - 1] != needle@[k - 1]);
        i = i + 1;
    }
    assert forall|j: int| 0 <= j && j + needle@.len() <= text@.len() implies #[trigger] text@.subrange(
        j,
        j + needle@.len(),
    ) != needle@ by {
        assert(j < i);
    }
    false
}

/// The one-character string of decimal digit `d`.
fn digit_str(d: usize) -> (s: &'static str)
    requires
        d < 10,
    ensures
        s@ == seq![digit_char(d as nat)],
{
    proof {
        reveal_strlit("0");
        reveal_strlit("1");
        reveal_strlit("2");
        reveal_strlit("3");
        reveal_strlit("4");
        reveal_strlit("5");
        reveal_strlit("6");
        reveal_strlit("7");
        reveal_strlit("8");
        reveal_strlit("9");
    }
    if d == 0 {
        "0"
    } else if d == 1 {
        "1"
    } else if d == 2 {
        "2"
    } else if d == 3 {
        "3"
    } else if d == 4 {
        "4"
    } else if d == 5 {
        "5"
    } else if d == 6 {
        "6"
    } else if d == 7 {
        "7"
    } else if d == 8 {
        "8"
    } else {
        "9"
    }
}

/// Appends `n` in decimal to `out`.
fn append_decimal(out: &mut String, n: usize)
    ensures
        final(out)@ == old(out)@ + decimal(n as nat),
    decreases n,
{
    if n >= 10 {
        append_decimal(out, n / 10);
    }
    out.append(digit_str(n % 10));
    proof {
        if n >= 10 {
            assert(old(out)@ + decimal(n as nat) =~= old(out)@ + decimal((n / 10) as nat) + seq![
                digit_char((n % 10) as nat),
            ]);
        } else {
            assert(decimal(n as nat) == seq![digit_char(n as nat)]);
        }
    }
}

/// The scenarios to run, each lasting `duration_override` seconds, or
/// `DEFAULT_DURATION_SECS` when none is given.
pub fn scenarios(duration_override: Option<u64>) -> (plan: Vec<Scenario>)
    ensures
        plan@ == spec_scenarios(
            match duration_override {
                Some(d) => d,
                None => DEFAULT_DURATION_SECS,
            },
        ),
{
    let duration_secs = duration_override.unwrap_or(DEFAULT_DURATION_SECS);
    let capacity_list: [usize; 3] = [64, 256, 1024];
    let pair_list: [usize; 5] = [1, 2, 4, 8, 16];
    assert(capacity_list@ =~= capacities());
    assert(pair_list@ =~= symmetric_pairs());
    let mut plan: Vec<Scenario> = Vec::new();

    let mut c: usize = 0;
    while c < 3
        invariant
            c <= 3,
            capacity_list@ == capacities(),
            pair_list@ == symmetric_pairs(),
            plan@.len() == 5 * c,
            forall|k: int| 0 <= k < plan@.len() ==> plan@[k] == symmetric_scenario(k, duration_secs),
        decreases 3 - c,
    {
        let capacity = capacity_list[c];
        let mut p: usize = 0;
        while p < 5
            invariant
                c < 3,
                p <= 5,
                capacity == capacities()[c as int],
                pair_list@ == symmetric_pairs(),
                plan@.len() == 5 * c + p,
                forall|k: int|
                    0 <= k < plan@.len() ==> plan@[k] == symmetric_scenario(k, duration_secs),
            decreases 5 - p,
        {
            let pairs = pair_list[p];
            plan.push(Scenario::new(pairs, pairs, capacity, duration_secs));
            proof {
                let k = 5 * c + p;
                assert(k / 5 == c as int && k % 5 == p as int) by (nonlinear_arith)
                    requires
                        k == 5 * c + p,
                        p < 5,
                ;
            }
            p = p + 1;
        }
        c = c + 1;
    }

    plan.push(Scenario::new(8, 2, 256, duration_secs));
    plan.push(Scenario::new(2, 8, 256, duration_secs));
    assert(plan@ =~= spec_scenarios(duration_secs));
    plan
}

/// The value a producer sends after `current`.
pub fn next_producer_value(current: u64, producer_id: usize) -> (next: u64)
    ensures
        next == spec_next_producer_value(current, producer_id),
{
    let next = current.wrapping_add(1024);
    if next == SENTINEL {
        producer_id as u64
    } else {
        next
    }
}

/// Whether `c` is one of the decimal digits `0` to `9`.
pub open spec fn is_digit(c: char) -> bool {
    48 <= (c as int) <= 57
}

/// The number that a string of decimal digits stands for.
pub open spec fn decimal_value(digits: Seq<char>) -> nat
    decreases digits.len(),
{
    if digits.len() == 0 {
        0
    } else {
        decimal_value(digits.drop_last()) * 10 + ((digits.last() as int - 48) as nat)
    }
}

/// The digit character of `d` is the `d`-th character after `0`.
proof fn lemma_digit_char_code(d: nat)
    requires
        d < 10,
    ensures
        digit_char(d) as int == 48 + d,
{
}

/// `decimal(n)` is a non-empty string of digits that stands for `n`.
pub proof fn lemma_decimal_reads_back(n: nat)
    ensures
        decimal(n).len() > 0,
        digits_only(decimal(n)),
        decimal_value(decimal(n)) == n,
    decreases n,
{
    if n >= 10 {
        lemma_decimal_reads_back(n / 10);
        let d = decimal(n);
        lemma_digit_char_code(n % 10);
        assert(d.drop_last() =~= decimal(n / 10));
        assert(d.last() == digit_char(n % 10));
        assert(decimal_value(d) == decimal_value(decimal(n / 10)) * 10 + ((d.last() as int - 48) as nat));
        assert(decimal_value(d) == (n / 10) * 10 + n % 10);
        assert(n == (n / 10) * 10 + n % 10);
    } else {
        let d = decimal(n);
        lemma_digit_char_code(n);
        assert(d.drop_last() =~= Seq::<char>::empty());
        assert(decimal_value(d) == decimal_value(Seq::<char>::empty()) * 10 + ((d.last() as int - 48) as nat));
    }
}

/// Different numbers have different decimal strings.
pub proof fn lemma_decimal_injective(n: nat, m: nat)
    requires
        decimal(n) == decimal(m),
    ensures
        n == m,
{
    lemma_decimal_reads_back(n);
    lemma_decimal_reads_back(m);
}

/// Whether every character of `s` is a decimal digit.
pub open spec fn digits_only(s: Seq<char>) -> bool {
    forall|i: int| 0 <= i < s.len() ==> is_digit(#[trigger] s[i])
}

/// A label put together from the decimal strings of its three counts.
spec fn label_text(x: Seq<char>, y: Seq<char>, z: Seq<char>) -> Seq<char> {
    seq!['p'] + x + seq!['_', 'c'] + y + seq!['_', 'c', 'a', 'p'] + z
}

/// A string of digits followed by text that starts with `_` splits in one way only.
proof fn lemma_split_at_underscore(x1: Seq<char>, r1: Seq<char>, x2: Seq<char>, r2: Seq<char>)
    requires
        digits_only(x1),
        digits_only(x2),
        r1.len() > 0 && r1[0] == '_',
        r2.len() > 0 && r2[0] == '_',
        x1 + r1 == x2 + r2,
    ensures
        x1 == x2,
        r1 == r2,
{
    let whole = x1 + r1;
    if x1.len() < x2.len() {
        assert(whole[x1.len() as int] == r1[0]);
        assert(whole[x1.len() as int] == x2[x1.len() as int]);
        assert(is_digit(x2[x1.len() as int]));
    } else if x2.len() < x1.len() {
        assert(whole[x2.len() as int] == r2[0]);
        assert(whole[x2.len() as int] == x1[x2.len() as int]);
        assert(is_digit(x1[x2.len() as int]));
    }
    assert(x1 =~= whole.subrange(0, x1.len() as int));
    assert(x2 =~= whole.subrange(0, x1.len() as int));
    assert(r1 =~= whole.subrange(x1.len() as int, whole.len() as int));
    assert(r2 =~= whole.subrange(x1.len() as int, whole.len() as int));
}

/// A label's text determines the three digit strings it was put together from.
proof fn lemma_label_text_parts(
    d1: Seq<char>,
    d2: Seq<char>,
    d3: Seq<char>,
    e1: Seq<char>,
    e2: Seq<char>,
    e3: Seq<char>,
)
    requires
        digits_only(d1),
        digits_only(d2),
        digits_only(e1),
        digits_only(e2),
        label_text(d1, d2, d3) == label_text(e1, e2, e3),
    ensures
        d1 == e1,
        d2 == e2,
        d3 == e3,
{
    let cap_mark = seq!['_', 'c', 'a', 'p'];
    let r2a = cap_mark + d3;
    let r2b = cap_mark + e3;
    let r1a = seq!['_', 'c'] + (d2 + r2a);
    let r1b = seq!['_', 'c'] + (e2 + r2b);
    assert(label_text(d1, d2, d3).drop_first() =~= d1 + r1a);
    assert(label_text(e1, e2, e3).drop_first() =~= e1 + r1b);
    lemma_split_at_underscore(d1, r1a, e1, r1b);
    assert(r1a.subrange(2, r1a.len() as int) =~= d2 + r2a);
    assert(r1b.subrange(2, r1b.len() as int) =~= e2 + r2b);
    lemma_split_at_underscore(d2, r2a, e2, r2b);
    assert(r2a.subrange(4, r2a.len() as int) =~= d3);
    assert(r2b.subrange(4, r2b.len() as int) =~= e3);
}

/// Labels name scenarios by their counts: two scenarios have the same label exactly when
/// they have the same producers, consumers and capacity (the duration plays no part).
pub proof fn lemma_label_identifies_counts(a: Scenario, b: Scenario)
    ensures
        spec_label(a) == spec_label(b) <==> (a.producers == b.producers && a.consumers
            == b.consumers && a.capacity == b.capacity),
{
    if spec_label(a) == spec_label(b) {
        let (d1, d2, d3) = (
            decimal(a.producers as nat),
            decimal(a.consumers as nat),
            decimal(a.capacity as nat),
        );
        let (e1, e2, e3) = (
            decimal(b.producers as nat),
            decimal(b.consumers as nat),
            decimal(b.capacity as nat),
        );
        lemma_decimal_reads_back(a.producers as nat);
        lemma_decimal_reads_back(a.consumers as nat);
        lemma_decimal_reads_back(b.producers as nat);
        lemma_decimal_reads_back(b.consumers as nat);
        assert(spec_label(a) == label_text(d1, d2, d3));
        assert(spec_label(b) == label_text(e1, e2, e3));
        lemma_label_text_parts(d1, d2, d3, e1, e2, e3);
        lemma_decimal_injective(a.producers as nat, b.producers as nat);
        lemma_decimal_injective(a.consumers as nat, b.consumers as nat);
        lemma_decimal_injective(a.capacity as nat, b.capacity as nat);
    }
}

/// What a consumer does with a value it has taken from the queue.
#[derive(Clone, Copy, Debug, PartialEq, Eq)]
pub enum ConsumerStep {
    /// The value was the sentinel: the consumer stops.
    Stop,
    /// The consumer goes on, having counted this many values in the measured window.
    Continue(u64),
}

/// The consumer's step: stop on the sentinel; otherwise go on, counting the value when it
/// was taken inside the measured window.
pub open spec fn spec_consumer_step(value: u64, measuring: bool, counted: u64) -> ConsumerStep {
    if value == SENTINEL {
        ConsumerStep::Stop
    } else if measuring {
        ConsumerStep::Continue((counted + 1) as u64)
    } else {
        ConsumerStep::Continue(counted)
    }
}

/// Decides what a consumer does with `value`, given whether the run is measuring and how
/// many values it has counted so far; the count must have room for one more.
pub fn consumer_step(value: u64, measuring: bool, counted: u64) -> (step: ConsumerStep)
    requires
        value != SENTINEL && measuring ==> counted < u64::MAX,
    ensures
        step == spec_consumer_step(value, measuring, counted),
{
    if value == SENTINEL {
        ConsumerStep::Stop
    } else if measuring {
        ConsumerStep::Continue(counted + 1)
    } else {
        ConsumerStep::Continue(counted)
    }
}

/// A consumer stops exactly on the sentinel, and so never on a value a producer sends.
pub proof fn lemma_consumer_stops_only_on_sentinel(
    producer_id: usize,
    k: nat,
    measuring: bool,
    counted: u64,
)
    requires
        (producer_id as u64) != SENTINEL,
    ensures
        spec_consumer_step(SENTINEL, measuring, counted) == ConsumerStep::Stop,
        spec_consumer_step(producer_value(producer_id, k), measuring, counted) != ConsumerStep::Stop,
{
    lemma_producers_never_send_sentinel(producer_id, k);
}

/// The scenarios of the plan all have different labels, so each line of the benchmark's
/// output names its scenario unambiguously.
pub proof fn lemma_plan_labels_distinct(duration_secs: u64, i: int, j: int)
    requires
        0 <= i < j < 17,
    ensures
        spec_label(spec_scenarios(duration_secs)[i]) != spec_label(spec_scenarios(duration_secs)[j]),
{
    let plan = spec_scenarios(duration_secs);
    let (a, b) = (plan[i], plan[j]);
    lemma_label_identifies_counts(a, b);
    let pairs = symmetric_pairs();
    let caps = capacities();
    assert(pairs[0] == 1 && pairs[1] == 2 && pairs[2] == 4 && pairs[3] == 8 && pairs[4] == 16);
    assert(caps[0] == 64 && caps[1] == 256 && caps[2] == 1024);
    if j < 15 {
        assert(a == symmetric_scenario(i, duration_secs));
        assert(b == symmetric_scenario(j, duration_secs));
        assert(i == 5 * (i / 5) + i % 5);
        assert(j == 5 * (j / 5) + j % 5);
        assert(i % 5 != j % 5 || i / 5 != j / 5);
    } else if i < 15 {
        assert(a == symmetric_scenario(i, duration_secs));
        assert(a.producers == a.consumers);
    }
}

/// Whether byte `b` is an ASCII decimal digit.
pub open spec fn is_digit_byte(b: u8) -> bool {
    48 <= b <= 57
}

/// The number that a string of ASCII decimal digits stands for.
pub open spec fn digits_value(digits: Seq<u8>) -> nat
    decreases digits.len(),
{
    if digits.len() == 0 {
        0
    } else {
        digits_value(digits.drop_last()) * 10 + ((digits.last() - 48) as nat)
    }
}

/// The digits of an unsigned number's text: the text without one leading `+`.
pub open spec fn unsigned_digits(text: Seq<u8>) -> Seq<u8> {
    if text.len() > 0 && text[0] == 43 {
        text.drop_first()
    } else {
        text
    }
}

/// The `u64` that `text` spells, as `u64::from_str` reads it: an optional `+`, then one or
/// more ASCII digits whose value fits in a `u64`; anything else spells no number.
pub open spec fn spec_parse_u64(text: Seq<u8>) -> Option<u64> {
    let digits = unsigned_digits(text);
    if digits.len() > 0 && (forall|i: int| 0 <= i < digits.len() ==> is_digit_byte(
        #[trigger] digits[i],
    )) && digits_value(digits) <= u64::MAX {
        Some(digits_value(digits) as u64)
    } else {
        None
    }
}

/// A string of digits stands for at least as much as each of its prefixes.
proof fn lemma_digits_value_grows(digits: Seq<u8>, k: int)
    requires
        0 <= k <= digits.len(),
        forall|i: int| 0 <= i < digits.len() ==> is_digit_byte(#[trigger] digits[i]),
    ensures
        digits_value(digits.subrange(0, k)) <= digits_value(digits),
    decreases digits.len(),
{
    if k < digits.len() {
        let shorter = digits.drop_last();
        assert(shorter.subrange(0, k) =~= digits.subrange(0, k));
        assert forall|i: int| 0 <= i < shorter.len() implies is_digit_byte(#[trigger] shorter[i]) by {
            assert(shorter[i] == digits[i]);
        }
        lemma_digits_value_grows(shorter, k);
    } else {
        assert(digits.subrange(0, k) =~= digits);
    }
}

/// The number of seconds `text` spells, read as `u64::from_str` reads it, or `None` when it
/// spells none.
pub fn parse_duration_secs(text: &str) -> (secs: Option<u64>)
    ensures
        secs == spec_parse_u64(text.spec_bytes()),
{
    let bytes = text.as_bytes();
    let ghost digits = unsigned_digits(bytes@);
    let start: usize = if bytes.len() > 0 && bytes[0] == 43 {
        1
    } else {
        0
    };
    assert(digits =~= bytes@.subrange(start as int, bytes@.len() as int));
    if start == bytes.len() {
        return None;
    }
    let mut value: u64 = 0;
    let mut i: usize = start;
    while i < bytes.len()
        invariant
            start <= i <= bytes@.len(),
            bytes@ == text.spec_bytes(),
            digits == unsigned_digits(text.spec_bytes()),
            digits == bytes@.subrange(start as int, bytes@.len() as int),
            forall|j: int| 0 <= j < i - start ==> is_digit_byte(#[trigger] digits[j]),
            value == digits_value(digits.subrange(0, i - start)),
        decreases bytes.len() - i,
    {
        let b = bytes[i];
        assert(b == digits[i - start]);
        if b < 48 || b > 57 {
            assert(!is_digit_byte(digits[i - start]));
            return None;
        }
        let d = (b - 48) as u64;
        let ghost prefix = digits.subrange(0, i - start + 1);
        assert(prefix.drop_last() =~= digits.subrange(0, i - start));
        assert(prefix.last() == b);
        assert(digits_value(prefix) == value * 10 + d);
        let next = match value.checked_mul(10) {
            Some(tens) => tens.checked_add(d),
            None => None,
        };
        match next {
            Some(n) => {
                value = n;
            },
            None => {
                proof {
                    assert(digits_value(prefix) > u64::MAX);
                    if forall|j: int| 0 <= j < digits.len() ==> is_digit_byte(#[trigger] digits[j]) {
                        lemma_digits_value_grows(digits, i - start + 1);
                    }
                }
                return None;
            },
        }
        i = i + 1;
    }
    assert(digits.subrange(0, i - start) =~= digits);
    Some(value)
}

/// Producers never send the sentinel, so a consumer stops only when told to: for a
/// producer whose number is not the sentinel, every value it sends differs from it.
pub proof fn lemma_producers_never_send_sentinel(producer_id: usize, k: nat)
    requires
        (producer_id as u64) != SENTINEL,
    ensures
        producer_value(producer_id, k) != SENTINEL,
    decreases k,
{
    if k > 0 {
        lemma_producers_never_send_sentinel(producer_id, (k - 1) as nat);
    }
}

/// Producers numbered below 1024 send disjoint streams: every value producer `p` sends is
/// `p` modulo 1024, so two different producers never send the same value.
pub proof fn lemma_producer_streams_disjoint(producer_id: usize, k: nat)
    requires
        producer_id < 1024,
    ensures
        producer_value(producer_id, k) % 1024 == producer_id,
    decreases k,
{
    if k > 0 {
        let prev = producer_value(producer_id, (k - 1) as nat);
        lemma_producer_streams_disjoint(producer_id, (k - 1) as nat);
        let sum = prev + 1024;
        assert(((sum % 0x1_0000_0000_0000_0000) as u64) % 1024 == prev % 1024) by (nonlinear_arith)
            requires
                sum == prev + 1024,
                0 <= prev < 0x1_0000_0000_0000_0000,
        ;
    }
}

} // verus!
