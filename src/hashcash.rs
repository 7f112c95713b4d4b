//! The proof-of-work puzzle: its canonical text, its digest, the count of
//! leading zero nibbles, validation and the brute-force solver.
use base64::engine::general_purpose;
use base64::Engine;
use sha2::Digest;
use vstd::prelude::*;

verus! {

/// The character of a decimal digit.
pub open spec fn digit_char(d: int) -> char {
    seq!['0', '1', '2', '3', '4', '5', '6', '7', '8', '9'][d]
}

/// Decimal digits of a natural number, most significant first, without
/// leading zeros ("0" for zero).
pub open spec fn digits_of(n: nat) -> Seq<char>
    decreases n,
{
    if n < 10 {
        seq![digit_char(n as int)]
    } else {
        digits_of(n / 10).push(digit_char((n % 10) as int))
    }
}

/// Decimal text of an integer, with a leading '-' when negative.
pub open spec fn decimal_of(n: int) -> Seq<char> {
    if n < 0 {
        seq!['-'] + digits_of((-n) as nat)
    } else {
        digits_of(n as nat)
    }
}

/// Standard base64 (with padding) of the UTF-8 bytes of a text.
pub uninterp spec fn base64_of(s: Seq<char>) -> Seq<char>;

/// SHA-256 digest of the UTF-8 bytes of a text.
pub uninterp spec fn sha256_of(s: Seq<char>) -> Seq<u8>;

/// Relies on `i64`'s `Display` (through `to_string`): decimal digits, '-' when negative.
#[verifier::external_body]
fn decimal_text(n: i64) -> (r: String)
    ensures
        r@ == decimal_of(n as int),
{
    n.to_string()
}

/// Relies on base64's `general_purpose::STANDARD.encode`; it panics only when
/// the encoded length overflows `usize`, which the bound rules out.
#[verifier::external_body]
fn base64_text(s: &str) -> (r: String)
    requires
        s@.len() < 1000,
    ensures
        r@ == base64_of(s@),
{
    general_purpose::STANDARD.encode(s)
}

/// Relies on sha2's `Sha256::digest`: a 32-byte digest of the input bytes.
#[verifier::external_body]
fn sha256_digest(s: &str) -> (r: Vec<u8>)
    ensures
        r@ == sha256_of(s@),
        r@.len() == 32,
{
    sha2::Sha256::digest(s.as_bytes()).to_vec()
}

/// Relies on chrono's `Utc::now().timestamp()`: the current time in seconds;
/// nothing is known of its value.
#[verifier::external_body]
fn current_timestamp() -> (r: i64) {
    chrono::Utc::now().timestamp()
}

/// Relies on rand's `random::<i32>()`: any `i32`.
#[verifier::external_body]
fn random_nonce() -> (r: i32) {
    rand::random::<i32>()
}

/// Number of zero nibbles at the start of a byte string, most significant
/// nibble first; the high nibble of a byte is read before its low nibble, and
/// the count stops at the first nibble that is not zero.
pub open spec fn zero_nibbles(s: Seq<u8>) -> nat
    decreases s.len(),
{
    if s.len() == 0 {
        0
    } else if s[0] >= 16 {
        0
    } else if s[0] != 0 {
        1
    } else {
        2 + zero_nibbles(s.drop_first())
    }
}

/// Whether a digest meets a difficulty.
pub open spec fn meets_difficulty(hash: Seq<u8>, zero_count: int) -> bool {
    zero_nibbles(hash) >= zero_count
}

/// One proof-of-work challenge.
#[derive(Debug, Clone)]
pub struct Hashcash {
    pub version: i32,
    /// Leading zero nibbles the digest must have.
    pub zero_count: i32,
    /// Time of issue, in seconds.
    pub date: i64,
    /// Address of the peer the puzzle is bound to.
    pub resource: String,
    pub ext: String,
    /// Random value drawn once per puzzle.
    pub rand: i32,
    /// The value the solver changes.
    pub counter: i32,
}

impl PartialEq for Hashcash {
    fn eq(&self, o: &Hashcash) -> (r: bool) {
        self.version == o.version && self.zero_count == o.zero_count && self.date == o.date
            && self.resource == o.resource && self.ext == o.ext && self.rand == o.rand
            && self.counter == o.counter
    }
}

impl vstd::std_specs::cmp::PartialEqSpecImpl for Hashcash {
    open spec fn obeys_eq_spec() -> bool {
        true
    }

    open spec fn eq_spec(&self, o: &Hashcash) -> bool {
        same_but_counter(*self, *o) && self.counter == o.counter
    }
}

/// Canonical text of a puzzle with the given counter:
/// `version:zero_count:date:resource:base64(rand):ext:base64(counter)`.
pub open spec fn stamp_text(h: Hashcash, counter: int) -> Seq<char> {
    decimal_of(h.version as int) + seq![':'] + decimal_of(h.zero_count as int) + seq![':']
        + decimal_of(h.date as int) + seq![':'] + h.resource@ + seq![':'] + base64_of(
        decimal_of(h.rand as int),
    ) + seq![':'] + h.ext@ + seq![':'] + base64_of(decimal_of(counter))
}

/// Canonical text of a puzzle.
pub open spec fn canonical_text(h: Hashcash) -> Seq<char> {
    stamp_text(h, h.counter as int)
}

/// Digest of a puzzle.
pub open spec fn digest_of(h: Hashcash) -> Seq<u8> {
    sha256_of(canonical_text(h))
}

/// Whether the puzzle, with its counter set to `counter`, is solved.
pub open spec fn valid_at(h: Hashcash, counter: int) -> bool {
    meets_difficulty(sha256_of(stamp_text(h, counter)), h.zero_count as int)
}

/// Whether the puzzle is solved.
pub open spec fn puzzle_valid(h: Hashcash) -> bool {
    valid_at(h, h.counter as int)
}

/// Whether the counter of a puzzle can be raised, within `max_iter`, to a
/// value that solves it.
pub open spec fn solvable_within(h: Hashcash, max_iter: int) -> bool {
    exists|c: int| h.counter < c <= max_iter && #[trigger] valid_at(h, c)
}

/// The two puzzles agree on every field but the counter.
pub open spec fn same_but_counter(a: Hashcash, b: Hashcash) -> bool {
    &&& a.version == b.version
    &&& a.zero_count == b.zero_count
    &&& a.date == b.date
    &&& a.resource@ == b.resource@
    &&& a.ext@ == b.ext@
    &&& a.rand == b.rand
}

/// The solver ran out of attempts.
#[derive(PartialEq, Eq, Structural, Debug, Clone, Copy)]
pub enum WorkError {
    MaxIterationsExceeded,
}

/// Count of leading zero nibbles of a byte string.
pub fn leading_zero_nibbles(hash: &[u8]) -> (r: u128)
    ensures
        r == zero_nibbles(hash@),
{
    let n = hash.len();
    let mut i: usize = 0;
    assert(hash@.subrange(0, n as int) =~= hash@);
    while i < n && hash[i] == 0
        invariant
            n == hash@.len(),
            i <= n,
            zero_nibbles(hash@) == 2 * i + zero_nibbles(hash@.subrange(i as int, n as int)),
        decreases n - i,
    {
        proof {
            let rest = hash@.subrange(i as int, n as int);
            assert(rest.drop_first() =~= hash@.subrange(i + 1, n as int));
        }
        i = i + 1;
    }
    let whole: u128 = 2 * (i as u128);
    if i < n {
        proof {
            let rest = hash@.subrange(i as int, n as int);
            assert(rest[0] == hash@[i as int]);
        }
        if hash[i] < 16 {
            whole + 1
        } else {
            whole
        }
    } else {
        proof {
            assert(hash@.subrange(i as int, n as int).len() == 0);
        }
        whole
    }
}

impl Hashcash {
    /// A puzzle with the given time of issue and random value, counter zero.
    pub fn issue(zero_count: i32, resource: String, date: i64, rand: i32) -> (r: Hashcash)
        ensures
            r.version == 1,
            r.zero_count == zero_count,
            r.date == date,
            r.resource@ == resource@,
            r.ext@ == Seq::<char>::empty(),
            r.rand == rand,
            r.counter == 0,
    {
        Hashcash { version: 1, zero_count, date, resource, ext: String::new(), rand, counter: 0 }
    }

    /// A fresh puzzle, issued now, with a random value of its own.
    pub fn new(zero_count: i32, resource: String) -> (r: Hashcash)
        ensures
            r.version == 1,
            r.zero_count == zero_count,
            r.resource@ == resource@,
            r.ext@ == Seq::<char>::empty(),
            r.counter == 0,
    {
        let date = current_timestamp();
        let rand = random_nonce();
        Hashcash::issue(zero_count, resource, date, rand)
    }

    /// The canonical text of the puzzle.
    pub fn to_string(&self) -> (r: String)
        ensures
            r@ == canonical_text(*self),
    {
        self.text_with_counter(self.counter)
    }

    fn text_with_counter(&self, counter: i32) -> (r: String)
        ensures
            r@ == stamp_text(*self, counter as int),
    {
        let rand_text = decimal_text(self.rand as i64);
        let counter_text = decimal_text(counter as i64);
        proof {
            lemma_decimal_short(self.rand as int);
            lemma_decimal_short(counter as int);
        }
        let mut s = decimal_text(self.version as i64);
        s.append(":");
        s.append(decimal_text(self.zero_count as i64).as_str());
        s.append(":");
        s.append(decimal_text(self.date).as_str());
        s.append(":");
        s.append(self.resource.as_str());
        s.append(":");
        s.append(base64_text(rand_text.as_str()).as_str());
        s.append(":");
        s.append(self.ext.as_str());
        s.append(":");
        s.append(base64_text(counter_text.as_str()).as_str());
        proof {
            reveal_strlit(":");
            assert(s@ =~= stamp_text(*self, counter as int));
        }
        s
    }

    /// SHA-256 digest of the canonical text.
    pub fn hash(&self) -> (r: Vec<u8>)
        ensures
            r@ == digest_of(*self),
            r@.len() == 32,
    {
        let s = self.text_with_counter(self.counter);
        sha256_digest(s.as_str())
    }

    /// Whether a digest has at least `zero_count` leading zero nibbles.
    pub fn is_hash_valid(hash: Vec<u8>, zero_count: i32) -> (r: bool)
        ensures
            r == meets_difficulty(hash@, zero_count as int),
    {
        let count = leading_zero_nibbles(hash.as_slice());
        if zero_count < 0 {
            true
        } else {
            count >= zero_count as u128
        }
    }

    /// Whether the puzzle's digest meets its difficulty.
    pub fn is_valid(&self) -> (r: bool)
        ensures
            r == puzzle_valid(*self),
    {
        let h = self.hash();
        Hashcash::is_hash_valid(h, self.zero_count)
    }

    /// Raises the counter one step at a time until the puzzle is solved or the
    /// counter passes `max_iter`. Succeeds exactly when some counter above the
    /// starting one and not above `max_iter` solves the puzzle, and then stops
    /// at the first such counter.
    pub fn try_work(&mut self, max_iter: i32) -> (r: Result<(), WorkError>)
        requires
            max_iter < i32::MAX,
        ensures
            same_but_counter(*final(self), *old(self)),
            r is Ok <==> solvable_within(*old(self), max_iter as int),
            r is Ok ==> {
                &&& puzzle_valid(*final(self))
                &&& old(self).counter < final(self).counter <= max_iter
                &&& forall|c: int|
                    old(self).counter < c < final(self).counter ==> !#[trigger] valid_at(
                        *old(self),
                        c,
                    )
            },
            r is Err ==> final(self).counter == if old(self).counter > max_iter {
                old(self).counter as int
            } else {
                max_iter + 1
            },
    {
        let ghost start = self.counter as int;
        let mut found = false;
        while !found && self.counter <= max_iter
            invariant
                same_but_counter(*self, *old(self)),
                start == old(self).counter,
                max_iter < i32::MAX,
                start <= self.counter,
                self.counter <= max_iter + 1 || self.counter == start,
                found ==> start < self.counter && valid_at(*old(self), self.counter as int),
                forall|c: int| start < c < self.counter ==> !#[trigger] valid_at(*old(self), c),
                !found ==> forall|c: int|
                    start < c <= self.counter ==> !#[trigger] valid_at(*old(self), c),
            decreases max_iter + 1 - self.counter,
        {
            self.counter = self.counter + 1;
            found = self.is_valid();
            proof {
                assert(stamp_text(*self, self.counter as int) == stamp_text(
                    *old(self),
                    self.counter as int,
                ));
            }
        }
        if self.counter > max_iter {
            proof {
                assert forall|c: int| start < c <= max_iter implies !#[trigger] valid_at(
                    *old(self),
                    c,
                ) by {
                    if found {
                        assert(c < self.counter);
                    }
                }
            }
            Err(WorkError::MaxIterationsExceeded)
        } else {
            proof {
                assert(valid_at(*old(self), self.counter as int));
                assert(stamp_text(*self, self.counter as int) == stamp_text(
                    *old(self),
                    self.counter as int,
                ));
            }
            Ok(())
        }
    }
}

/// Decimal text of an `i32` is short.
proof fn lemma_decimal_short(n: int)
    requires
        -0x8000_0000 <= n < 0x8000_0000,
    ensures
        decimal_of(n).len() < 1000,
{
    let m: nat = if n < 0 { (-n) as nat } else { n as nat };
    reveal_with_fuel(pow10, 11);
    assert(pow10(10) == 10_000_000_000);
    lemma_digits_len(m, 10);
}

/// A number below 10^k has at most k digits.
proof fn lemma_digits_len(n: nat, k: nat)
    requires
        k >= 1,
        n < pow10(k),
    ensures
        digits_of(n).len() <= k,
    decreases k,
{
    if n >= 10 {
        let j = (k - 1) as nat;
        if j == 0 {
            reveal_with_fuel(pow10, 2);
            assert(pow10(1) == 10);
        }
        assert(n / 10 < pow10(j)) by (nonlinear_arith)
            requires
                n < 10 * pow10(j),
        ;
        lemma_digits_len(n / 10, j);
    }
}

/// 10 to the power `k`.
pub open spec fn pow10(k: nat) -> nat
    decreases k,
{
    if k == 0 {
        1
    } else {
        10 * pow10((k - 1) as nat)
    }
}

} // verus!

verus! {

/// A digest that meets a difficulty meets every lower one.
pub proof fn lemma_difficulty_monotone(hash: Seq<u8>, d: int, lower: int)
    requires
        meets_difficulty(hash, d),
        lower <= d,
    ensures
        meets_difficulty(hash, lower),
{
}

/// Two puzzles that agree on every field have the same digest.
pub proof fn lemma_digest_determined(a: Hashcash, b: Hashcash)
    requires
        same_but_counter(a, b),
        a.counter == b.counter,
    ensures
        digest_of(a) == digest_of(b),
        puzzle_valid(a) == puzzle_valid(b),
{
}

} // verus!
