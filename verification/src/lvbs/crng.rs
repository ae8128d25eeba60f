//! The random number generator of the platform: ChaCha20, seeded and reseeded from the platform
//! root key and from hardware randomness.
use vstd::prelude::*;

use crate::bytes::append_range;
use rand_core::{RngCore, SeedableRng};
use sha2::Digest;
use zeroize::Zeroize;

verus! {

/// Length of the platform root key in bytes.
pub const PRK_LEN: usize = 32;

/// Length of a seed in bytes.
pub const SEED_LEN: usize = 32;

/// The generator is reseeded after this many bytes.
pub const CRNG_RESEED_INTERVAL_BYTES: usize = 0x10_0000;

/// If no hardware randomness is available then, the next attempt follows after this many bytes.
pub const CRNG_RESEED_BACKOFF_BYTES: usize = 0x1_0000;

/// Bytes of the old stream that go into a new seed.
pub const CRNG_RESEED_STATE_BYTES: usize = 32;

/// Attempts to read a word of hardware randomness.
pub const RDRAND_RETRY_ATTEMPTS: u32 = 10;

/// A ChaCha20 generator.
#[verifier::external_type_specification]
#[verifier::external_body]
pub struct ExChaCha20Rng(rand_chacha::ChaCha20Rng);

/// What a generator holds: its seed, its stream, and how far it has come, in 32-bit words.
pub uninterp spec fn chacha_state(rng: rand_chacha::ChaCha20Rng) -> (Seq<u8>, u64, int);

/// The bytes that ChaCha20 with this seed and stream gives from this word on.
pub uninterp spec fn chacha_bytes(seed: Seq<u8>, stream: u64, word_pos: int, len: int) -> Seq<u8>;

/// Number of words in the period of a stream.
pub open spec fn chacha_period() -> int {
    0x10_0000_0000_0000_0000
}

/// `rand_chacha::ChaCha20Rng::from_seed`: the generator with the seed, at the start of stream zero.
#[verifier::external_body]
fn chacha_from_seed(seed: [u8; SEED_LEN]) -> (r: rand_chacha::ChaCha20Rng)
    ensures
        chacha_state(r) == (seed@, 0u64, 0int),
{
    rand_chacha::ChaCha20Rng::from_seed(seed)
}

/// `rand_chacha::ChaCha20Rng::fill_bytes`: the next `len` bytes of the stream. The generator moves on
/// by whole words, and starts over at the end of its period.
#[verifier::external_body]
fn chacha_fill(rng: &mut rand_chacha::ChaCha20Rng, len: usize) -> (r: Vec<u8>)
    ensures
        r@.len() == len,
        r@ == chacha_bytes(
            chacha_state(*old(rng)).0,
            chacha_state(*old(rng)).1,
            chacha_state(*old(rng)).2,
            len as int,
        ),
        chacha_state(*final(rng)) == (
            chacha_state(*old(rng)).0,
            chacha_state(*old(rng)).1,
            (chacha_state(*old(rng)).2 + (len + 3) / 4) % chacha_period(),
        ),
{
    let mut bytes = vec![0u8; len];
    rng.fill_bytes(&mut bytes);
    bytes
}

/// The SHA-256 hash of the bytes.
pub uninterp spec fn sha256(bytes: Seq<u8>) -> Seq<u8>;

/// `sha2::Sha256::digest`: the SHA-256 hash of the bytes, 32 bytes.
#[verifier::external_body]
fn sha256_hash(bytes: &Vec<u8>) -> (r: [u8; SEED_LEN])
    ensures
        r@ == sha256(bytes@),
{
    sha2::Sha256::digest(bytes).into()
}

/// `zeroize::Zeroize::zeroize` of a byte vector: overwrites the bytes and takes them out.
#[verifier::external_body]
fn wipe(bytes: &mut Vec<u8>)
    ensures
        final(bytes)@.len() == 0,
{
    bytes.zeroize();
}

/// The bytes of a number, lowest byte first.
pub open spec fn le_bytes(x: u64) -> Seq<u8> {
    seq![
        (x % 256) as u8,
        (x / 0x100 % 256) as u8,
        (x / 0x1_0000 % 256) as u8,
        (x / 0x100_0000 % 256) as u8,
        (x / 0x1_0000_0000 % 256) as u8,
        (x / 0x100_0000_0000 % 256) as u8,
        (x / 0x1_0000_0000_0000 % 256) as u8,
        (x / 0x100_0000_0000_0000 % 256) as u8,
    ]
}

/// Appends the bytes of a number, lowest byte first.
fn push_le_bytes(bytes: &mut Vec<u8>, x: u64)
    ensures
        final(bytes)@ == old(bytes)@ + le_bytes(x),
{
    bytes.push((x % 256) as u8);
    bytes.push((x / 0x100 % 256) as u8);
    bytes.push((x / 0x1_0000 % 256) as u8);
    bytes.push((x / 0x100_0000 % 256) as u8);
    bytes.push((x / 0x1_0000_0000 % 256) as u8);
    bytes.push((x / 0x100_0000_0000 % 256) as u8);
    bytes.push((x / 0x1_0000_0000_0000 % 256) as u8);
    bytes.push((x / 0x100_0000_0000_0000 % 256) as u8);
    assert(bytes@ =~= old(bytes)@ + le_bytes(x));
}

/// The label of a first seed, `litebox-lvbs-crng-seed-v1`.
pub open spec fn seed_label() -> Seq<u8> {
    seq![
        108u8, 105, 116, 101, 98, 111, 120, 45, 108, 118, 98, 115, 45, 99, 114, 110, 103, 45, 115,
        101, 101, 100, 45, 118, 49,
    ]
}

/// The label of a later seed, `litebox-lvbs-crng-reseed-v1`.
pub open spec fn reseed_label() -> Seq<u8> {
    seq![
        108u8, 105, 116, 101, 98, 111, 120, 45, 108, 118, 98, 115, 45, 99, 114, 110, 103, 45, 114,
        101, 115, 101, 101, 100, 45, 118, 49,
    ]
}

/// The first seed: a hash of the root key and of hardware randomness.
pub open spec fn first_seed(prk: Seq<u8>, rdrand_seed: Seq<u8>) -> Seq<u8> {
    sha256(seed_label() + prk + rdrand_seed)
}

/// A later seed: a hash of hardware randomness, the number of the reseeding, and bytes of the old
/// stream.
pub open spec fn later_seed(rdrand_seed: Seq<u8>, reseed_counter: u64, state: Seq<u8>) -> Seq<u8> {
    sha256(reseed_label() + rdrand_seed + le_bytes(reseed_counter) + state)
}

/// The first seed, from the root key and hardware randomness.
fn crng_seed_from_prk_and_rdrand(prk: &[u8; PRK_LEN], rdrand_seed: &[u8; SEED_LEN]) -> (r: [u8;
    SEED_LEN])
    ensures
        r@ == first_seed(prk@, rdrand_seed@),
{
    let mut input: Vec<u8> = vec![
        108u8, 105, 116, 101, 98, 111, 120, 45, 108, 118, 98, 115, 45, 99, 114, 110, 103, 45, 115,
        101, 101, 100, 45, 118, 49,
    ];
    assert(input@ =~= seed_label());
    append_range(&mut input, prk.as_slice(), 0, PRK_LEN);
    append_range(&mut input, rdrand_seed.as_slice(), 0, SEED_LEN);
    assert(input@ =~= seed_label() + prk@ + rdrand_seed@);
    let seed = sha256_hash(&input);
    wipe(&mut input);
    seed
}

/// A later seed, from hardware randomness, the number of the reseeding and bytes of the old stream.
fn crng_reseed_from_rdrand_and_state(
    rdrand_seed: &[u8; SEED_LEN],
    reseed_counter: u64,
    current_state: &Vec<u8>,
) -> (r: [u8; SEED_LEN])
    ensures
        r@ == later_seed(rdrand_seed@, reseed_counter, current_state@),
{
    let mut input: Vec<u8> = vec![
        108u8, 105, 116, 101, 98, 111, 120, 45, 108, 118, 98, 115, 45, 99, 114, 110, 103, 45, 114,
        101, 115, 101, 101, 100, 45, 118, 49,
    ];
    assert(input@ =~= reseed_label());
    append_range(&mut input, rdrand_seed.as_slice(), 0, SEED_LEN);
    push_le_bytes(&mut input, reseed_counter);
    append_range(&mut input, current_state.as_slice(), 0, current_state.len());
    assert(input@ =~= reseed_label() + rdrand_seed@ + le_bytes(reseed_counter) + current_state@);
    let seed = sha256_hash(&input);
    wipe(&mut input);
    seed
}

/// A generator as a mathematical value: where its stream stands, how many bytes it may still give
/// before it is reseeded, and how often it was reseeded.
#[verifier::ext_equal]
pub struct CrngModel {
    pub seed: Seq<u8>,
    pub word_pos: int,
    pub bytes_until_reseed: int,
    pub reseed_counter: u64,
}

impl CrngModel {
    /// There is always something left before the next reseeding.
    pub open spec fn well_formed(self) -> bool {
        0 < self.bytes_until_reseed <= CRNG_RESEED_INTERVAL_BYTES
    }

    /// The next `len` bytes of the stream.
    pub open spec fn next_bytes(self, len: int) -> Seq<u8> {
        chacha_bytes(self.seed, 0, self.word_pos, len)
    }

    /// The generator after it gave `len` bytes.
    pub open spec fn after(self, len: int) -> CrngModel {
        CrngModel {
            word_pos: (self.word_pos + (len + 3) / 4) % chacha_period(),
            bytes_until_reseed: self.bytes_until_reseed - len,
            ..self
        }
    }

    /// The generator after it was reseeded.
    pub open spec fn reseeded(self, rdrand_seed: Seq<u8>) -> CrngModel {
        CrngModel {
            seed: later_seed(
                rdrand_seed,
                (self.reseed_counter + 1) as u64,
                self.next_bytes(CRNG_RESEED_STATE_BYTES as int),
            ),
            word_pos: 0,
            bytes_until_reseed: CRNG_RESEED_INTERVAL_BYTES as int,
            reseed_counter: (self.reseed_counter + 1) as u64,
        }
    }

    /// The generator at the end of its budget: reseeded if there is hardware randomness, else with
    /// a small new budget.
    pub open spec fn refreshed(self, rdrand_seed: Option<[u8; SEED_LEN]>) -> CrngModel {
        match rdrand_seed {
            Some(seed) => self.reseeded(seed@),
            None => CrngModel {
                bytes_until_reseed: CRNG_RESEED_BACKOFF_BYTES as int,
                ..self
            },
        }
    }
}

/// How many of `len` bytes come before the budget of the generator ends.
pub open spec fn chunk_len(model: CrngModel, len: int) -> int {
    if len < model.bytes_until_reseed {
        len
    } else {
        model.bytes_until_reseed
    }
}

/// The bytes that a generator gives for a request of `len` bytes, and the generator behind it.
/// `seeds` are the answers to the attempts to read hardware randomness on the way, in order.
pub open spec fn filled(model: CrngModel, len: int, seeds: Seq<Option<[u8; SEED_LEN]>>) -> (
    Seq<u8>,
    CrngModel,
)
    decreases len,
{
    if len <= 0 || model.bytes_until_reseed <= 0 {
        (Seq::empty(), model)
    } else {
        let n = chunk_len(model, len);
        let after = model.after(n);
        if after.bytes_until_reseed == 0 {
            let rest = filled(after.refreshed(seeds[0]), len - n, seeds.drop_first());
            (model.next_bytes(n) + rest.0, rest.1)
        } else {
            (model.next_bytes(n), after)
        }
    }
}

/// How many attempts to read hardware randomness a request of `len` bytes makes.
pub open spec fn attempts(model: CrngModel, len: int, seeds: Seq<Option<[u8; SEED_LEN]>>) -> int
    decreases len,
{
    if len <= 0 || model.bytes_until_reseed <= 0 {
        0
    } else {
        let n = chunk_len(model, len);
        let after = model.after(n);
        if after.bytes_until_reseed == 0 {
            1 + attempts(after.refreshed(seeds[0]), len - n, seeds.drop_first())
        } else {
            0
        }
    }
}

/// As long as hardware randomness is available, the generator is reseeded exactly once for each
/// full interval that it has given, and its budget is what is left of the current one.
pub proof fn law_reseeded_on_time(model: CrngModel, len: int, seeds: Seq<Option<[u8; SEED_LEN]>>)
    requires
        model.well_formed(),
        len >= 0,
        model.reseed_counter + len <= u64::MAX,
        seeds.len() == attempts(model, len, seeds),
        forall|i: int| 0 <= i < seeds.len() ==> #[trigger] seeds[i] is Some,
    ensures
        ({
            let used = CRNG_RESEED_INTERVAL_BYTES - model.bytes_until_reseed + len;
            &&& filled(model, len, seeds).1.reseed_counter == model.reseed_counter + used
                / (CRNG_RESEED_INTERVAL_BYTES as int)
            &&& filled(model, len, seeds).1.bytes_until_reseed == CRNG_RESEED_INTERVAL_BYTES - used
                % (CRNG_RESEED_INTERVAL_BYTES as int)
        }),
    decreases len,
{
    if len > 0 && len >= model.bytes_until_reseed {
        let n = model.bytes_until_reseed;
        let rest = seeds.drop_first();
        let fresh = model.after(n).refreshed(seeds[0]);
        lemma_attempts_nonnegative(fresh, len - n, rest);
        law_reseeded_on_time(fresh, len - n, rest);
    }
}

/// Without hardware randomness the generator goes on with the stream that it has: it is not
/// reseeded, and asks again after each backoff.
pub proof fn law_backs_off_without_randomness(
    model: CrngModel,
    len: int,
    seeds: Seq<Option<[u8; SEED_LEN]>>,
)
    requires
        model.well_formed(),
        len >= 0,
        seeds.len() == attempts(model, len, seeds),
        forall|i: int| 0 <= i < seeds.len() ==> #[trigger] seeds[i] is None,
    ensures
        filled(model, len, seeds).1.seed == model.seed,
        filled(model, len, seeds).1.reseed_counter == model.reseed_counter,
        filled(model, len, seeds).1.bytes_until_reseed == (if len < model.bytes_until_reseed {
            model.bytes_until_reseed - len
        } else {
            CRNG_RESEED_BACKOFF_BYTES - (len - model.bytes_until_reseed) % (
            CRNG_RESEED_BACKOFF_BYTES as int)
        }),
    decreases len,
{
    if len > 0 && len >= model.bytes_until_reseed {
        let n = model.bytes_until_reseed;
        let rest = seeds.drop_first();
        let next = model.after(n).refreshed(seeds[0]);
        lemma_attempts_nonnegative(next, len - n, rest);
        law_backs_off_without_randomness(next, len - n, rest);
    }
}

proof fn lemma_attempts_nonnegative(
    model: CrngModel,
    len: int,
    seeds: Seq<Option<[u8; SEED_LEN]>>,
)
    ensures
        attempts(model, len, seeds) >= 0,
    decreases len,
{
    if len > 0 && model.bytes_until_reseed > 0 {
        let n = chunk_len(model, len);
        let after = model.after(n);
        if after.bytes_until_reseed == 0 {
            lemma_attempts_nonnegative(
                after.refreshed(seeds[0]),
                len - n,
                seeds.drop_first(),
            );
        }
    }
}

/// The random number generator of the platform.
pub struct LvbsCrng {
    random: rand_chacha::ChaCha20Rng,
    bytes_until_reseed: usize,
    reseed_counter: u64,
}

impl View for LvbsCrng {
    type V = CrngModel;

    closed spec fn view(&self) -> CrngModel {
        CrngModel {
            seed: chacha_state(self.random).0,
            word_pos: chacha_state(self.random).2,
            bytes_until_reseed: self.bytes_until_reseed as int,
            reseed_counter: self.reseed_counter,
        }
    }
}

impl LvbsCrng {
    /// The generator reads stream zero.
    pub closed spec fn reads_stream_zero(self) -> bool {
        chacha_state(self.random).1 == 0
    }

    /// The generator reads stream zero, and has something left before the next reseeding.
    pub open spec fn well_formed(self) -> bool {
        self@.well_formed() && self.reads_stream_zero()
    }

    /// A generator with a first seed.
    pub fn new(prk: &[u8; PRK_LEN], rdrand_seed: [u8; SEED_LEN]) -> (r: LvbsCrng)
        ensures
            r.well_formed(),
            r@.well_formed(),
            r@ == (CrngModel {
                seed: first_seed(prk@, rdrand_seed@),
                word_pos: 0,
                bytes_until_reseed: CRNG_RESEED_INTERVAL_BYTES as int,
                reseed_counter: 0,
            }),
    {
        LvbsCrng {
            random: chacha_from_seed(crng_seed_from_prk_and_rdrand(prk, &rdrand_seed)),
            bytes_until_reseed: CRNG_RESEED_INTERVAL_BYTES,
            reseed_counter: 0,
        }
    }

    /// Bytes that the generator gives before it is reseeded.
    pub fn bytes_until_reseed(&self) -> (r: usize)
        ensures
            r == self@.bytes_until_reseed,
    {
        self.bytes_until_reseed
    }

    /// How often the generator was reseeded.
    pub fn reseed_counter(&self) -> (r: u64)
        ensures
            r == self@.reseed_counter,
    {
        self.reseed_counter
    }

    /// Fills the buffer with random bytes. Wherever the budget of the generator ends on the way, it
    /// asks `rdrand_seed` for hardware randomness to reseed it.
    pub fn fill_bytes<F: Fn() -> Option<[u8; SEED_LEN]>>(&mut self, buf: &mut Vec<u8>, rdrand_seed: F)
        requires
            old(self).well_formed(),
            call_requires(rdrand_seed, ()),
            old(self)@.reseed_counter + old(buf)@.len() <= u64::MAX,
        ensures
            final(self).well_formed(),
            final(self)@.well_formed(),
            exists|seeds: Seq<Option<[u8; SEED_LEN]>>|
                {
                    &&& seeds.len() == attempts(old(self)@, old(buf)@.len() as int, seeds)
                    &&& forall|i: int|
                        0 <= i < seeds.len() ==> call_ensures(rdrand_seed, (), #[trigger] seeds[i])
                    &&& (final(buf)@, final(self)@) == #[trigger] filled(
                        old(self)@,
                        old(buf)@.len() as int,
                        seeds,
                    )
                },
    {
        let total: usize = buf.len();
        let mut out: Vec<u8> = Vec::new();
        let ghost start = self@;
        let ghost seeds: Seq<Option<[u8; SEED_LEN]>> = Seq::empty();
        proof {
            assert forall|more: Seq<Option<[u8; SEED_LEN]>>| true implies #[trigger] filled(
                start,
                total as int,
                seeds + more,
            ) == (out@ + filled(start, total as int, more).0, filled(start, total as int, more).1)
            && attempts(start, total as int, seeds + more) == attempts(
                start,
                total as int,
                more,
            ) by {
                assert(seeds + more =~= more);
                assert(out@ + filled(start, total as int, more).0 =~= filled(
                    start,
                    total as int,
                    more,
                ).0);
            }
        }
        while out.len() < total
            invariant
                self.well_formed(),
                self@.well_formed(),
                out@.len() <= total,
                start == old(self)@,
                total == old(buf)@.len(),
                start.reseed_counter + total <= u64::MAX,
                self@.reseed_counter <= start.reseed_counter + out@.len(),
                call_requires(rdrand_seed, ()),
                forall|i: int|
                    0 <= i < seeds.len() ==> call_ensures(rdrand_seed, (), #[trigger] seeds[i]),
                forall|more: Seq<Option<[u8; SEED_LEN]>>| #[trigger]
                    filled(start, total as int, seeds + more) == (
                        out@ + filled(self@, total - out@.len(), more).0,
                        filled(self@, total - out@.len(), more).1,
                    ) && attempts(start, total as int, seeds + more) == seeds.len() + attempts(
                        self@,
                        total - out@.len(),
                        more,
                    ),
            decreases total - out@.len(),
        {
            let left: usize = total - out.len();
            let len: usize = if left < self.bytes_until_reseed {
                left
            } else {
                self.bytes_until_reseed
            };
            let ghost before = self@;
            let ghost given = out@;
            let mut chunk = chacha_fill(&mut self.random, len);
            let ghost bytes = chunk@;
            out.append(&mut chunk);
            self.bytes_until_reseed = self.bytes_until_reseed - len;
            assert(self@ == before.after(len as int));
            if self.bytes_until_reseed == 0 {
                let answer = rdrand_seed();
                self.refresh(answer);
                proof {
                    let old_seeds = seeds;
                    seeds = seeds.push(answer);
                    assert forall|more: Seq<Option<[u8; SEED_LEN]>>| true implies #[trigger] filled(
                        start,
                        total as int,
                        seeds + more,
                    ) == (
                        out@ + filled(self@, total - out@.len(), more).0,
                        filled(self@, total - out@.len(), more).1,
                    ) && attempts(start, total as int, seeds + more) == seeds.len() + attempts(
                        self@,
                        total - out@.len(),
                        more,
                    ) by {
                        let rest = seq![answer] + more;
                        assert(old_seeds + rest =~= seeds + more);
                        assert(rest.drop_first() =~= more);
                        assert(rest[0] == answer);
                        let tail = filled(self@, total - out@.len(), more).0;
                        assert(given + (bytes + tail) =~= out@ + tail);
                        assert(filled(start, total as int, old_seeds + rest) == (
                            given + filled(before, total - given.len(), rest).0,
                            filled(before, total - given.len(), rest).1,
                        ));
                    }
                }
            } else {
                proof {
                    assert(out@.len() == total);
                    assert forall|more: Seq<Option<[u8; SEED_LEN]>>| true implies #[trigger] filled(
                        start,
                        total as int,
                        seeds + more,
                    ) == (
                        out@ + filled(self@, total - out@.len(), more).0,
                        filled(self@, total - out@.len(), more).1,
                    ) && attempts(start, total as int, seeds + more) == seeds.len() + attempts(
                        self@,
                        total - out@.len(),
                        more,
                    ) by {
                        assert(filled(start, total as int, seeds + more) == (
                            given + filled(before, total - given.len(), more).0,
                            filled(before, total - given.len(), more).1,
                        ));
                        assert(out@ + Seq::<u8>::empty() =~= given + bytes);
                    }
                }
            }
        }
        proof {
            let none: Seq<Option<[u8; SEED_LEN]>> = Seq::empty();
            assert(seeds + none =~= seeds);
            assert(out@ + Seq::<u8>::empty() =~= out@);
            assert(filled(start, total as int, seeds + none) == (out@, self@));
            assert(attempts(start, total as int, seeds + none) == seeds.len());
        }
        *buf = out;
    }

    /// Renews the budget of the generator: by reseeding it if there is hardware randomness.
    pub fn refresh(&mut self, rdrand_seed: Option<[u8; SEED_LEN]>)
        requires
            old(self).reads_stream_zero(),
            old(self)@.reseed_counter < u64::MAX,
        ensures
            final(self).well_formed(),
            final(self)@.well_formed(),
            final(self)@ == old(self)@.refreshed(rdrand_seed),
    {
        match rdrand_seed {
            Some(seed) => self.reseed(seed),
            None => {
                self.bytes_until_reseed = CRNG_RESEED_BACKOFF_BYTES;
            },
        }
    }

    fn reseed(&mut self, rdrand_seed: [u8; SEED_LEN])
        requires
            old(self).reads_stream_zero(),
            old(self)@.reseed_counter < u64::MAX,
        ensures
            final(self).well_formed(),
            final(self)@ == old(self)@.reseeded(rdrand_seed@),
    {
        self.reseed_counter = self.reseed_counter + 1;
        let mut current_state = chacha_fill(&mut self.random, CRNG_RESEED_STATE_BYTES);
        self.random =
        chacha_from_seed(
            crng_reseed_from_rdrand_and_state(&rdrand_seed, self.reseed_counter, &current_state),
        );
        wipe(&mut current_state);
        self.bytes_until_reseed = CRNG_RESEED_INTERVAL_BYTES;
    }
}

/// One step of collecting hardware randomness.
#[derive(Clone, Copy, PartialEq, Eq, Structural, Debug)]
pub enum RdrandStep {
    /// Another word is to be read.
    Again,
    /// The seed is complete.
    Done,
    /// No word could be read in as many attempts as are made.
    Unavailable,
}

/// Collects a seed of hardware randomness, word by word. Each word is read in at most
/// [`RDRAND_RETRY_ATTEMPTS`] attempts.
pub struct RdrandSeed {
    bytes: Vec<u8>,
    failures: u32,
}

impl RdrandSeed {
    /// The bytes collected so far.
    pub closed spec fn collected(self) -> Seq<u8> {
        self.bytes@
    }

    /// How many attempts failed for the word that is being read.
    pub closed spec fn failed(self) -> int {
        self.failures as int
    }

    /// The seed is not complete yet, and another attempt can be made.
    pub open spec fn in_progress(self) -> bool {
        &&& self.collected().len() < SEED_LEN
        &&& self.collected().len() % 8 == 0
        &&& 0 <= self.failed() < RDRAND_RETRY_ATTEMPTS
    }

    /// Nothing collected yet.
    pub fn new() -> (r: RdrandSeed)
        ensures
            r.in_progress(),
            r.collected() == Seq::<u8>::empty(),
            r.failed() == 0,
    {
        RdrandSeed { bytes: Vec::new(), failures: 0 }
    }

    /// Takes the outcome of an attempt: a word, or nothing if none was available.
    pub fn step(&mut self, word: Option<u64>) -> (r: RdrandStep)
        requires
            old(self).in_progress(),
        ensures
            match word {
                Some(w) => {
                    &&& final(self).collected() == old(self).collected() + le_bytes(w)
                    &&& final(self).failed() == 0
                    &&& r == (if final(self).collected().len() == SEED_LEN {
                        RdrandStep::Done
                    } else {
                        RdrandStep::Again
                    })
                },
                None => {
                    &&& final(self).collected() == old(self).collected()
                    &&& final(self).failed() == old(self).failed() + 1
                    &&& r == (if final(self).failed() == RDRAND_RETRY_ATTEMPTS {
                        RdrandStep::Unavailable
                    } else {
                        RdrandStep::Again
                    })
                },
            },
            r is Again ==> final(self).in_progress(),
    {
        match word {
            Some(word) => {
                push_le_bytes(&mut self.bytes, word);
                self.failures = 0;
                if self.bytes.len() == SEED_LEN {
                    RdrandStep::Done
                } else {
                    RdrandStep::Again
                }
            },
            None => {
                self.failures = self.failures + 1;
                if self.failures == RDRAND_RETRY_ATTEMPTS {
                    RdrandStep::Unavailable
                } else {
                    RdrandStep::Again
                }
            },
        }
    }

    /// The seed, once it is complete.
    pub fn finish(self) -> (r: [u8; SEED_LEN])
        requires
            self.collected().len() == SEED_LEN,
        ensures
            r@ == self.collected(),
    {
        let mut seed: [u8; SEED_LEN] = [0; SEED_LEN];
        let mut i: usize = 0;
        while i < SEED_LEN
            invariant
                i <= SEED_LEN,
                self.bytes@.len() == SEED_LEN,
                forall|j: int| 0 <= j < i ==> #[trigger] seed@[j] == self.bytes@[j],
            decreases SEED_LEN - i,
        {
            seed[i] = self.bytes[i];
            i = i + 1;
        }
        assert(seed@ =~= self.bytes@);
        seed
    }
}

/// Why a key cannot be derived from the platform root key.
#[derive(Clone, Copy, PartialEq, Eq, Structural, Debug)]
pub enum DerivedKeyError {
    /// There is no platform root key.
    UnsupportedRebootPersistentKey,
    /// The caller must bring a key derivation function.
    ShimKDFRequired,
}

/// The platform root key. It can be set once, and is read only to derive keys and to seed the
/// random number generator.
pub struct PlatformRootKey {
    key: Option<[u8; PRK_LEN]>,
}

impl View for PlatformRootKey {
    type V = Option<Seq<u8>>;

    /// The bytes of the key, if it is set.
    closed spec fn view(&self) -> Option<Seq<u8>> {
        match self.key {
            Some(key) => Some(key@),
            None => None,
        }
    }
}

impl PlatformRootKey {
    /// No key yet.
    pub fn new() -> (r: PlatformRootKey)
        ensures
            r@ is None,
    {
        PlatformRootKey { key: None }
    }

    /// Sets the key, unless it is set already.
    pub fn set_platform_root_key(&mut self, key: &[u8])
        requires
            key@.len() == PRK_LEN,
        ensures
            final(self)@ == (match old(self)@ {
                Some(kept) => Some(kept),
                None => Some(key@),
            }),
    {
        if self.key.is_none() {
            let mut prk: [u8; PRK_LEN] = [0; PRK_LEN];
            let mut i: usize = 0;
            while i < PRK_LEN
                invariant
                    i <= PRK_LEN,
                    key@.len() == PRK_LEN,
                    forall|j: int| 0 <= j < i ==> #[trigger] prk@[j] == key@[j],
                decreases PRK_LEN - i,
            {
                prk[i] = key[i];
                i = i + 1;
            }
            assert(prk@ =~= key@);
            self.key = Some(prk);
        }
    }

    /// The key to derive another key from. A caller without a key derivation function is refused.
    pub fn derive_key(&self, has_kdf: bool) -> (r: Result<[u8; PRK_LEN], DerivedKeyError>)
        ensures
            match r {
                Ok(key) => self@ == Some(key@) && has_kdf,
                Err(DerivedKeyError::UnsupportedRebootPersistentKey) => self@ is None,
                Err(DerivedKeyError::ShimKDFRequired) => self@ is Some && !has_kdf,
            },
    {
        match self.key {
            None => Err(DerivedKeyError::UnsupportedRebootPersistentKey),
            Some(key) => if has_kdf {
                Ok(key)
            } else {
                Err(DerivedKeyError::ShimKDFRequired)
            },
        }
    }
}

} // verus!
