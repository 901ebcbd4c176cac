use vstd::prelude::*;

verus! {

/// The state of the generator: the four words `(x, y, z, w)`.
pub type RandState = (u32, u32, u32, u32);

pub const RAND_KX: u32 = 123456789;

pub const RAND_KY: u32 = 362436069;

pub const RAND_KZ: u32 = 521288629;

pub const RAND_KW: u32 = 88675123;

/// The state a generator starts in when seeded with `seed`.
pub open spec fn seeded_state(seed: u32) -> RandState {
    (RAND_KX ^ seed, RAND_KY ^ seed, RAND_KZ, RAND_KW)
}

/// One step of the xorshift recurrence: the word that comes out.
pub open spec fn next_output(s: RandState) -> u32 {
    let t = s.0 ^ (s.0 << 11u32);
    s.3 ^ ((s.3 >> 19u32) ^ t ^ (t >> 8u32))
}

/// One step of the xorshift recurrence: the state that follows.
pub open spec fn next_state(s: RandState) -> RandState {
    (s.1, s.2, s.3, next_output(s))
}

/// The state after `n` draws.
pub open spec fn advance(s: RandState, n: nat) -> RandState
    decreases n,
{
    if n == 0 {
        s
    } else {
        next_state(advance(s, (n - 1) as nat))
    }
}

/// The first `n` words drawn from state `s`, in order.
pub open spec fn draws(s: RandState, n: nat) -> Seq<u32>
    decreases n,
{
    if n == 0 {
        Seq::empty()
    } else {
        draws(s, (n - 1) as nat).push(next_output(advance(s, (n - 1) as nat)))
    }
}

/// Two generators seeded alike produce the same words: the first `n` drawn
/// from one are the first `n` of any longer series drawn from the other.
pub proof fn lemma_replay(seed1: u32, seed2: u32, n: nat, m: nat)
    requires
        seed1 == seed2,
        n <= m,
    ensures
        draws(seeded_state(seed1), n) == draws(seeded_state(seed2), m).take(n as int),
        draws(seeded_state(seed2), m).len() == m,
    decreases m,
{
    lemma_draws_len(seeded_state(seed2), m);
    if n == m {
        assert(draws(seeded_state(seed2), m).take(n as int) =~= draws(seeded_state(seed2), m));
    } else {
        lemma_replay(seed1, seed2, n, (m - 1) as nat);
        lemma_draws_len(seeded_state(seed2), (m - 1) as nat);
        assert(draws(seeded_state(seed2), m).take(n as int) =~= draws(
            seeded_state(seed2),
            (m - 1) as nat,
        ).take(n as int));
    }
}

proof fn lemma_draws_len(s: RandState, n: nat)
    ensures
        draws(s, n).len() == n,
    decreases n,
{
    if n > 0 {
        lemma_draws_len(s, (n - 1) as nat);
    }
}

/// A small xorshift generator with four words of state.
#[derive(Debug)]
pub struct Rand {
    x: u32,
    y: u32,
    z: u32,
    w: u32,
}

impl View for Rand {
    type V = RandState;

    closed spec fn view(&self) -> RandState {
        (self.x, self.y, self.z, self.w)
    }
}

impl Rand {
    /// A generator seeded with `seed`.
    pub fn new(seed: u32) -> (r: Rand)
        ensures
            r@ == seeded_state(seed),
    {
        let kx: u32 = RAND_KX;
        let ky: u32 = RAND_KY;
        let kz: u32 = RAND_KZ;
        let kw: u32 = RAND_KW;
        Rand { x: kx ^ seed, y: ky ^ seed, z: kz, w: kw }
    }

    /// Draws the next word.
    pub fn rand(&mut self) -> (r: u32)
        ensures
            r == next_output(old(self)@),
            final(self)@ == next_state(old(self)@),
    {
        let t = self.x ^ self.x.wrapping_shl(11);
        self.x = self.y;
        self.y = self.z;
        self.z = self.w;
        self.w = self.w ^ (self.w.wrapping_shr(19) ^ t ^ t.wrapping_shr(8));
        self.w
    }
}

} // verus!
