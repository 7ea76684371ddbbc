//! Random short-link identifiers.
use vstd::prelude::*;

verus! {

#[verifier::external_type_specification]
#[verifier::external_body]
pub struct ExThreadRng(rand::rngs::ThreadRng);

/// Calls `rand::thread_rng`: the thread-local generator, seeded by the system.
/// Nothing is stated of it.
#[verifier::external_body]
fn thread_rng() -> (r: rand::rngs::ThreadRng) {
    rand::thread_rng()
}

/// Calls `rand::Rng::gen_range(0..n)` on `rng`, which returns some value in
/// the range and panics when the range is empty; which value comes is chance.
#[verifier::external_body]
fn random_below(rng: &mut rand::rngs::ThreadRng, n: usize) -> (r: usize)
    requires
        n > 0,
    ensures
        r < n,
{
    rand::Rng::gen_range(rng, 0..n)
}

/// The characters a slug is made of.
pub const SLUG_CHARS: &'static str = "ABCDEFGHIJKLMNOPQRSTUVWXYZabcdefghijklmnopqrstuvwxyz0123456789";

pub open spec fn slug_alphabet() -> Seq<char> {
    SLUG_CHARS@
}

/// `s` is a slug of `len` characters, each from the alphabet.
pub open spec fn is_slug(s: Seq<char>, len: nat) -> bool {
    &&& s.len() == len
    &&& forall|i: int| 0 <= i < s.len() ==> slug_alphabet().contains(#[trigger] s[i])
}

/// The slug spelled by `draws`: each draw picks the character at that
/// position of `SLUG_CHARS`.
pub fn slug_from_draws(draws: &Vec<usize>) -> (r: String)
    requires
        forall|i: int| 0 <= i < draws@.len() ==> draws@[i] < 62,
    ensures
        r@.len() == draws@.len(),
        forall|i: int| 0 <= i < draws@.len() ==> r@[i] == slug_alphabet()[draws@[i] as int],
{
    proof {
        reveal_strlit("ABCDEFGHIJKLMNOPQRSTUVWXYZabcdefghijklmnopqrstuvwxyz0123456789");
    }
    let n = SLUG_CHARS.unicode_len();
    assert(n == 62);
    let mut out = String::new();
    let mut i: usize = 0;
    while i < draws.len()
        invariant
            n == slug_alphabet().len(),
            n == 62,
            i <= draws@.len(),
            forall|j: int| 0 <= j < draws@.len() ==> draws@[j] < 62,
            out@.len() == i,
            forall|j: int| 0 <= j < i ==> out@[j] == slug_alphabet()[draws@[j] as int],
        decreases draws@.len() - i,
    {
        let k = draws[i];
        let c = SLUG_CHARS.substring_char(k, k + 1);
        assert(c@.len() == 1 && c@[0] == slug_alphabet()[k as int]);
        let ghost before = out@;
        out.append(c);
        assert(out@ == before.push(slug_alphabet()[k as int]));
        i = i + 1;
    }
    out
}

/// A random slug of `len` characters drawn from `SLUG_CHARS`: `len` draws
/// below 62 from the thread's generator, spelled by `slug_from_draws`.
pub fn gen_slug(len: usize) -> (r: String)
    ensures
        is_slug(r@, len as nat),
{
    proof {
        reveal_strlit("ABCDEFGHIJKLMNOPQRSTUVWXYZabcdefghijklmnopqrstuvwxyz0123456789");
    }
    let n = SLUG_CHARS.unicode_len();
    let mut rng = thread_rng();
    let mut draws: Vec<usize> = Vec::new();
    let mut i: usize = 0;
    while i < len
        invariant
            n == 62,
            i <= len,
            draws@.len() == i,
            forall|j: int| 0 <= j < draws@.len() ==> draws@[j] < 62,
        decreases len - i,
    {
        let k = random_below(&mut rng, n);
        draws.push(k);
        i = i + 1;
    }
    let r = slug_from_draws(&draws);
    assert forall|j: int| 0 <= j < r@.len() implies slug_alphabet().contains(#[trigger] r@[j]) by {
        assert(slug_alphabet()[draws@[j] as int] == r@[j]);
    }
    r
}

} // verus!
