use vstd::prelude::*;

verus! {

/// A global allocator that maps whole pages for every allocation.
pub struct Karlloc {}

/// `n` is a power of two.
pub open spec fn is_power_of_two(n: nat) -> bool
    decreases n,
{
    if n <= 1 {
        n == 1
    } else {
        n % 2 == 0 && is_power_of_two(n / 2)
    }
}

/// `size` rounded up to the next multiple of `align`.
pub open spec fn round_up(size: nat, align: nat) -> nat
    recommends
        align > 0,
{
    if size % align == 0 {
        size
    } else {
        (size - size % align + align) as nat
    }
}

/// The number of bytes that an allocation of `size` bytes aligned to `align`
/// maps, on pages of `page_size` bytes: the alignment is raised to the page
/// size, and the size rounded up to it. There is none where the raised
/// alignment is not a power of two, or where the rounded size would pass
/// `isize::MAX`.
pub open spec fn mapping_size_of(size: nat, align: nat, page_size: nat) -> Option<nat> {
    let a = if align >= page_size { align } else { page_size };
    if is_power_of_two(a) && size + a - 1 <= isize::MAX {
        Some(round_up(size, a))
    } else {
        None
    }
}

/// Whether `n` is a power of two.
pub fn power_of_two(n: usize) -> (b: bool)
    ensures
        b == is_power_of_two(n as nat),
{
    if n == 0 {
        return false;
    }
    let mut m: usize = n;
    while m % 2 == 0
        invariant
            m >= 1,
            is_power_of_two(m as nat) == is_power_of_two(n as nat),
        decreases m,
    {
        m = m / 2;
    }
    m == 1
}

impl Karlloc {
    /// The number of bytes to map for an allocation of `size` bytes aligned to
    /// `align` on pages of `page_size` bytes, or `None` where no mapping can
    /// be made for it (see `mapping_size_of`).
    pub fn mapping_size(size: usize, align: usize, page_size: usize) -> (r: Option<usize>)
        ensures
            r matches Some(n) ==> mapping_size_of(size as nat, align as nat, page_size as nat)
                == Some(n as nat),
            r is None ==> mapping_size_of(size as nat, align as nat, page_size as nat) is None,
    {
        let a = if align >= page_size { align } else { page_size };
        if !power_of_two(a) {
            return None;
        }
        let limit = isize::MAX as usize;
        if a - 1 > limit || size > limit - (a - 1) {
            return None;
        }
        let rest = size % a;
        proof {
            vstd::arithmetic::div_mod::lemma_mod_decreases(size as nat, a as nat);
        }
        if rest == 0 {
            Some(size)
        } else {
            Some(size - rest + a)
        }
    }
}

/// The powers of two are exactly the numbers 2^k.
pub proof fn law_power_of_two_is_pow2(n: nat)
    ensures
        is_power_of_two(n) <==> exists|k: nat| n == vstd::arithmetic::power2::pow2(k),
    decreases n,
{
    if is_power_of_two(n) {
        let k = lemma_power_of_two_exponent(n);
        assert(n == vstd::arithmetic::power2::pow2(k));
    }
    if exists|k: nat| n == vstd::arithmetic::power2::pow2(k) {
        let k = choose|k: nat| n == vstd::arithmetic::power2::pow2(k);
        lemma_pow2_is_power_of_two(k);
    }
}

proof fn lemma_power_of_two_exponent(n: nat) -> (k: nat)
    requires
        is_power_of_two(n),
    ensures
        n == vstd::arithmetic::power2::pow2(k),
    decreases n,
{
    if n <= 1 {
        vstd::arithmetic::power2::lemma_pow2(0);
        reveal(vstd::arithmetic::power::pow);
        0
    } else {
        let k = lemma_power_of_two_exponent(n / 2);
        vstd::arithmetic::power2::lemma_pow2_unfold(k + 1);
        k + 1
    }
}

proof fn lemma_pow2_is_power_of_two(k: nat)
    ensures
        is_power_of_two(vstd::arithmetic::power2::pow2(k)),
    decreases k,
{
    if k == 0 {
        vstd::arithmetic::power2::lemma_pow2(0);
        reveal(vstd::arithmetic::power::pow);
    } else {
        lemma_pow2_is_power_of_two((k - 1) as nat);
        vstd::arithmetic::power2::lemma_pow2_unfold(k);
        vstd::arithmetic::power2::lemma_pow2_pos((k - 1) as nat);
        let m = vstd::arithmetic::power2::pow2(k);
        assert(m / 2 == vstd::arithmetic::power2::pow2((k - 1) as nat));
    }
}

/// A power of two divides every power of two that is at least as large.
pub proof fn lemma_power_of_two_divides(p: nat, a: nat)
    requires
        is_power_of_two(p),
        is_power_of_two(a),
        p <= a,
    ensures
        a % p == 0,
    decreases p,
{
    if p == 1 {
        vstd::arithmetic::div_mod::lemma_fundamental_div_mod_converse_mod(a as int, 1, a as int, 0);
    } else {
        lemma_power_of_two_divides(p / 2, a / 2);
        let k = (a / 2) / (p / 2);
        vstd::arithmetic::div_mod::lemma_fundamental_div_mod((a / 2) as int, (p / 2) as int);
        assert(a == p * k) by (nonlinear_arith)
            requires
                a == 2 * (a / 2),
                p == 2 * (p / 2),
                (a / 2) as int == (p / 2) as int * k + 0,
        ;
        vstd::arithmetic::div_mod::lemma_fundamental_div_mod_converse_mod(a as int, p as int, k as int, 0);
    }
}

/// The mapping made for an allocation covers it and is aligned: it is a
/// multiple of the raised alignment, at least the requested size, and less
/// than one alignment step above it; on pages whose size is a power of two,
/// it is a whole number of pages.
pub proof fn law_mapping_covers(size: nat, align: nat, page_size: nat)
    requires
        mapping_size_of(size, align, page_size) is Some,
    ensures
        ({
            let a = if align >= page_size { align } else { page_size };
            let n = mapping_size_of(size, align, page_size)->0;
            &&& n % a == 0
            &&& size <= n < size + a
            &&& is_power_of_two(page_size) ==> n % page_size == 0
        }),
{
    let a = if align >= page_size { align } else { page_size };
    let n = round_up(size, a);
    assert(a >= 1);
    let q = (size / a) as int;
    let r = (size % a) as int;
    vstd::arithmetic::div_mod::lemma_fundamental_div_mod(size as int, a as int);
    let k: int = if r == 0 { q } else { q + 1 };
    assert(n == a * k) by (nonlinear_arith)
        requires
            size == a * q + r,
            r == 0 ==> n == size && k == q,
            r != 0 ==> n == size - r + a && k == q + 1,
    ;
    vstd::arithmetic::div_mod::lemma_fundamental_div_mod_converse_mod(n as int, a as int, k, 0);
    if is_power_of_two(page_size) {
        lemma_power_of_two_divides(page_size, a);
        let j = (a / page_size) as int;
        vstd::arithmetic::div_mod::lemma_fundamental_div_mod(a as int, page_size as int);
        assert(n == page_size * (j * k)) by (nonlinear_arith)
            requires
                a == page_size * j + 0,
                n == a * k,
        ;
        vstd::arithmetic::div_mod::lemma_fundamental_div_mod_converse_mod(
            n as int,
            page_size as int,
            j * k,
            0,
        );
    }
}

} // verus!
