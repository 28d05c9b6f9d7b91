//! Inner products, matrix-vector products and expectation values of spin
//! configurations.
use vstd::prelude::*;

verus! {

/// `sum_{j < k} a[j] * b[j]`.
pub open spec fn dot_prefix(a: Seq<i8>, b: Seq<i8>, k: int) -> int
    decreases k,
{
    if k <= 0 {
        0
    } else {
        dot_prefix(a, b, k - 1) + a[k - 1] * b[k - 1]
    }
}

/// The inner product of two equally long spin vectors.
pub open spec fn dot(a: Seq<i8>, b: Seq<i8>) -> int {
    dot_prefix(a, b, a.len() as int)
}

/// Row `row` of `m` times `v`, step by step, stays within `i8`: every product
/// and every running sum fits.
pub open spec fn row_fits_i8(row: Seq<i8>, v: Seq<i8>) -> bool {
    forall|k: int|
        0 <= k <= row.len() ==> {
            &&& i8::MIN <= #[trigger] dot_prefix(row, v, k) <= i8::MAX
            &&& (k < row.len() ==> i8::MIN <= row[k] * v[k] <= i8::MAX)
        }
}

/// The product `m v` computed in `i8` never overflows.
pub open spec fn product_fits_i8<const N: usize>(v: [i8; N], m: [[i8; N]; N]) -> bool {
    forall|i: int| 0 <= i < N ==> row_fits_i8(#[trigger] m@[i]@, v@)
}

/// The product `m v` of a square matrix and a vector.
pub open spec fn mat_vec<const N: usize>(v: [i8; N], m: [[i8; N]; N]) -> Seq<i8> {
    Seq::new(N as nat, |i: int| dot(m@[i]@, v@) as i8)
}

/// Each term of an inner product of spins lies within `+-2^14`.
proof fn lemma_dot_prefix_bound(a: Seq<i8>, b: Seq<i8>, k: int)
    requires
        0 <= k <= a.len(),
        a.len() == b.len(),
    ensures
        -16384 * k <= dot_prefix(a, b, k) <= 16384 * k,
    decreases k,
{
    if k > 0 {
        lemma_dot_prefix_bound(a, b, k - 1);
        let x = a[k - 1] as int;
        let y = b[k - 1] as int;
        assert(-16384 <= x * y <= 16384) by (nonlinear_arith)
            requires
                -128 <= x <= 127,
                -128 <= y <= 127,
        ;
    }
}

/// The inner product `<psi_2|psi_1>` of two spin configurations.
pub fn calculate_inner_product<const CHAIN_SIZE: usize>(
    spin_chain_1: &[i8; CHAIN_SIZE],
    spin_chain_2: &[i8; CHAIN_SIZE],
) -> (sum_of_products: i128)
    ensures
        sum_of_products == dot(spin_chain_1@, spin_chain_2@),
{
    let mut sum_of_products: i128 = 0;
    let mut i: usize = 0;
    while i < CHAIN_SIZE
        invariant
            i <= CHAIN_SIZE,
            spin_chain_1@.len() == CHAIN_SIZE,
            spin_chain_2@.len() == CHAIN_SIZE,
            sum_of_products == dot_prefix(spin_chain_1@, spin_chain_2@, i as int),
        decreases CHAIN_SIZE - i,
    {
        proof {
            lemma_dot_prefix_bound(spin_chain_1@, spin_chain_2@, i + 1);
            assert(16384 * (i + 1) <= 16384 * 0x1_0000_0000_0000_0000) by (nonlinear_arith)
                requires
                    i + 1 <= 0x1_0000_0000_0000_0000,
            ;
        }
        let spin_1 = spin_chain_1[i] as i128;
        let spin_2 = spin_chain_2[i] as i128;
        assert(-16384 <= spin_1 * spin_2 <= 16384) by (nonlinear_arith)
            requires
                -128 <= spin_1 <= 127,
                -128 <= spin_2 <= 127,
        ;
        sum_of_products = sum_of_products + spin_1 * spin_2;
        i = i + 1;
    }
    sum_of_products
}

/// The expectation value `<v|O|v>` of the observable `O`, as `<v|v'>` with
/// `v' = O v`.
pub fn calculate_expectation_value<const CHAIN_SIZE: usize>(
    spin_chain_1: &[i8; CHAIN_SIZE],
    observable: &[[i8; CHAIN_SIZE]; CHAIN_SIZE],
) -> (expectation_value: i128)
    requires
        product_fits_i8(*spin_chain_1, *observable),
    ensures
        expectation_value == dot(spin_chain_1@, mat_vec(*spin_chain_1, *observable)),
{
    let v_prime = matrix_mul_with_vector(spin_chain_1, observable);
    calculate_inner_product(spin_chain_1, &v_prime)
}

/// The product `A v` of the matrix `observable` and the vector `spin_chain_1`.
pub fn matrix_mul_with_vector<const CHAIN_SIZE: usize>(
    spin_chain_1: &[i8; CHAIN_SIZE],
    observable: &[[i8; CHAIN_SIZE]; CHAIN_SIZE],
) -> (v_prime: [i8; CHAIN_SIZE])
    requires
        product_fits_i8(*spin_chain_1, *observable),
    ensures
        v_prime@ == mat_vec(*spin_chain_1, *observable),
{
    let mut v_prime: [i8; CHAIN_SIZE] = [0; CHAIN_SIZE];
    let mut i: usize = 0;
    while i < CHAIN_SIZE
        invariant
            i <= CHAIN_SIZE,
            v_prime@.len() == CHAIN_SIZE,
            product_fits_i8(*spin_chain_1, *observable),
            forall|r: int| 0 <= r < i ==> v_prime@[r] == #[trigger] mat_vec(
                *spin_chain_1,
                *observable,
            )[r],
        decreases CHAIN_SIZE - i,
    {
        let matrix_row = &observable[i];
        assert(row_fits_i8(observable@[i as int]@, spin_chain_1@));
        let mut sum: i8 = 0;
        let mut j: usize = 0;
        while j < CHAIN_SIZE
            invariant
                j <= CHAIN_SIZE,
                matrix_row@.len() == CHAIN_SIZE,
                spin_chain_1@.len() == CHAIN_SIZE,
                row_fits_i8(matrix_row@, spin_chain_1@),
                sum == dot_prefix(matrix_row@, spin_chain_1@, j as int),
            decreases CHAIN_SIZE - j,
        {
            let observ_value = matrix_row[j];
            let vec_value = spin_chain_1[j];
            assert(dot_prefix(matrix_row@, spin_chain_1@, j + 1) == sum + observ_value
                * vec_value);
            sum = sum + observ_value * vec_value;
            j = j + 1;
        }
        v_prime[i] = sum;
        i = i + 1;
    }
    assert(v_prime@ =~= mat_vec(*spin_chain_1, *observable));
    v_prime
}

} // verus!
