use vstd::prelude::*;

verus! {

/// One row of the cross-product: e paired with every element of b, in order.
pub open spec fn cart_row_spec<T, U>(e: T, b: Seq<U>) -> Seq<(T, U)> {
    Seq::new(b.len(), |j: int| (e, b[j]))
}

/// The cartesian cross-product of a and b: for every element of a, in order,
/// that element paired with every element of b, in order.
pub open spec fn cart_spec<T, U>(a: Seq<T>, b: Seq<U>) -> Seq<(T, U)>
    decreases a.len(),
{
    if a.len() == 0 {
        Seq::empty()
    } else {
        cart_spec(a.drop_last(), b) + cart_row_spec(a.last(), b)
    }
}

/// The cross-product holds one pair for every combination.
pub proof fn lemma_cart_spec_len<T, U>(a: Seq<T>, b: Seq<U>)
    ensures
        cart_spec(a, b).len() == a.len() * b.len(),
    decreases a.len(),
{
    let n = a.len() as int;
    let bl = b.len() as int;
    if n == 0 {
        assert(0 * bl == 0) by (nonlinear_arith);
    } else {
        lemma_cart_spec_len(a.drop_last(), b);
        assert((n - 1) * bl + bl == n * bl) by (nonlinear_arith);
    }
}

/// Indexing law for the cross-product: the entry at i * |b| + j pairs the
/// i-th element of a with the j-th element of b, so every element of a is
/// paired with every element of b, rows of b in emission order.
pub proof fn lemma_cart_spec_index<T, U>(a: Seq<T>, b: Seq<U>, i: int, j: int)
    requires
        0 <= i < a.len(),
        0 <= j < b.len(),
    ensures
        cart_spec(a, b)[i * b.len() + j] == (a[i], b[j]),
    decreases a.len(),
{
    let n = a.len() as int;
    let bl = b.len() as int;
    lemma_cart_spec_len(a.drop_last(), b);
    if i == n - 1 {
        assert(i * bl + j - (n - 1) * bl == j) by (nonlinear_arith)
            requires
                i == n - 1,
        ;
        assert(0 <= i * bl + j) by (nonlinear_arith)
            requires
                0 <= i && 0 <= j && 0 < bl,
        ;
        assert(cart_spec(a, b)[i * bl + j] == cart_row_spec(a.last(), b)[j]);
    } else {
        lemma_cart_spec_index(a.drop_last(), b, i, j);
        assert(0 <= i * bl + j < (n - 1) * bl) by (nonlinear_arith)
            requires
                0 <= i < n - 1 && 0 <= j < bl,
        ;
        assert(cart_spec(a, b)[i * bl + j] == cart_spec(a.drop_last(), b)[i * bl + j]);
        assert(a.drop_last()[i] == a[i]);
    }
}

/// Enumerates the cartesian cross-product of the two slices.
pub fn cartesian<T: Copy, U: Copy>(a: &[T], b: &[U]) -> (r: Vec<(T, U)>)
    ensures
        r@ == cart_spec(a@, b@),
{
    let mut out: Vec<(T, U)> = Vec::new();
    let mut i: usize = 0;
    while i < a.len()
        invariant
            i <= a@.len(),
            out@ == cart_spec(a@.take(i as int), b@),
        decreases a@.len() - i,
    {
        let e = a[i];
        let mut j: usize = 0;
        while j < b.len()
            invariant
                i < a@.len(),
                j <= b@.len(),
                e == a@[i as int],
                out@ == cart_spec(a@.take(i as int), b@) + Seq::new(
                    j as nat,
                    |jj: int| (a@[i as int], b@[jj]),
                ),
            decreases b@.len() - j,
        {
            out.push((e, b[j]));
            proof {
                assert(out@ =~= cart_spec(a@.take(i as int), b@) + Seq::new(
                    j as nat + 1,
                    |jj: int| (a@[i as int], b@[jj]),
                ));
            }
            j = j + 1;
        }
        proof {
            let pre = a@.take(i as int + 1);
            assert(pre.drop_last() =~= a@.take(i as int));
            assert(pre.last() == a@[i as int]);
            assert(Seq::new(b@.len(), |jj: int| (a@[i as int], b@[jj])) =~= cart_row_spec(
                pre.last(),
                b@,
            ));
            assert(out@ == cart_spec(pre, b@));
        }
        i = i + 1;
    }
    proof {
        assert(a@.take(a@.len() as int) =~= a@);
    }
    out
}

} // verus!
