//! Revision numbers: dotted-decimal sequences of unsigned integers, with
//! the branch/revision algebra and the total order used to sort the deltas
//! of a document.

use vstd::prelude::*;

verus! {

/// An RCS revision number, e.g. `1.2.3.4`, stored as the vector
/// `[1, 2, 3, 4]`.
#[derive(Debug, PartialEq, Eq, Clone)]
pub struct Num {
    /// The components of the revision number.
    pub numbers: Vec<u32>,
}

impl View for Num {
    type V = Seq<u32>;

    open spec fn view(&self) -> Seq<u32> {
        self.numbers@
    }
}

/// The strict total order on revision numbers: component-wise numeric
/// comparison, a strict prefix ordering before its extensions.
pub open spec fn num_lt_sp(a: Seq<u32>, b: Seq<u32>) -> bool
    decreases a.len(),
{
    if b.len() == 0 {
        false
    } else if a.len() == 0 {
        true
    } else if a[0] < b[0] {
        true
    } else if a[0] > b[0] {
        false
    } else {
        num_lt_sp(a.skip(1), b.skip(1))
    }
}

/// The order is irreflexive and connected: of two distinct numbers one is
/// strictly below the other, and none is below itself.
pub proof fn lemma_num_lt_connected(a: Seq<u32>, b: Seq<u32>)
    ensures
        num_lt_sp(a, b) ==> a != b,
        num_lt_sp(a, b) ==> !num_lt_sp(b, a),
        !num_lt_sp(a, b) && !num_lt_sp(b, a) ==> a == b,
    decreases a.len(),
{
    if a.len() == 0 && b.len() == 0 {
        assert(a =~= b);
    } else if a.len() == 0 || b.len() == 0 {
        assert(a.len() != b.len());
    } else if a[0] != b[0] {
        if a == b {
            assert(a[0] == b[0]);
        }
    } else {
        lemma_num_lt_connected(a.skip(1), b.skip(1));
        if num_lt_sp(a, b) && a == b {
            assert(a.skip(1) == b.skip(1));
        }
        if !num_lt_sp(a, b) && !num_lt_sp(b, a) {
            assert(a.skip(1) == b.skip(1));
            assert forall|i: int| 0 <= i < a.len() implies a[i] == b[i] by {
                if i > 0 {
                    assert(a.skip(1)[i - 1] == a[i]);
                    assert(b.skip(1)[i - 1] == b[i]);
                }
            }
            assert(a =~= b);
        }
    }
}

/// The order is transitive.
pub proof fn lemma_num_lt_trans(a: Seq<u32>, b: Seq<u32>, c: Seq<u32>)
    requires
        num_lt_sp(a, b),
        num_lt_sp(b, c),
    ensures
        num_lt_sp(a, c),
    decreases a.len(),
{
    if a.len() != 0 && b.len() != 0 && c.len() != 0 {
        if a[0] == b[0] && b[0] == c[0] {
            lemma_num_lt_trans(a.skip(1), b.skip(1), c.skip(1));
        }
    }
}

/// Compares two revision numbers in the total order, component-wise.
pub fn num_lt(a: &Num, b: &Num) -> (r: bool)
    ensures
        r == num_lt_sp(a@, b@),
{
    let mut i: usize = 0;
    proof {
        assert(a@.skip(0) =~= a@);
        assert(b@.skip(0) =~= b@);
    }
    loop
        invariant
            i <= a@.len(),
            i <= b@.len(),
            num_lt_sp(a@, b@) == num_lt_sp(a@.skip(i as int), b@.skip(i as int)),
        decreases a@.len() - i,
    {
        if i == b.numbers.len() {
            return false;
        }
        if i == a.numbers.len() {
            return true;
        }
        let x = a.numbers[i];
        let y = b.numbers[i];
        if x < y {
            return true;
        }
        if x > y {
            return false;
        }
        proof {
            assert(a@.skip(i as int).skip(1) =~= a@.skip(i + 1));
            assert(b@.skip(i as int).skip(1) =~= b@.skip(i + 1));
        }
        i = i + 1;
    }
}

/// Tests two revision numbers for equality, component-wise.
pub fn num_eq(a: &Num, b: &Num) -> (r: bool)
    ensures
        r == (a@ == b@),
{
    if a.numbers.len() != b.numbers.len() {
        return false;
    }
    let mut i: usize = 0;
    while i < a.numbers.len()
        invariant
            i <= a@.len(),
            a@.len() == b@.len(),
            a@.subrange(0, i as int) =~= b@.subrange(0, i as int),
        decreases a@.len() - i,
    {
        if a.numbers[i] != b.numbers[i] {
            assert(a@[i as int] != b@[i as int]);
            return false;
        }
        proof {
            assert(a@.subrange(0, i + 1) =~= a@.subrange(0, i as int).push(a@[i as int]));
            assert(b@.subrange(0, i + 1) =~= b@.subrange(0, i as int).push(b@[i as int]));
        }
        i = i + 1;
    }
    proof {
        assert(a@.subrange(0, a@.len() as int) =~= a@);
        assert(b@.subrange(0, b@.len() as int) =~= b@);
    }
    true
}

impl Num {
    /// A branch number has an odd count of components.
    pub fn is_branch(&self) -> (r: bool)
        ensures
            r == (self@.len() % 2 == 1),
    {
        self.numbers.len() % 2 == 1
    }

    /// A revision number proper has an even count of components.
    pub fn is_revision(&self) -> (r: bool)
        ensures
            r == (self@.len() % 2 == 0),
    {
        !self.is_branch()
    }

    /// A valid revision number is non-empty, has an even count of
    /// components, and every component is positive.
    pub fn is_valid_revision(&self) -> (r: bool)
        ensures
            r == (self@.len() > 0 && self@.len() % 2 == 0 && (forall|i: int|
                0 <= i < self@.len() ==> self@[i] > 0)),
    {
        if self.numbers.len() == 0 {
            return false;
        }
        if self.is_branch() {
            return false;
        }
        let mut i: usize = 0;
        while i < self.numbers.len()
            invariant
                i <= self@.len(),
                forall|j: int| 0 <= j < i ==> self@[j] > 0,
            decreases self@.len() - i,
        {
            if self.numbers[i] == 0 {
                return false;
            }
            i = i + 1;
        }
        true
    }

    /// The branching point: the prefix without the last component for a
    /// branch number, without the last two for a revision number.
    pub fn get_branching_point(&self) -> (r: Num)
        requires
            self@.len() >= 1,
        ensures
            self@.len() % 2 == 1 ==> r@ == self@.subrange(0, self@.len() - 1),
            self@.len() % 2 == 0 ==> r@ == self@.subrange(0, self@.len() - 2),
    {
        if self.is_branch() {
            let numbers = vstd::slice::slice_to_vec(
                vstd::slice::slice_subrange(self.numbers.as_slice(), 0, self.numbers.len() - 1),
            );
            Num { numbers }
        } else {
            let numbers = vstd::slice::slice_to_vec(
                vstd::slice::slice_subrange(self.numbers.as_slice(), 0, self.numbers.len() - 2),
            );
            Num { numbers }
        }
    }

    /// All ancestor branching points: the prefixes of length 2, 4, 6, and
    /// so on, strictly shorter than the number itself.
    pub fn get_branching_points(&self) -> (r: Vec<Num>)
        ensures
            r@.len() == if self@.len() == 0 { 0int } else { (self@.len() - 1) / 2 },
            forall|k: int| 0 <= k < r@.len() ==> (#[trigger] r@[k])@ == self@.subrange(0, 2 * k + 2),
    {
        let len = self.numbers.len();
        let cnt: usize = if len == 0 { 0 } else { (len - 1) / 2 };
        let mut points = Vec::<Num>::new();
        let mut k: usize = 0;
        while k < cnt
            invariant
                k <= cnt,
                len == self@.len(),
                cnt == if len == 0 { 0int } else { (len - 1) / 2 },
                points@.len() == k,
                forall|j: int|
                    0 <= j < k ==> (#[trigger] points@[j])@ == self@.subrange(0, 2 * j + 2),
            decreases cnt - k,
        {
            assert(2 * k + 2 <= len);
            let numbers = vstd::slice::slice_to_vec(
                vstd::slice::slice_subrange(self.numbers.as_slice(), 0, 2 * k + 2),
            );
            points.push(Num { numbers });
            k = k + 1;
        }
        points
    }
}

} // verus!
