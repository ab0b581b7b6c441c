use vstd::prelude::*;

verus! {

/// The mathematical content of a [`Decimal`].
pub struct DecimalView {
    pub negative: bool,
    pub int_digits: Seq<u8>,
    pub frac_digits: Seq<u8>,
}

/// A decimal literal kept exactly as it was written: a sign, the ASCII
/// digits before the point, and the ASCII digits after it (empty when the
/// literal has no fractional part).
#[derive(Clone, Debug, PartialEq, Eq)]
pub struct Decimal {
    pub negative: bool,
    pub int_digits: Vec<u8>,
    pub frac_digits: Vec<u8>,
}

impl DeepView for Decimal {
    type V = DecimalView;

    open spec fn deep_view(&self) -> DecimalView {
        DecimalView {
            negative: self.negative,
            int_digits: self.int_digits@,
            frac_digits: self.frac_digits@,
        }
    }
}

pub open spec fn is_digit(b: u8) -> bool {
    48 <= b <= 57
}

pub open spec fn all_digits(d: Seq<u8>) -> bool {
    forall|i: int| 0 <= i < d.len() ==> is_digit(#[trigger] d[i])
}

/// The number that a sequence of ASCII digits denotes.
pub open spec fn digits_value(d: Seq<u8>) -> nat
    decreases d.len(),
{
    if d.len() == 0 {
        0
    } else {
        digits_value(d.drop_last()) * 10 + (d.last() - 48) as nat
    }
}

impl DecimalView {
    /// At least one digit before the point, and nothing but digits.
    pub open spec fn well_formed(self) -> bool {
        self.int_digits.len() > 0 && all_digits(self.int_digits) && all_digits(self.frac_digits)
    }

    /// The literal denotes a number in [-1, 1].
    pub open spec fn magnitude_at_most_one(self) -> bool {
        digits_value(self.int_digits) == 0 || (digits_value(self.int_digits) == 1
            && digits_value(self.frac_digits) == 0)
    }
}

/// A run of `0` digits denotes zero, and nothing else does.
pub proof fn lemma_zero_digits(d: Seq<u8>)
    requires
        all_digits(d),
    ensures
        digits_value(d) == 0 <==> (forall|i: int| 0 <= i < d.len() ==> d[i] == 48u8),
    decreases d.len(),
{
    if d.len() > 0 {
        let front = d.drop_last();
        assert(all_digits(front)) by {
            assert forall|i: int| 0 <= i < front.len() implies is_digit(#[trigger] front[i]) by {
                assert(front[i] == d[i]);
            }
        }
        lemma_zero_digits(front);
        assert(is_digit(d[d.len() - 1]));
        if digits_value(d) == 0 {
            assert forall|i: int| 0 <= i < d.len() implies d[i] == 48u8 by {
                if i < d.len() - 1 {
                    assert(front[i] == d[i]);
                }
            }
        } else if forall|i: int| 0 <= i < d.len() ==> d[i] == 48u8 {
            assert forall|i: int| 0 <= i < front.len() implies front[i] == 48u8 by {
                assert(front[i] == d[i]);
            }
        }
    }
}

/// Whether `digits` holds nothing but `0`.
fn all_zero(digits: &Vec<u8>) -> (r: bool)
    ensures
        r == (forall|i: int| 0 <= i < digits@.len() ==> digits@[i] == 48u8),
{
    let mut i: usize = 0;
    while i < digits.len()
        invariant
            i <= digits@.len(),
            forall|j: int| 0 <= j < i ==> digits@[j] == 48u8,
        decreases digits@.len() - i,
    {
        if digits[i] != 48 {
            return false;
        }
        i += 1;
    }
    true
}

impl Decimal {
    /// Whether the literal denotes a number in [-1, 1]: its integer part
    /// is zero, or it is one and the fraction is zero.
    pub fn magnitude_at_most_one(&self) -> (r: bool)
        requires
            self.deep_view().well_formed(),
        ensures
            r == self.deep_view().magnitude_at_most_one(),
    {
        let n = self.int_digits.len();
        let last = self.int_digits[n - 1];
        let mut front = self.int_digits.clone();
        front.pop();
        proof {
            let d = self.int_digits@;
            assert(front@ =~= d.drop_last());
            assert(all_digits(front@)) by {
                assert forall|i: int| 0 <= i < front@.len() implies is_digit(
                    #[trigger] front@[i],
                ) by {
                    assert(front@[i] == d[i]);
                }
            }
            lemma_zero_digits(front@);
            lemma_zero_digits(self.frac_digits@);
            assert(is_digit(d[n - 1]));
        }
        if !all_zero(&front) {
            false
        } else if last == 48 {
            true
        } else {
            last == 49 && all_zero(&self.frac_digits)
        }
    }
}

pub struct Vector2View {
    pub x: DecimalView,
    pub y: DecimalView,
}

#[derive(Clone, Debug, PartialEq, Eq)]
pub struct Vector2 {
    pub x: Decimal,
    pub y: Decimal,
}

impl DeepView for Vector2 {
    type V = Vector2View;

    open spec fn deep_view(&self) -> Vector2View {
        Vector2View { x: self.x.deep_view(), y: self.y.deep_view() }
    }
}

pub struct Vector3View {
    pub x: DecimalView,
    pub y: DecimalView,
    pub z: DecimalView,
}

#[derive(Clone, Debug, PartialEq, Eq)]
pub struct Vector3 {
    pub x: Decimal,
    pub y: Decimal,
    pub z: Decimal,
}

impl DeepView for Vector3 {
    type V = Vector3View;

    open spec fn deep_view(&self) -> Vector3View {
        Vector3View { x: self.x.deep_view(), y: self.y.deep_view(), z: self.z.deep_view() }
    }
}

/// The three stored components of a unit quaternion. The scalar part is
/// not stored: it is the negative root that makes the norm one.
pub struct QuaternionView {
    pub x: DecimalView,
    pub y: DecimalView,
    pub z: DecimalView,
}

#[derive(Clone, Debug, PartialEq, Eq)]
pub struct Quaternion {
    pub x: Decimal,
    pub y: Decimal,
    pub z: Decimal,
}

impl DeepView for Quaternion {
    type V = QuaternionView;

    open spec fn deep_view(&self) -> QuaternionView {
        QuaternionView { x: self.x.deep_view(), y: self.y.deep_view(), z: self.z.deep_view() }
    }
}

} // verus!
