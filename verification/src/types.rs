//! The type system of the strategy language: types, their compatibility, and
//! the typing of binary and comparison operators.

use vstd::prelude::*;


verus! {

/// A type of the strategy language.
#[derive(Debug, Hash)]
pub enum TypeSpec {
    /// A price.
    Price,
    /// A quantity.
    Amount,
    /// A length of time.
    Duration,
    /// A point in time.
    TimePoint,
    /// A percentage.
    Percent,
    /// A count.
    Count,
    /// A plain number.
    Number,
    /// A string.
    String,
    /// A boolean.
    Bool,
    /// Any type (used for generic positions).
    Any,
    /// A tuple of types (several returned values).
    Tuple(Vec<TypeSpec>),
    /// An on-chain address, independent of the chain.
    Address,
    /// A list whose elements share one type.
    List(Box<TypeSpec>),
    /// A condition expression, for symbols that take a condition as argument.
    Condition,
}

/// The mathematical model of a [`TypeSpec`]: the same shape, with a tuple's
/// element types held as a sequence.
pub enum Ty {
    Price,
    Amount,
    Duration,
    TimePoint,
    Percent,
    Count,
    Number,
    String,
    Bool,
    Any,
    Tuple(Seq<Ty>),
    Address,
    List(Box<Ty>),
    Condition,
}

/// The model of a type.
pub open spec fn ty_of(t: TypeSpec) -> Ty
    decreases t,
{
    match t {
        TypeSpec::Price => Ty::Price,
        TypeSpec::Amount => Ty::Amount,
        TypeSpec::Duration => Ty::Duration,
        TypeSpec::TimePoint => Ty::TimePoint,
        TypeSpec::Percent => Ty::Percent,
        TypeSpec::Count => Ty::Count,
        TypeSpec::Number => Ty::Number,
        TypeSpec::String => Ty::String,
        TypeSpec::Bool => Ty::Bool,
        TypeSpec::Any => Ty::Any,
        TypeSpec::Tuple(v) => Ty::Tuple(tys_of(v@)),
        TypeSpec::Address => Ty::Address,
        TypeSpec::List(b) => Ty::List(Box::new(ty_of(*b))),
        TypeSpec::Condition => Ty::Condition,
    }
}

/// The models of a sequence of types, element by element.
pub open spec fn tys_of(s: Seq<TypeSpec>) -> Seq<Ty>
    decreases s,
{
    if s.len() == 0 {
        Seq::empty()
    } else {
        tys_of(s.drop_last()).push(ty_of(s.last()))
    }
}

/// `tys_of` maps element by element.
pub proof fn lemma_tys_of(s: Seq<TypeSpec>)
    ensures
        tys_of(s).len() == s.len(),
        forall|i: int| 0 <= i < s.len() ==> #[trigger] tys_of(s)[i] == ty_of(s[i]),
    decreases s.len(),
{
    if s.len() > 0 {
        lemma_tys_of(s.drop_last());
    }
}

/// Extending a prefix by one element extends its models by one model.
pub proof fn lemma_tys_of_take(s: Seq<TypeSpec>, i: int)
    requires
        0 <= i < s.len(),
    ensures
        tys_of(s.take(i + 1)) == tys_of(s.take(i)).push(ty_of(s[i])),
{
    assert(s.take(i + 1).drop_last() =~= s.take(i));
}

impl View for TypeSpec {
    type V = Ty;

    open spec fn view(&self) -> Ty {
        ty_of(*self)
    }
}

/// Whether a type is one of the numeric types that a plain number converts to.
pub open spec fn is_numeric(t: Ty) -> bool {
    t is Price || t is Amount || t is Percent || t is Count
}

/// The text of a type, as the checker's messages print it.
pub open spec fn ty_text(t: Ty) -> Seq<char>
    decreases t,
{
    match t {
        Ty::Price => "Price"@,
        Ty::Amount => "Amount"@,
        Ty::Duration => "Duration"@,
        Ty::TimePoint => "TimePoint"@,
        Ty::Percent => "Percent"@,
        Ty::Count => "Count"@,
        Ty::Number => "Number"@,
        Ty::String => "String"@,
        Ty::Bool => "Bool"@,
        Ty::Any => "Any"@,
        Ty::Address => "Address"@,
        Ty::Condition => "Condition"@,
        Ty::List(e) => "["@ + ty_text(*e) + "]"@,
        Ty::Tuple(ts) => "("@ + tys_text(ts) + ")"@,
    }
}

/// The texts of a sequence of types, separated by `", "`.
pub open spec fn tys_text(ts: Seq<Ty>) -> Seq<char>
    decreases ts,
{
    if ts.len() == 0 {
        Seq::empty()
    } else if ts.len() == 1 {
        ty_text(ts[0])
    } else {
        tys_text(ts.drop_last()) + ", "@ + ty_text(ts.last())
    }
}

impl TypeSpec {
    /// Whether two types are the same.
    pub fn same_type(&self, other: &TypeSpec) -> (r: bool)
        ensures
            r == (self@ == other@),
        decreases self,
    {
        match (self, other) {
            (TypeSpec::Price, TypeSpec::Price) => true,
            (TypeSpec::Amount, TypeSpec::Amount) => true,
            (TypeSpec::Duration, TypeSpec::Duration) => true,
            (TypeSpec::TimePoint, TypeSpec::TimePoint) => true,
            (TypeSpec::Percent, TypeSpec::Percent) => true,
            (TypeSpec::Count, TypeSpec::Count) => true,
            (TypeSpec::Number, TypeSpec::Number) => true,
            (TypeSpec::String, TypeSpec::String) => true,
            (TypeSpec::Bool, TypeSpec::Bool) => true,
            (TypeSpec::Any, TypeSpec::Any) => true,
            (TypeSpec::Address, TypeSpec::Address) => true,
            (TypeSpec::Condition, TypeSpec::Condition) => true,
            (TypeSpec::List(a), TypeSpec::List(b)) => (**a).same_type(&**b),
            (TypeSpec::Tuple(a), TypeSpec::Tuple(b)) => {
                proof {
                    lemma_tys_of(a@);
                    lemma_tys_of(b@);
                }
                if a.len() != b.len() {
                    return false;
                }
                let mut i: usize = 0;
                while i < a.len()
                    invariant
                        i <= a@.len(),
                        a@.len() == b@.len(),
                        tys_of(a@).len() == a@.len(),
                        tys_of(b@).len() == b@.len(),
                        forall|j: int| 0 <= j < a@.len() ==> #[trigger] tys_of(a@)[j] == ty_of(a@[j]),
                        forall|j: int| 0 <= j < b@.len() ==> #[trigger] tys_of(b@)[j] == ty_of(b@[j]),
                        forall|j: int| 0 <= j < i ==> ty_of(#[trigger] a@[j]) == ty_of(b@[j]),
                        decreases_to!(*self => *a),
                        self@ == Ty::Tuple(tys_of(a@)),
                        other@ == Ty::Tuple(tys_of(b@)),
                    decreases a@.len() - i,
                {
                    proof {
                        assert(decreases_to!(*a => a[i as int]));
                    }
                    if !a[i].same_type(&b[i]) {
                        assert(tys_of(a@)[i as int] != tys_of(b@)[i as int]);
                        return false;
                    }
                    i += 1;
                }
                assert(tys_of(a@) =~= tys_of(b@));
                true
            },
            _ => false,
        }
    }

    /// Appends the text of this type to `out`.
    pub fn write_text(&self, out: &mut String)
        ensures
            final(out)@ == old(out)@ + ty_text(self@),
        decreases self,
    {
        match self {
            TypeSpec::Price => out.append("Price"),
            TypeSpec::Amount => out.append("Amount"),
            TypeSpec::Duration => out.append("Duration"),
            TypeSpec::TimePoint => out.append("TimePoint"),
            TypeSpec::Percent => out.append("Percent"),
            TypeSpec::Count => out.append("Count"),
            TypeSpec::Number => out.append("Number"),
            TypeSpec::String => out.append("String"),
            TypeSpec::Bool => out.append("Bool"),
            TypeSpec::Any => out.append("Any"),
            TypeSpec::Address => out.append("Address"),
            TypeSpec::Condition => out.append("Condition"),
            TypeSpec::List(e) => {
                out.append("[");
                (**e).write_text(out);
                out.append("]");
                assert(final(out)@ =~= old(out)@ + ty_text(self@));
            },
            TypeSpec::Tuple(v) => {
                out.append("(");
                let ghost start = out@;
                let mut i: usize = 0;
                while i < v.len()
                    invariant
                        i <= v@.len(),
                        out@ == start + tys_text(tys_of(v@.take(i as int))),
                        decreases_to!(*self => *v),
                    decreases v@.len() - i,
                {
                    proof {
                        assert(decreases_to!(*v => v[i as int]));
                        lemma_tys_of_take(v@, i as int);
                        lemma_tys_of(v@.take(i as int));
                    }
                    let ghost before = out@;
                    if i > 0 {
                        out.append(", ");
                    }
                    v[i].write_text(out);
                    proof {
                        let ts = tys_of(v@.take(i + 1));
                        lemma_tys_of(v@.take(i + 1));
                        assert(ts.drop_last() =~= tys_of(v@.take(i as int)));
                        if i == 0 {
                            assert(tys_of(v@.take(0)) =~= Seq::<Ty>::empty());
                            assert(out@ =~= start + tys_text(ts));
                        } else {
                            assert(out@ =~= start + tys_text(ts));
                        }
                    }
                    i += 1;
                }
                assert(v@.take(v@.len() as int) =~= v@);
                out.append(")");
                assert(final(out)@ =~= old(out)@ + ty_text(self@));
            },
        }
    }

    /// The text of this type, as the checker's messages print it
    /// (`Price`, `[Amount]`, `(Price, Count)`).
    pub fn to_string(&self) -> (r: String)
        ensures
            r@ == ty_text(self@),
    {
        let mut out = String::new();
        self.write_text(&mut out);
        assert(out@ =~= ty_text(self@));
        out
    }
}

impl Clone for TypeSpec {
    fn clone(&self) -> (r: Self)
        ensures
            r@ == self@,
        decreases self,
    {
        match self {
            TypeSpec::Price => TypeSpec::Price,
            TypeSpec::Amount => TypeSpec::Amount,
            TypeSpec::Duration => TypeSpec::Duration,
            TypeSpec::TimePoint => TypeSpec::TimePoint,
            TypeSpec::Percent => TypeSpec::Percent,
            TypeSpec::Count => TypeSpec::Count,
            TypeSpec::Number => TypeSpec::Number,
            TypeSpec::String => TypeSpec::String,
            TypeSpec::Bool => TypeSpec::Bool,
            TypeSpec::Any => TypeSpec::Any,
            TypeSpec::Address => TypeSpec::Address,
            TypeSpec::Condition => TypeSpec::Condition,
            TypeSpec::List(b) => TypeSpec::List(Box::new((**b).clone())),
            TypeSpec::Tuple(v) => {
                let mut out: Vec<TypeSpec> = Vec::new();
                let mut i: usize = 0;
                while i < v.len()
                    invariant
                        i <= v@.len(),
                        tys_of(out@) == tys_of(v@.take(i as int)),
                        decreases_to!(*self => *v),
                    decreases v@.len() - i,
                {
                    proof {
                        assert(decreases_to!(*v => v[i as int]));
                    }
                    let ghost old_out = out@;
                    let c = v[i].clone();
                    out.push(c);
                    proof {
                        assert(out@.drop_last() =~= old_out);
                        lemma_tys_of_take(v@, i as int);
                    }
                    i += 1;
                }
                assert(v@.take(v@.len() as int) =~= v@);
                TypeSpec::Tuple(out)
            },
        }
    }
}

impl PartialEq for TypeSpec {
    fn eq(&self, other: &Self) -> (r: bool) {
        self.same_type(other)
    }
}

impl vstd::std_specs::cmp::PartialEqSpecImpl for TypeSpec {
    open spec fn obeys_eq_spec() -> bool {
        true
    }

    open spec fn eq_spec(&self, other: &TypeSpec) -> bool {
        self@ == other@
    }
}

impl Eq for TypeSpec {
}

/// Whether a value of type `actual` may stand where `expected` is wanted.
pub open spec fn spec_is_compatible(expected: Ty, actual: Ty) -> bool
    decreases expected,
{
    if expected == actual {
        true
    } else if expected is Any || actual is Any {
        true
    } else if actual is Number {
        is_numeric(expected)
    } else if actual is Percent && expected is Amount {
        true
    } else {
        match (expected, actual) {
            (Ty::List(e), Ty::List(a)) => spec_is_compatible(*e, *a),
            _ => false,
        }
    }
}

/// The type of `left op right`, or `None` where the operator does not apply.
pub open spec fn spec_binary_op(left: Ty, op: BinOp, right: Ty) -> Option<Ty> {
    match op {
        BinOp::Add | BinOp::Sub => if left == right {
            Some(left)
        } else {
            None
        },
        BinOp::Mul | BinOp::Div => if right is Number {
            Some(left)
        } else if left is Number {
            Some(right)
        } else if left == right {
            Some(Ty::Number)
        } else {
            None
        },
        BinOp::Or => if spec_is_compatible(left, right) {
            Some(left)
        } else {
            None
        },
    }
}

/// Whether values of the two types may be compared.
pub open spec fn spec_compare_op(left: Ty, right: Ty) -> bool {
    if left == right {
        true
    } else if left is Number {
        is_numeric(right)
    } else if right is Number {
        is_numeric(left)
    } else {
        false
    }
}

/// The model of an optional type.
pub open spec fn opt_ty(t: Option<TypeSpec>) -> Option<Ty> {
    match t {
        Some(t) => Some(t@),
        None => None,
    }
}

/// Type checking rules.
pub struct TypeChecker;

impl TypeChecker {
    /// Whether a value of type `actual` may stand where `expected` is wanted:
    /// equal types; `Any` on either side; a `Number` where a price, amount,
    /// percent or count is wanted; a `Percent` where an amount is wanted; and
    /// lists whose element types are compatible.
    pub fn is_compatible(expected: &TypeSpec, actual: &TypeSpec) -> (r: bool)
        ensures
            r == spec_is_compatible(expected@, actual@),
        decreases expected,
    {
        if expected.same_type(actual) {
            return true;
        }
        if matches!(expected, TypeSpec::Any) || matches!(actual, TypeSpec::Any) {
            return true;
        }
        if matches!(actual, TypeSpec::Number) {
            matches!(
                expected,
                TypeSpec::Price | TypeSpec::Amount | TypeSpec::Percent | TypeSpec::Count
            )
        } else if matches!(actual, TypeSpec::Percent) && matches!(expected, TypeSpec::Amount) {
            true
        } else {
            match (expected, actual) {
                (TypeSpec::List(e), TypeSpec::List(a)) => Self::is_compatible(&**e, &**a),
                _ => false,
            }
        }
    }

    /// The type of `left op right`: `+` and `-` need equal types and keep
    /// them; `*` and `/` by a `Number` keep the other side's type, and two
    /// equal types give a `Number`; `OR` needs a right side compatible with
    /// the left and keeps the left type. `None` where the operator does not
    /// apply.
    pub fn check_binary_op(left: &TypeSpec, op: BinOp, right: &TypeSpec) -> (r: Option<TypeSpec>)
        ensures
            opt_ty(r) == spec_binary_op(left@, op, right@),
    {
        match op {
            BinOp::Add | BinOp::Sub => {
                if left.same_type(right) {
                    Some(left.clone())
                } else {
                    None
                }
            },
            BinOp::Mul | BinOp::Div => {
                if matches!(right, TypeSpec::Number) {
                    Some(left.clone())
                } else if matches!(left, TypeSpec::Number) {
                    Some(right.clone())
                } else if left.same_type(right) {
                    Some(TypeSpec::Number)
                } else {
                    None
                }
            },
            BinOp::Or => {
                if Self::is_compatible(left, right) {
                    Some(left.clone())
                } else {
                    None
                }
            },
        }
    }

    /// Whether values of the two types may be compared: equal types, or a
    /// `Number` against a price, amount, percent or count.
    pub fn check_compare_op(left: &TypeSpec, right: &TypeSpec) -> (r: bool)
        ensures
            r == spec_compare_op(left@, right@),
    {
        if left.same_type(right) {
            return true;
        }
        if matches!(left, TypeSpec::Number) {
            matches!(right, TypeSpec::Price | TypeSpec::Amount | TypeSpec::Percent | TypeSpec::Count)
        } else if matches!(right, TypeSpec::Number) {
            matches!(left, TypeSpec::Price | TypeSpec::Amount | TypeSpec::Percent | TypeSpec::Count)
        } else {
            false
        }
    }
}

/// A binary operator on types.
#[derive(Debug, Clone, Copy, PartialEq, Eq, Structural)]
pub enum BinOp {
    /// `+`
    Add,
    /// `-`
    Sub,
    /// `*`
    Mul,
    /// `/`
    Div,
    /// `OR`: the left value, or the right one where the left is uninitialised.
    Or,
}

/// Every type is compatible with itself.
pub proof fn lemma_compatible_reflexive(t: Ty)
    ensures
        spec_is_compatible(t, t),
{
}

/// `Any` is compatible with every type, in both directions.
pub proof fn lemma_any_compatible(t: Ty)
    ensures
        spec_is_compatible(Ty::Any, t),
        spec_is_compatible(t, Ty::Any),
{
}

/// Comparability is symmetric.
pub proof fn lemma_compare_symmetric(a: Ty, b: Ty)
    ensures
        spec_compare_op(a, b) == spec_compare_op(b, a),
{
}

/// Every type can be compared with itself.
pub proof fn lemma_compare_reflexive(t: Ty)
    ensures
        spec_compare_op(t, t),
{
}

/// The arithmetic operators type the same way with their operands swapped.
pub proof fn lemma_arith_commutes(a: Ty, op: BinOp, b: Ty)
    requires
        op != BinOp::Or,
    ensures
        spec_binary_op(a, op, b) == spec_binary_op(b, op, a),
{
}

/// Adding or subtracting two values of one type keeps the type; multiplying
/// or dividing by a `Number` keeps the other type.
pub proof fn lemma_arith_identities(t: Ty)
    ensures
        spec_binary_op(t, BinOp::Add, t) == Some(t),
        spec_binary_op(t, BinOp::Sub, t) == Some(t),
        spec_binary_op(t, BinOp::Mul, Ty::Number) == Some(t),
        spec_binary_op(Ty::Number, BinOp::Mul, t) == Some(t),
        spec_binary_op(t, BinOp::Div, Ty::Number) == Some(t),
{
}

/// A percentage converts only to an amount: where anything other than a
/// percentage, an amount or `Any` is wanted, a percentage does not fit.
pub proof fn lemma_percent_converts_only_to_amount(expected: Ty)
    requires
        !(expected is Percent),
        !(expected is Amount),
        !(expected is Any),
    ensures
        !spec_is_compatible(expected, Ty::Percent),
{
}

/// A plain number converts only to the numeric types: where anything other
/// than a number, a price, an amount, a percentage, a count or `Any` is
/// wanted, a number does not fit.
pub proof fn lemma_number_converts_only_to_numeric(expected: Ty)
    requires
        !(expected is Number),
        !is_numeric(expected),
        !(expected is Any),
    ensures
        !spec_is_compatible(expected, Ty::Number),
{
}

/// Two different types that are not lists fit each other only through `Any`
/// or one of the two conversions (a number to a numeric type, a percentage
/// to an amount).
pub proof fn lemma_compatible_only_by_conversion(expected: Ty, actual: Ty)
    requires
        expected != actual,
        !(expected is List && actual is List),
        spec_is_compatible(expected, actual),
    ensures
        expected is Any || actual is Any || (actual is Number && is_numeric(expected))
            || (actual is Percent && expected is Amount),
{
}

/// Multiplying or dividing two values of one type other than `Number` gives
/// a plain number (a ratio); with a `Number` on one side the other side's
/// type stays.
pub proof fn lemma_same_type_product_is_number(t: Ty)
    requires
        !(t is Number),
    ensures
        spec_binary_op(t, BinOp::Mul, t) == Some(Ty::Number),
        spec_binary_op(t, BinOp::Div, t) == Some(Ty::Number),
{
}

/// Multiplying or dividing two different types, neither of them `Number`,
/// does not type; adding or subtracting two different types does not
/// either.
pub proof fn lemma_mixed_arithmetic_refused(a: Ty, b: Ty)
    requires
        a != b,
    ensures
        !(a is Number) && !(b is Number) ==> spec_binary_op(a, BinOp::Mul, b) is None
            && spec_binary_op(a, BinOp::Div, b) is None,
        spec_binary_op(a, BinOp::Add, b) is None,
        spec_binary_op(a, BinOp::Sub, b) is None,
{
}

/// Values of two different types compare only where one is a plain number
/// and the other a price, amount, percentage or count.
pub proof fn lemma_compare_only_numbers_with_numeric(a: Ty, b: Ty)
    requires
        a != b,
        spec_compare_op(a, b),
    ensures
        (a is Number && is_numeric(b)) || (b is Number && is_numeric(a)),
{
}

} // verus!
